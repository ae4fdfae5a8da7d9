use crate::config::{
    children_view, conditions_view, Condition, Config, IfIssueComment, OnCommon, OnIssueComment,
    Step,
};
use crate::event::{contains_tier, tier_listed, CommonEvent, Event, IssueCommentEvent};
use crate::json::{texts_view, Json, JsonValue};
use crate::template::{eval, rendered_view, rendering, TemplateError};
use crate::text::{
    begins_with, chars_of, first_line, has_prefix, line_end, same_text, trim_bounds, trimmed,
};
use vstd::prelude::*;

verus! {

/// Whether a comment with the text `body` gives the command `command`: its
/// first line, without the white space around it, begins with a slash and
/// the command's name. More may follow the name, so `/testing` gives the
/// command `test` too.
pub open spec fn command_given(command: Seq<char>, body: Seq<char>) -> bool {
    has_prefix(trimmed(first_line(body)), seq!['/'] + command)
}

/// Whether `wanted` is one of `logins`.
pub open spec fn login_listed(logins: Seq<Seq<char>>, wanted: Seq<char>) -> bool {
    exists|i: int| 0 <= i < logins.len() && logins[i] == wanted
}

/// Tells whether the comment `body` gives the command `command`.
pub fn is_command(command: &str, body: &str) -> (given: bool)
    ensures
        given == command_given(command@, body@),
{
    let text = chars_of(body);
    let end = line_end(&text);
    let (from, to) = trim_bounds(&text, 0, end);
    let mut wanted: Vec<char> = Vec::new();
    wanted.push('/');
    let mut name = chars_of(command);
    wanted.append(&mut name);
    begins_with(&text, from, to, &wanted)
}

/// Tells whether `wanted` occurs in `logins`.
pub fn contains_login(logins: &Vec<String>, wanted: &str) -> (found: bool)
    ensures
        found == login_listed(texts_view(logins@), wanted@),
{
    let mut i: usize = 0;
    while i < logins.len()
        invariant
            i <= logins.len(),
            forall|k: int| 0 <= k < i ==> texts_view(logins@)[k] != wanted@,
        decreases logins.len() - i,
    {
        if same_text(logins[i].as_str(), wanted) {
            assert(texts_view(logins@)[i as int] == wanted@);
            return true;
        }
        i += 1;
    }
    false
}

/// What can be asked of a payload, with a yes or a no for an answer.
pub trait Eval {
    type Payload;

    /// The answer for `payload`.
    spec fn holds(&self, payload: &Self::Payload) -> bool;

    /// Works out the answer for `payload`.
    fn eval(&self, payload: &Self::Payload) -> (verdict: bool)
        ensures
            verdict == self.holds(payload),
    ;
}

/// A list holds where it has at least one item and every one of its items
/// holds: an empty list holds of nothing.
impl<T: Eval> Eval for Vec<T> {
    type Payload = T::Payload;

    open spec fn holds(&self, payload: &Self::Payload) -> bool {
        self@.len() > 0 && forall|i: int|
            0 <= i < self@.len() ==> (#[trigger] self@[i]).holds(payload)
    }

    fn eval(&self, payload: &Self::Payload) -> (verdict: bool) {
        if self.len() == 0 {
            return false;
        }
        let mut i: usize = 0;
        while i < self.len()
            invariant
                i <= self.len(),
                forall|k: int| 0 <= k < i ==> (#[trigger] self@[k]).holds(payload),
            decreases self.len() - i,
        {
            if !self[i].eval(payload) {
                return false;
            }
            i += 1;
        }
        true
    }
}

impl Eval for IfIssueComment {
    type Payload = IssueCommentEvent;

    open spec fn holds(&self, payload: &IssueCommentEvent) -> bool {
        self@.holds(*payload)
    }

    fn eval(&self, payload: &IssueCommentEvent) -> (verdict: bool) {
        self.decide(payload)
    }
}

impl Condition {
    /// Whether the condition holds of the comment `event`.
    pub open spec fn holds(self, event: IssueCommentEvent) -> bool
        decreases self,
    {
        match self {
            Condition::Not(inner) => !inner.holds(event),
            Condition::And(children) => children.len() > 0 && forall|i: int|
                0 <= i < children.len() ==> (#[trigger] children[i]).holds(event),
            Condition::Or(children) => exists|i: int|
                0 <= i < children.len() && (#[trigger] children[i]).holds(event),
            Condition::IsPr => event.issue.pull_request is Some,
            Condition::UserIs(tiers) => tier_listed(tiers, event.comment.author_association),
            Condition::UserIn(logins) => login_listed(logins, event.comment.user.login@),
            Condition::Command(name) => command_given(name, event.comment.body@),
        }
    }
}

impl IfIssueComment {
    /// Tells whether the condition holds of the comment `event`. Of the
    /// children of `and` it looks no further than the first that fails, of
    /// those of `or` no further than the first that holds.
    pub fn decide(&self, event: &IssueCommentEvent) -> (verdict: bool)
        ensures
            verdict == self@.holds(*event),
        decreases self,
    {
        match self {
            IfIssueComment::Not(inner) => !inner.decide(event),
            IfIssueComment::And(children) => {
                proof {
                    children_view(*children);
                }
                Self::decide_all(children, event)
            },
            IfIssueComment::Or(children) => {
                proof {
                    children_view(*children);
                }
                Self::decide_any(children, event)
            },
            IfIssueComment::IsPr => event.issue.pull_request.is_some(),
            IfIssueComment::UserIs(tiers) => contains_tier(tiers, event.comment.author_association),
            IfIssueComment::UserIn(logins) => contains_login(
                logins,
                event.comment.user.login.as_str(),
            ),
            IfIssueComment::Command(name) => is_command(name.as_str(), event.comment.body.as_str()),
        }
    }

    /// Tells whether `children` is not empty and all of them hold of `event`.
    fn decide_all(children: &Vec<IfIssueComment>, event: &IssueCommentEvent) -> (verdict: bool)
        ensures
            verdict == Condition::And(conditions_view(children@)).holds(*event),
        decreases children,
    {
        if children.len() == 0 {
            return false;
        }
        let mut i: usize = 0;
        while i < children.len()
            invariant
                i <= children.len(),
                forall|k: int|
                    0 <= k < i ==> (#[trigger] conditions_view(children@)[k]).holds(*event),
            decreases children.len() - i,
        {
            if !children[i].decide(event) {
                assert(!conditions_view(children@)[i as int].holds(*event));
                return false;
            }
            i += 1;
        }
        true
    }

    /// Tells whether one of `children` holds of `event`.
    fn decide_any(children: &Vec<IfIssueComment>, event: &IssueCommentEvent) -> (verdict: bool)
        ensures
            verdict == Condition::Or(conditions_view(children@)).holds(*event),
        decreases children,
    {
        let mut i: usize = 0;
        while i < children.len()
            invariant
                i <= children.len(),
                forall|k: int|
                    0 <= k < i ==> !(#[trigger] conditions_view(children@)[k]).holds(*event),
            decreases children.len() - i,
        {
            if children[i].decide(event) {
                proof {
                    let this = Condition::Or(conditions_view(children@));
                    assert(this->Or_0[i as int].holds(*event));
                }
                return true;
            }
            i += 1;
        }
        false
    }
}

/// An `and` without children holds of no comment. One with children holds
/// exactly where all of them do.
pub proof fn and_is_conjunction(children: Seq<Condition>, event: IssueCommentEvent)
    ensures
        children.len() == 0 ==> !Condition::And(children).holds(event),
        children.len() > 0 ==> (Condition::And(children).holds(event) <==> forall|i: int|
            0 <= i < children.len() ==> children[i].holds(event)),
{
}

/// An `or` without children holds of no comment. One with children holds
/// exactly where one of them does.
pub proof fn or_is_disjunction(children: Seq<Condition>, event: IssueCommentEvent)
    ensures
        children.len() == 0 ==> !Condition::Or(children).holds(event),
        children.len() > 0 ==> (Condition::Or(children).holds(event) <==> exists|i: int|
            0 <= i < children.len() && children[i].holds(event)),
{
    let this = Condition::Or(children);
    if exists|i: int| 0 <= i < children.len() && children[i].holds(event) {
        let i = choose|i: int| 0 <= i < children.len() && children[i].holds(event);
        assert(this->Or_0[i].holds(event));
    }
}

/// A `not` holds exactly where its child does not.
pub proof fn not_is_negation(child: Condition, event: IssueCommentEvent)
    ensures
        Condition::Not(Box::new(child)).holds(event) == !child.holds(event),
{
}

/// A list of conditions holds of the comments of which the `and` of its
/// conditions holds, and so of none where it is empty.
pub proof fn list_is_conjunction(conditions: Vec<IfIssueComment>, event: IssueCommentEvent)
    ensures
        conditions.holds(&event) == Condition::And(conditions_view(conditions@)).holds(event),
        conditions.holds(&event) == IfIssueComment::And(conditions).holds(&event),
{
    children_view(conditions);
    let seen = conditions_view(conditions@);
    if Condition::And(seen).holds(event) {
        assert forall|i: int| 0 <= i < conditions@.len() implies (#[trigger] conditions@[i]).holds(
            &event,
        ) by {
            assert(seen[i].holds(event));
        }
    }
}

/// A payload, with the document in which the templates of the steps are
/// rendered.
#[derive(Debug)]
pub struct Context<'c, T> {
    pub payload: &'c T,
    pub context: &'c Json,
}

/// The steps that `steps` point to, in their order.
pub open spec fn listed(steps: Seq<&Step>) -> Seq<Step> {
    steps.map_values(|step: &Step| *step)
}

/// Whether `steps` are the steps of `script`, one for one and in its order.
pub open spec fn lists(steps: Seq<&Step>, script: Seq<Step>) -> bool {
    steps.len() == script.len() && forall|i: int| 0 <= i < steps.len() ==> *steps[i] == script[i]
}

/// Steps that list a script point to its steps.
pub proof fn listed_is_script(steps: Seq<&Step>, script: Seq<Step>)
    requires
        lists(steps, script),
    ensures
        listed(steps) == script,
{
}

/// What has steps to run for a payload.
pub trait Runner<'c> {
    type Payload;

    /// The steps that are run for `payload`, in the order in which they are
    /// run.
    spec fn script(&self, payload: &Self::Payload) -> Seq<Step>;

    /// Collects the steps that are to be run for `payload`.
    fn run<'a>(&'a self, payload: &Self::Payload) -> (steps: Vec<&'a Step>)
        ensures
            lists(steps@, self.script(payload)),
    ;
}

/// The scripts of `runners` for `payload`, one after the other.
pub open spec fn scripts<'c, T: Runner<'c>>(runners: Seq<T>, payload: &T::Payload) -> Seq<Step>
    decreases runners.len(),
{
    if runners.len() == 0 {
        Seq::empty()
    } else {
        scripts(runners.drop_last(), payload) + runners.last().script(payload)
    }
}

/// A rule file has the steps of its rule blocks for the kind of the event.
impl<'c> Runner<'c> for Config {
    type Payload = Context<'c, Event>;

    open spec fn script(&self, payload: &Self::Payload) -> Seq<Step> {
        match *payload.payload {
            Event::IssueComment(comment) => match self.on.issue_comment {
                Some(blocks) => blocks.script(
                    &(Context { payload: &comment, context: payload.context }),
                ),
                None => Seq::empty(),
            },
        }
    }

    fn run<'a>(&'a self, payload: &Self::Payload) -> (steps: Vec<&'a Step>) {
        match payload.payload {
            Event::IssueComment(comment) => match &self.on.issue_comment {
                Some(blocks) => blocks.run(&Context { payload: comment, context: payload.context }),
                None => Vec::new(),
            },
        }
    }
}

/// A list has the steps of its items, those of the first item first.
impl<'c, T: Runner<'c>> Runner<'c> for Vec<T> {
    type Payload = T::Payload;

    open spec fn script(&self, payload: &Self::Payload) -> Seq<Step> {
        scripts(self@, payload)
    }

    fn run<'a>(&'a self, payload: &Self::Payload) -> (steps: Vec<&'a Step>) {
        let mut steps: Vec<&'a Step> = Vec::new();
        let mut i: usize = 0;
        while i < self.len()
            invariant
                i <= self.len(),
                lists(steps@, scripts(self@.take(i as int), payload)),
            decreases self.len() - i,
        {
            let mut more = self[i].run(payload);
            proof {
                assert(self@.take(i as int + 1).drop_last() == self@.take(i as int));
            }
            steps.append(&mut more);
            i += 1;
        }
        proof {
            assert(self@.take(i as int) == self@);
            assert(self.script(payload) == scripts(self@, payload));
        }
        steps
    }
}

/// A rule block for comments has its steps for a comment of which its
/// conditions hold, and none for another.
impl<'c> Runner<'c> for OnIssueComment {
    type Payload = Context<'c, IssueCommentEvent>;

    open spec fn script(&self, payload: &Self::Payload) -> Seq<Step> {
        if self.conditions.holds(payload.payload) {
            self.common.steps@
        } else {
            Seq::empty()
        }
    }

    fn run<'a>(&'a self, payload: &Self::Payload) -> (steps: Vec<&'a Step>) {
        if self.conditions.eval(payload.payload) {
            self.common.run(&Context { payload: &payload.payload.common, context: payload.context })
        } else {
            Vec::new()
        }
    }
}

impl<'c> Runner<'c> for OnCommon {
    type Payload = Context<'c, CommonEvent>;

    open spec fn script(&self, payload: &Self::Payload) -> Seq<Step> {
        self.steps@
    }

    fn run<'a>(&'a self, payload: &Self::Payload) -> (steps: Vec<&'a Step>) {
        let steps = self.steps.run(payload.context);
        proof {
            steps_in_order(self.steps@, payload.context);
            assert(self.script(payload) == self.steps@);
        }
        steps
    }
}

/// A step has itself to run.
impl<'c> Runner<'c> for Step {
    type Payload = Json;

    open spec fn script(&self, payload: &Json) -> Seq<Step> {
        seq![*self]
    }

    fn run<'a>(&'a self, payload: &Json) -> (steps: Vec<&'a Step>) {
        let mut steps: Vec<&'a Step> = Vec::new();
        steps.push(self);
        steps
    }
}

/// The script of a list of steps is the list.
pub proof fn steps_in_order(steps: Seq<Step>, context: &Json)
    ensures
        scripts(steps, context) == steps,
    decreases steps.len(),
{
    if steps.len() > 0 {
        steps_in_order(steps.drop_last(), context);
    }
}

/// A program to start, with the arguments to hand to it.
#[derive(Clone, Debug, PartialEq, Eq)]
pub struct Invocation {
    pub program: String,
    pub arguments: Vec<String>,
}

/// The arguments with which the shell runs the command line `command`: it
/// reads no profile and no start-up file, gives up at the first command that
/// fails, and lets a pipeline fail with any of its stages.
pub open spec fn shell_arguments(command: Seq<char>) -> Seq<Seq<char>> {
    seq!["--noprofile"@, "--norc"@, "-e"@, "-o"@, "pipefail"@, "-c"@, command]
}

impl Invocation {
    /// Whether the invocation is that of the shell on the command line
    /// `command`.
    pub open spec fn runs(self, command: Seq<char>) -> bool {
        self.program@ == "bash"@ && self.arguments@.map_values(|text: String| text@)
            == shell_arguments(command)
    }

    /// The invocation of the shell on the command line `command`.
    pub fn shell(command: String) -> (invocation: Invocation)
        ensures
            invocation.runs(command@),
    {
        let mut arguments: Vec<String> = Vec::new();
        arguments.push("--noprofile".to_owned());
        arguments.push("--norc".to_owned());
        arguments.push("-e".to_owned());
        arguments.push("-o".to_owned());
        arguments.push("pipefail".to_owned());
        arguments.push("-c".to_owned());
        arguments.push(command);
        let invocation = Invocation { program: "bash".to_owned(), arguments };
        proof {
            assert(invocation.arguments@.map_values(|text: String| text@) == shell_arguments(
                command@,
            ));
        }
        invocation
    }
}

/// The document in which templates are rendered when the context is
/// `context`: the context itself where it is an object, and an object
/// without members where it is anything else.
pub open spec fn document_of(context: JsonValue) -> JsonValue {
    match context {
        JsonValue::Object(_) => context,
        _ => JsonValue::Object(Seq::empty()),
    }
}

impl Step {
    /// The template of the step's command line.
    pub open spec fn template(self) -> Seq<char> {
        match self {
            Step::Run(command) => command@,
        }
    }

    /// Renders the step's command line in `context`.
    pub fn command(&self, context: &Json) -> (line: Result<String, TemplateError>)
        ensures
            rendered_view(line) == rendering(self.template(), document_of(context@)),
    {
        match self {
            Step::Run(command) => match context {
                Json::Object(_) => eval(command.as_str(), context),
                _ => {
                    let empty = Json::empty_object();
                    eval(command.as_str(), &empty)
                },
            },
        }
    }
}

/// Why a run ended before all of its steps were done. Each reason comes with
/// the place of the step at which the run ended, counted from 0 over all
/// the steps of the run.
#[derive(Clone, Debug, PartialEq, Eq)]
pub enum RunError {
    /// The command line of the step could not be rendered.
    Template(usize, TemplateError),
    /// The command of the step could not be started, or did not end with
    /// success.
    StepExecution(usize),
}

/// How a command ended.
#[derive(Clone, Copy, Debug, PartialEq, Eq, Structural)]
pub enum Outcome {
    /// It ended with success.
    Succeeded,
    /// It could not be started, or ended otherwise than with success.
    Failed,
}

/// A run that waits for the command of one of its steps to end: the steps
/// that the run goes through, the document in which their command lines
/// are rendered, and the place of the step whose command is out.
#[derive(Debug, PartialEq, Eq)]
pub struct Run<'a> {
    pub steps: Vec<&'a Step>,
    pub context: &'a Json,
    pub position: usize,
}

/// What the caller is to do next.
#[derive(Debug, PartialEq, Eq)]
pub enum Action<'a> {
    /// Run this, then resume the run that comes with it, with the outcome.
    Execute(Invocation, Run<'a>),
    /// Every step is done: the run ends with success.
    Finish,
    /// The run ends here with this error. Nothing more is run.
    Abort(RunError),
}

impl<'a> Run<'a> {
    /// The steps that the run goes through, in order.
    pub open spec fn script(self) -> Seq<Step> {
        listed(self.steps@)
    }
}

/// Whether `action` is what a run through `script` does when it comes to the
/// step at `at`, in `context`. Behind the last step the run is over with
/// success. Else the command line of the step is rendered: the run hands it
/// out, with the shell to run it, or is over where it has no rendering.
pub open spec fn takes(action: Action, script: Seq<Step>, context: &Json, at: int) -> bool {
    if at >= script.len() {
        action is Finish
    } else {
        match rendering(script[at].template(), document_of(context@)) {
            Ok(line) => action matches Action::Execute(invocation, run) && invocation.runs(line)
                && run.script() == script && run.context == context && run.position == at,
            Err(fault) => action matches Action::Abort(RunError::Template(step, error)) && step
                == at && error@ == fault,
        }
    }
}

/// Whether `action` is what `run` does when the command that is out has
/// ended with `outcome`. After a failure the run is over, with the place of
/// the step that failed. After a success it comes to the next step.
pub open spec fn follows(action: Action, run: Run, outcome: Outcome) -> bool {
    match outcome {
        Outcome::Failed => action == Action::Abort(RunError::StepExecution(run.position)),
        Outcome::Succeeded => takes(action, run.script(), run.context, run.position + 1),
    }
}

/// A comment of which the conditions of a rule block hold, a block with one
/// step whose command line has a rendering, and a command that ends with
/// success: the run hands out that command line for the shell, once, and
/// then ends with success.
pub proof fn a_matching_comment_runs_the_step(
    config: Config,
    payload: Context<Event>,
    line: Seq<char>,
    first: Action,
    second: Action,
)
    requires
        config.on.issue_comment matches Some(blocks) && blocks@.len() == 1 && ({
            let block = blocks@[0];
            &&& payload.payload matches Event::IssueComment(comment) && block.conditions.holds(
                &comment,
            )
            &&& block.common.steps@.len() == 1
            &&& rendering(
                block.common.steps@[0].template(),
                document_of(payload.context@),
            ) == Ok::<Seq<char>, crate::template::TemplateFault>(line)
        }),
        takes(first, config.script(&payload), payload.context, 0),
        first matches Action::Execute(_, run) ==> follows(second, run, Outcome::Succeeded),
    ensures
        first matches Action::Execute(invocation, _) && invocation.runs(line),
        second is Finish,
{
    let blocks = config.on.issue_comment->0;
    let comment = payload.payload->IssueComment_0;
    let inner = Context { payload: &comment, context: payload.context };
    assert(blocks@.drop_last() == Seq::<OnIssueComment>::empty());
    assert(scripts(blocks@.drop_last(), &inner) == Seq::<Step>::empty());
    assert(config.script(&payload) == blocks@[0].common.steps@);
}

/// After a command that failed nothing more is run: the run is over, and
/// its error tells the place of the step, whatever steps and rule blocks
/// come after it.
pub proof fn a_failure_ends_the_run(run: Run, action: Action)
    requires
        follows(action, run, Outcome::Failed),
    ensures
        action == Action::Abort(RunError::StepExecution(run.position)),
        !(action is Execute),
        !(action is Finish),
{
}

/// A rule file without rule blocks for the kind of the event has no steps,
/// and its run ends with success at once.
pub proof fn no_blocks_no_steps(config: Config, payload: Context<Event>, first: Action)
    requires
        config.on.issue_comment is None,
        takes(first, config.script(&payload), payload.context, 0),
    ensures
        first is Finish,
{
}

impl<'a> Run<'a> {
    /// The first action of the run of the rule file `config` on the event and
    /// in the context of `payload`: the run goes through the steps of
    /// `config` for the event, and comes to the first of them.
    pub fn begin(config: &'a Config, payload: &Context<'a, Event>) -> (action: Action<'a>)
        ensures
            takes(action, config.script(payload), payload.context, 0),
    {
        let steps = config.run(payload);
        proof {
            listed_is_script(steps@, config.script(payload));
        }
        Self::take(steps, payload.context, 0)
    }

    /// The next action of the run, when the command that is out has ended
    /// with `outcome`. After a failure the run is over, with the place of the
    /// step that failed. After a success it comes to the next step.
    pub fn resume(self, outcome: Outcome) -> (action: Action<'a>)
        ensures
            follows(action, self, outcome),
    {
        match outcome {
            Outcome::Failed => Action::Abort(RunError::StepExecution(self.position)),
            Outcome::Succeeded => {
                if self.position >= self.steps.len() {
                    Action::Finish
                } else {
                    Self::take(self.steps, self.context, self.position + 1)
                }
            },
        }
    }

    /// What the run through `steps` does when it comes to the step at `at`.
    fn take(steps: Vec<&'a Step>, context: &'a Json, at: usize) -> (action: Action<'a>)
        ensures
            takes(action, listed(steps@), context, at as int),
    {
        if at >= steps.len() {
            return Action::Finish;
        }
        match steps[at].command(context) {
            Ok(line) => Action::Execute(Invocation::shell(line), Run { steps, context, position: at }),
            Err(error) => Action::Abort(RunError::Template(at, error)),
        }
    }
}

} // verus!
