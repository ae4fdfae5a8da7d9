use crate::event::AuthorAssociation;
use vstd::prelude::*;

verus! {

/// A rule file.
#[derive(Clone, Debug, PartialEq, Eq)]
pub struct Config {
    pub on: On,
}

/// The rule blocks of a rule file, by the kind of event that they are for.
#[derive(Clone, Debug, PartialEq, Eq)]
pub struct On {
    pub issue: Option<Vec<OnIssue>>,
    pub issue_comment: Option<Vec<OnIssueComment>>,
}

/// A rule block for issues.
#[derive(Clone, Debug, PartialEq, Eq)]
pub struct OnIssue {
    pub common: OnCommon,
}

/// A rule block for comments: its steps are run for a comment on which all of
/// its conditions hold, and there is at least one.
#[derive(Clone, Debug, PartialEq, Eq)]
pub struct OnIssueComment {
    pub common: OnCommon,
    pub conditions: Vec<IfIssueComment>,
}

/// What the rule blocks of all kinds have: the steps, in the order in which
/// they are run.
#[derive(Clone, Debug, PartialEq, Eq)]
pub struct OnCommon {
    pub steps: Vec<Step>,
}

/// A condition on a comment.
#[derive(Debug, PartialEq, Eq)]
pub enum IfIssueComment {
    /// The child does not hold.
    Not(Box<IfIssueComment>),
    /// There are children, and all of them hold.
    And(Vec<IfIssueComment>),
    /// One of the children holds.
    Or(Vec<IfIssueComment>),
    /// The comment was made on a pull request.
    IsPr,
    /// The author of the comment stands to the repository in one of these
    /// ways.
    UserIs(Vec<AuthorAssociation>),
    /// The author of the comment has one of these logins.
    UserIn(Vec<String>),
    /// The comment gives the command of this name.
    Command(String),
}

/// What an `IfIssueComment` says, with its lists as sequences and its
/// strings as sequences of characters.
pub enum Condition {
    Not(Box<Condition>),
    And(Seq<Condition>),
    Or(Seq<Condition>),
    IsPr,
    UserIs(Seq<AuthorAssociation>),
    UserIn(Seq<Seq<char>>),
    Command(Seq<char>),
}

/// The conditions that `children` stand for, in their order.
pub open spec fn conditions_view(children: Seq<IfIssueComment>) -> Seq<Condition> {
    children.map_values(|child: IfIssueComment| child@)
}

impl View for IfIssueComment {
    type V = Condition;

    open spec fn view(&self) -> Condition
        decreases self,
    {
        match *self {
            IfIssueComment::Not(inner) => Condition::Not(Box::new((*inner)@)),
            IfIssueComment::And(children) => Condition::And(
                Seq::new(
                    children@.len(),
                    |i: int|
                        if 0 <= i < children@.len() {
                            children@[i]@
                        } else {
                            Condition::IsPr
                        },
                ),
            ),
            IfIssueComment::Or(children) => Condition::Or(
                Seq::new(
                    children@.len(),
                    |i: int|
                        if 0 <= i < children@.len() {
                            children@[i]@
                        } else {
                            Condition::IsPr
                        },
                ),
            ),
            IfIssueComment::IsPr => Condition::IsPr,
            IfIssueComment::UserIs(tiers) => Condition::UserIs(tiers@),
            IfIssueComment::UserIn(logins) => Condition::UserIn(
                logins@.map_values(|login: String| login@),
            ),
            IfIssueComment::Command(name) => Condition::Command(name@),
        }
    }
}

/// A list of conditions is seen as the sequence of what they say.
pub proof fn children_view(children: Vec<IfIssueComment>)
    ensures
        IfIssueComment::And(children)@ == Condition::And(conditions_view(children@)),
        IfIssueComment::Or(children)@ == Condition::Or(conditions_view(children@)),
{
    assert(IfIssueComment::And(children)@->And_0 =~= conditions_view(children@));
    assert(IfIssueComment::Or(children)@->Or_0 =~= conditions_view(children@));
}

impl Clone for IfIssueComment {
    fn clone(&self) -> (copy: Self)
        ensures
            copy@ == self@,
        decreases self,
    {
        match self {
            IfIssueComment::Not(inner) => IfIssueComment::Not(Box::new((**inner).clone())),
            IfIssueComment::And(children) => {
                let copies = Self::clone_all(children);
                proof {
                    children_view(*children);
                    children_view(copies);
                }
                IfIssueComment::And(copies)
            },
            IfIssueComment::Or(children) => {
                let copies = Self::clone_all(children);
                proof {
                    children_view(*children);
                    children_view(copies);
                }
                IfIssueComment::Or(copies)
            },
            IfIssueComment::IsPr => IfIssueComment::IsPr,
            IfIssueComment::UserIs(tiers) => {
                let copies = tiers.clone();
                proof {
                    assert(copies@ =~= tiers@);
                }
                IfIssueComment::UserIs(copies)
            },
            IfIssueComment::UserIn(logins) => {
                let copies = logins.clone();
                proof {
                    assert(copies@.map_values(|login: String| login@) =~= logins@.map_values(
                        |login: String| login@,
                    ));
                }
                IfIssueComment::UserIn(copies)
            },
            IfIssueComment::Command(name) => IfIssueComment::Command(name.clone()),
        }
    }
}

impl IfIssueComment {
    /// Copies of `children`, in their order.
    fn clone_all(children: &Vec<IfIssueComment>) -> (copies: Vec<IfIssueComment>)
        ensures
            conditions_view(copies@) == conditions_view(children@),
        decreases children,
    {
        let mut copies: Vec<IfIssueComment> = Vec::new();
        let mut i: usize = 0;
        while i < children.len()
            invariant
                i <= children.len(),
                copies@.len() == i,
                forall|k: int| 0 <= k < i ==> copies@[k]@ == children@[k]@,
            decreases children.len() - i,
        {
            copies.push(children[i].clone());
            i += 1;
        }
        copies
    }
}

/// A unit of work of a rule block.
#[derive(Clone, Debug, PartialEq, Eq)]
pub enum Step {
    /// A shell command, as a template.
    Run(String),
}

} // verus!
