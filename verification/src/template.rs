use crate::json::{scalar_texts, scalars, texts_view, values_view, Json, JsonValue};
use crate::path::{
    compile, compiling, examine, path_query, refused, refuses, scan, select, zero, zeroed, Compiled,
};
use crate::text::{chars_of, text_of, trim_bounds, trimmed};
use vstd::prelude::*;
use vstd::string::StringExecFns;

verus! {

/// Why an expression of a template has no value.
#[derive(Clone, Debug, PartialEq, Eq)]
pub enum ExpressionError {
    /// The path engine refused the path, with this message.
    Compile(String),
    /// The path names more than one scalar: these, in the order in which
    /// they were found.
    Ambiguous(Vec<String>),
    /// The path engine would abort on the path instead of answering: on a
    /// filter's number that is too large for it, on a filter from the root
    /// that compares in order with a number, or on filters nested too deep.
    Unsupported(String),
}

/// Why a template could not be rendered.
#[derive(Clone, Debug, PartialEq, Eq)]
pub enum TemplateError {
    /// One expression of the template has no value.
    Single(ExpressionError),
    /// Two expressions or more have none: their errors, in the order of the
    /// expressions.
    Multiple(Vec<ExpressionError>),
}

/// An `ExpressionError`, with its strings as sequences of characters.
pub enum ExpressionFault {
    Compile(Seq<char>),
    Ambiguous(Seq<Seq<char>>),
    Unsupported(Seq<char>),
}

/// A `TemplateError`, with its strings as sequences of characters.
pub enum TemplateFault {
    Single(ExpressionFault),
    Multiple(Seq<ExpressionFault>),
}

impl View for ExpressionError {
    type V = ExpressionFault;

    open spec fn view(&self) -> ExpressionFault {
        match *self {
            ExpressionError::Compile(message) => ExpressionFault::Compile(message@),
            ExpressionError::Ambiguous(found) => ExpressionFault::Ambiguous(texts_view(found@)),
            ExpressionError::Unsupported(path) => ExpressionFault::Unsupported(path@),
        }
    }
}

/// The faults that `errors` stand for, in their order.
pub open spec fn faults_view(errors: Seq<ExpressionError>) -> Seq<ExpressionFault> {
    errors.map_values(|error: ExpressionError| error@)
}

impl View for TemplateError {
    type V = TemplateFault;

    open spec fn view(&self) -> TemplateFault {
        match *self {
            TemplateError::Single(error) => TemplateFault::Single(error@),
            TemplateError::Multiple(errors) => TemplateFault::Multiple(faults_view(errors@)),
        }
    }
}

/// The value of an expression, or its fault, as sequences of characters.
pub open spec fn value_view(value: Result<String, ExpressionError>) -> Result<
    Seq<char>,
    ExpressionFault,
> {
    match value {
        Ok(text) => Ok(text@),
        Err(error) => Err(error@),
    }
}

/// The value that an expression has when its path gave `found`. A path that
/// finds no scalar gives the empty text, one that finds a single scalar
/// gives the text of that scalar, and one that finds more has no value.
/// Arrays, objects and `null` among the values found do not count.
pub open spec fn answer(found: Result<Seq<JsonValue>, Seq<char>>) -> Result<
    Seq<char>,
    ExpressionFault,
> {
    match found {
        Err(message) => Err(ExpressionFault::Compile(message)),
        Ok(values) => {
            let texts = scalar_texts(values);
            if texts.len() == 0 {
                Ok(Seq::empty())
            } else if texts.len() == 1 {
                Ok(texts[0])
            } else {
                Err(ExpressionFault::Ambiguous(texts))
            }
        },
    }
}

/// The path that the expression `expression` stands for: the expression
/// without the white space around it, taken from the root of the document.
pub open spec fn path_of(expression: Seq<char>) -> Seq<char> {
    seq!['$', '.'] + trimmed(expression)
}

/// The fault of a path on which the engine aborts where it compiles it,
/// when of the path, or of a path that compiles if and only if this one
/// does, the engine said `said`. A path that does not compile has the
/// engine's message for its fault, as every such path has.
pub open spec fn aborting(path: Seq<char>, said: Option<Result<(), Seq<char>>>) -> Result<
    Seq<char>,
    ExpressionFault,
> {
    match said {
        Some(Err(message)) => Err(ExpressionFault::Compile(message)),
        _ => Err(ExpressionFault::Unsupported(path)),
    }
}

/// The value of the expression `expression` in `context`: what `answer`
/// makes of what the path engine finds for its path. Where the engine would
/// abort instead of answering, the expression has the fault `Unsupported`:
/// the filters of the path are nested too deep, or one holds a number that
/// is too large, or the engine comes in `context` to a filter from the root
/// that compares in order with a number.
pub open spec fn resolved(expression: Seq<char>, context: JsonValue) -> Result<
    Seq<char>,
    ExpressionFault,
> {
    let path = path_of(expression);
    let read = scan(path, path.len() as int);
    if read.deep {
        Err(ExpressionFault::Unsupported(path))
    } else if read.long is Some {
        aborting(path, compiling(zeroed(path, read.long->0)))
    } else if refused(path, context) {
        aborting(path, compiling(path))
    } else {
        answer(path_query(path, context))
    }
}

/// Works out the value that an expression has when its path gave `found`.
pub fn settle(found: Result<Vec<Json>, String>) -> (value: Result<String, ExpressionError>)
    ensures
        value_view(value) == answer(
            match found {
                Ok(values) => Ok(values_view(values@)),
                Err(message) => Err(message@),
            },
        ),
{
    match found {
        Err(message) => Err(ExpressionError::Compile(message)),
        Ok(values) => {
            let mut texts = scalars(&values);
            if texts.len() == 0 {
                Ok(String::new())
            } else if texts.len() == 1 {
                let text = texts.pop().unwrap();
                Ok(text)
            } else {
                Err(ExpressionError::Ambiguous(texts))
            }
        },
    }
}

/// Works out the value of the expression `expression` in `context`.
pub fn lookup(expression: &str, context: &Json) -> (value: Result<String, ExpressionError>)
    ensures
        value_view(value) == resolved(expression@, context@),
{
    let chars = chars_of(expression);
    let (from, to) = trim_bounds(&chars, 0, chars.len());
    let mut path: Vec<char> = Vec::new();
    path.push('$');
    path.push('.');
    let mut i: usize = from;
    while i < to
        invariant
            from <= i <= to <= chars.len(),
            path@ == seq!['$', '.'] + chars@.subrange(from as int, i as int),
        decreases to - i,
    {
        path.push(chars[i]);
        i += 1;
    }
    proof {
        assert(chars@.subrange(0, chars.len() as int) == expression@);
    }
    let text = text_of(&path, 0, path.len());
    proof {
        assert(path@.subrange(0, path.len() as int) == path@);
    }
    let whole = examine(&path);
    if whole.deep {
        Err(ExpressionError::Unsupported(text))
    } else if whole.long.is_some() {
        let zeros = zero(&path, whole.long.unwrap());
        match compile(&zeros) {
            Compiled::No(message) => Err(ExpressionError::Compile(message)),
            _ => Err(ExpressionError::Unsupported(text)),
        }
    } else if refuses(&path, context) {
        match compile(&path) {
            Compiled::No(message) => Err(ExpressionError::Compile(message)),
            _ => Err(ExpressionError::Unsupported(text)),
        }
    } else {
        settle(select(text.as_str(), context))
    }
}

/// Whether `${{`, which begins an expression, is written in `t` at `at`.
pub open spec fn opens_at(t: Seq<char>, at: int) -> bool {
    0 <= at && at + 3 <= t.len() && t[at] == '$' && t[at + 1] == '{' && t[at + 2] == '{'
}

/// Whether `}}`, which ends an expression, is written in `t` at `at`.
pub open spec fn closes_at(t: Seq<char>, at: int) -> bool {
    0 <= at && at + 2 <= t.len() && t[at] == '}' && t[at + 1] == '}'
}

/// Where the expression ends whose text begins at `from`: at the first `}}`
/// from there on, unless a line feed stands before it. An expression does
/// not go over the end of its line.
pub open spec fn closing(t: Seq<char>, from: int) -> Option<int>
    decreases t.len() - from,
{
    if from < 0 || from >= t.len() {
        None
    } else if closes_at(t, from) {
        Some(from)
    } else if t[from] == '\n' {
        None
    } else {
        closing(t, from + 1)
    }
}

/// Where the text of the expression ends that is written in `t` at `at`, if
/// one is written there.
pub open spec fn expression_at(t: Seq<char>, at: int) -> Option<int> {
    if opens_at(t, at) {
        closing(t, at + 3)
    } else {
        None
    }
}

/// An expression ends behind the place where its text begins, and inside
/// the template.
pub proof fn closing_is_inside(t: Seq<char>, from: int)
    ensures
        closing(t, from) matches Some(end) ==> 0 <= from <= end && end + 2 <= t.len() && closes_at(
            t,
            end,
        ),
    decreases t.len() - from,
{
    if 0 <= from < t.len() && !closes_at(t, from) && t[from] != '\n' {
        closing_is_inside(t, from + 1);
    }
}

/// The place where an expression ends is the first place from its beginning
/// on where `}}` is written, and no line feed stands between the two. Where
/// a line feed comes first, or no `}}` at all, the expression has no end.
pub proof fn closing_is_first(t: Seq<char>, from: int, end: int)
    requires
        0 <= from,
    ensures
        closing(t, from) == Some(end) <==> from <= end && closes_at(t, end) && forall|k: int|
            from <= k < end ==> !closes_at(t, k) && t[k] != '\n',
    decreases t.len() - from,
{
    if from < t.len() && !closes_at(t, from) && t[from] != '\n' {
        closing_is_first(t, from + 1, end);
    }
}

/// A piece of a template.
pub enum Piece {
    /// Text that stands for itself.
    Literal(Seq<char>),
    /// An expression, by the text between `${{` and `}}`.
    Expression(Seq<char>),
}

/// The pieces of `t` from `from` on, left to right. Where an expression is
/// written, it is the next piece, and the pieces after it begin behind its
/// `}}`; elsewhere the next character is.
pub open spec fn pieces(t: Seq<char>, from: int) -> Seq<Piece>
    decreases t.len() - from,
{
    if from < 0 || from >= t.len() {
        Seq::empty()
    } else {
        match expression_at(t, from) {
            Some(end) => {
                proof {
                    closing_is_inside(t, from + 3);
                }
                seq![Piece::Expression(t.subrange(from + 3, end))] + pieces(t, end + 2)
            },
            None => seq![Piece::Literal(t.subrange(from, from + 1))] + pieces(t, from + 1),
        }
    }
}

/// How `piece` is written in a template.
pub open spec fn piece_source(piece: Piece) -> Seq<char> {
    match piece {
        Piece::Literal(text) => text,
        Piece::Expression(expression) => seq!['$', '{', '{'] + expression + seq!['}', '}'],
    }
}

/// How `parts` are written in a template, one after the other.
pub open spec fn source(parts: Seq<Piece>) -> Seq<char>
    decreases parts.len(),
{
    if parts.len() == 0 {
        Seq::empty()
    } else {
        source(parts.drop_last()) + piece_source(parts.last())
    }
}

/// Pieces are written one after the other, the first of them first.
proof fn source_of_first_and_rest(piece: Piece, rest: Seq<Piece>)
    ensures
        source(seq![piece] + rest) == piece_source(piece) + source(rest),
    decreases rest.len(),
{
    let all = seq![piece] + rest;
    if rest.len() == 0 {
        assert(source(all.drop_last()) =~= Seq::<char>::empty());
    } else {
        source_of_first_and_rest(piece, rest.drop_last());
        assert(all.drop_last() =~= seq![piece] + rest.drop_last());
    }
}

/// The pieces of a template from a place on are written as the template is
/// from that place on.
proof fn pieces_are_written_as_read(t: Seq<char>, from: int)
    requires
        0 <= from <= t.len(),
    ensures
        source(pieces(t, from)) == t.skip(from),
    decreases t.len() - from,
{
    if from < t.len() {
        let (piece, next) = piece_at(t, from);
        closing_is_inside(t, from + 3);
        pieces_are_written_as_read(t, next);
        source_of_first_and_rest(piece, pieces(t, next));
    }
}

/// Nothing of a template is lost in its pieces: written one after the other,
/// they are the template.
pub proof fn pieces_make_the_template(t: Seq<char>)
    ensures
        source(pieces(t, 0)) == t,
{
    pieces_are_written_as_read(t, 0);
}

/// The piece that stands in `t` at `from`, with the place where the pieces
/// after it begin.
pub open spec fn piece_at(t: Seq<char>, from: int) -> (Piece, int) {
    match expression_at(t, from) {
        Some(end) => (Piece::Expression(t.subrange(from + 3, end)), end + 2),
        None => (Piece::Literal(t.subrange(from, from + 1)), from + 1),
    }
}

/// What is written for `piece` when it is rendered in `context`: a literal
/// itself, an expression its value, and nothing where it has none.
pub open spec fn piece_text(piece: Piece, context: JsonValue) -> Seq<char> {
    match piece {
        Piece::Literal(text) => text,
        Piece::Expression(expression) => match resolved(expression, context) {
            Ok(text) => text,
            Err(_) => Seq::empty(),
        },
    }
}

/// The fault of `piece` in `context`, if it has one.
pub open spec fn piece_fault(piece: Piece, context: JsonValue) -> Option<ExpressionFault> {
    match piece {
        Piece::Literal(_) => None,
        Piece::Expression(expression) => match resolved(expression, context) {
            Ok(_) => None,
            Err(fault) => Some(fault),
        },
    }
}

/// What is written for `parts`, one after the other.
pub open spec fn output(parts: Seq<Piece>, context: JsonValue) -> Seq<char>
    decreases parts.len(),
{
    if parts.len() == 0 {
        Seq::empty()
    } else {
        output(parts.drop_last(), context) + piece_text(parts.last(), context)
    }
}

/// The faults of `parts`, in the order of `parts`.
pub open spec fn faults(parts: Seq<Piece>, context: JsonValue) -> Seq<ExpressionFault>
    decreases parts.len(),
{
    if parts.len() == 0 {
        Seq::empty()
    } else {
        let before = faults(parts.drop_last(), context);
        match piece_fault(parts.last(), context) {
            Some(fault) => before.push(fault),
            None => before,
        }
    }
}

/// What rendering `t` in `context` gives. Every expression is evaluated.
/// Where none has a fault, the result is the text with each expression
/// replaced by its value; else it is the fault, or all the faults where
/// there are two or more, and no text.
pub open spec fn rendering(t: Seq<char>, context: JsonValue) -> Result<Seq<char>, TemplateFault> {
    let parts = pieces(t, 0);
    let found = faults(parts, context);
    if found.len() == 0 {
        Ok(output(parts, context))
    } else if found.len() == 1 {
        Err(TemplateFault::Single(found[0]))
    } else {
        Err(TemplateFault::Multiple(found))
    }
}

/// A rendering, or its fault, as sequences of characters.
pub open spec fn rendered_view(rendered: Result<String, TemplateError>) -> Result<
    Seq<char>,
    TemplateFault,
> {
    match rendered {
        Ok(text) => Ok(text@),
        Err(error) => Err(error@),
    }
}

/// Where no piece has a fault, there are no faults.
proof fn no_fault_no_faults(parts: Seq<Piece>, context: JsonValue)
    requires
        forall|i: int| 0 <= i < parts.len() ==> piece_fault(#[trigger] parts[i], context) is None,
    ensures
        faults(parts, context).len() == 0,
    decreases parts.len(),
{
    if parts.len() > 0 {
        no_fault_no_faults(parts.drop_last(), context);
    }
}

/// The fault of a piece is among the faults.
proof fn fault_is_among_faults(parts: Seq<Piece>, context: JsonValue, at: int)
    requires
        0 <= at < parts.len(),
        piece_fault(parts[at], context) is Some,
    ensures
        faults(parts, context).contains(piece_fault(parts[at], context)->0),
    decreases parts.len(),
{
    let before = faults(parts.drop_last(), context);
    if at == parts.len() - 1 {
        let fault = piece_fault(parts.last(), context)->0;
        assert(before.push(fault)[before.len() as int] == fault);
    } else {
        fault_is_among_faults(parts.drop_last(), context, at);
        let fault = piece_fault(parts[at], context)->0;
        let k = choose|k: int| 0 <= k < before.len() && before[k] == fault;
        match piece_fault(parts.last(), context) {
            Some(last) => {
                assert(before.push(last)[k] == fault);
            },
            None => {},
        }
    }
}

/// Where no expression begins in a template, its pieces are all literal.
proof fn pieces_without_expression(t: Seq<char>, from: int)
    requires
        0 <= from,
        forall|at: int| !opens_at(t, at),
    ensures
        forall|i: int| 0 <= i < pieces(t, from).len() ==> (#[trigger] pieces(t, from)[i]) is Literal,
    decreases t.len() - from,
{
    if from < t.len() {
        pieces_without_expression(t, from + 1);
    }
}

/// Literal pieces are rendered as they are written.
proof fn literals_are_rendered_as_written(parts: Seq<Piece>, context: JsonValue)
    requires
        forall|i: int| 0 <= i < parts.len() ==> (#[trigger] parts[i]) is Literal,
    ensures
        output(parts, context) == source(parts),
        faults(parts, context).len() == 0,
    decreases parts.len(),
{
    if parts.len() > 0 {
        literals_are_rendered_as_written(parts.drop_last(), context);
    }
}

/// A template in which no expression begins is rendered as itself, in any
/// context.
pub proof fn plain_text_is_itself(t: Seq<char>, context: JsonValue)
    requires
        forall|at: int| !opens_at(t, at),
    ensures
        rendering(t, context) == Ok::<Seq<char>, TemplateFault>(t),
{
    pieces_without_expression(t, 0);
    literals_are_rendered_as_written(pieces(t, 0), context);
    pieces_make_the_template(t);
}

/// An expression whose path finds no scalar is replaced by the empty text,
/// and is no fault.
pub proof fn nothing_found_is_empty(expression: Seq<char>, context: JsonValue)
    requires
        !refused(path_of(expression), context),
        path_query(path_of(expression), context) matches Ok(values) && scalar_texts(values).len()
            == 0,
    ensures
        resolved(expression, context) == Ok::<Seq<char>, ExpressionFault>(Seq::empty()),
        piece_text(Piece::Expression(expression), context) == Seq::<char>::empty(),
        piece_fault(Piece::Expression(expression), context) is None,
{
}

/// A template none of whose expressions has a fault is rendered: as the
/// texts of its pieces, one after the other.
pub proof fn faultless_is_rendered(t: Seq<char>, context: JsonValue)
    requires
        forall|i: int|
            0 <= i < pieces(t, 0).len() ==> piece_fault(#[trigger] pieces(t, 0)[i], context)
                is None,
    ensures
        rendering(t, context) == Ok::<Seq<char>, TemplateFault>(output(pieces(t, 0), context)),
{
    no_fault_no_faults(pieces(t, 0), context);
}

/// An expression whose path finds two scalars or more has no value, and a
/// template in which such an expression stands has no rendering: the result
/// is an error, which holds no text.
pub proof fn ambiguity_fails(t: Seq<char>, context: JsonValue, at: int)
    requires
        0 <= at < pieces(t, 0).len(),
        pieces(t, 0)[at] matches Piece::Expression(expression) && (path_query(
            path_of(expression),
            context,
        ) matches Ok(values) && scalar_texts(values).len() >= 2),
    ensures
        pieces(t, 0)[at] matches Piece::Expression(expression) && resolved(expression, context)
            is Err && (!refused(path_of(expression), context) ==> resolved(expression, context)
            matches Err(ExpressionFault::Ambiguous(_))),
        rendering(t, context) is Err,
{
    fault_is_among_faults(pieces(t, 0), context, at);
}

/// Taking the next piece of a template from the pieces that are still to
/// come and putting it behind those that are done leaves the whole as it was.
proof fn next_piece(t: Seq<char>, from: int, done: Seq<Piece>, piece: Piece, next: int)
    requires
        0 <= from < t.len(),
        piece_at(t, from) == (piece, next),
    ensures
        done + pieces(t, from) == done.push(piece) + pieces(t, next),
{
}

/// One more piece adds its text to the output and its fault, if it has one,
/// to the faults.
proof fn one_more_piece(parts: Seq<Piece>, piece: Piece, context: JsonValue)
    ensures
        output(parts.push(piece), context) == output(parts, context) + piece_text(piece, context),
        faults(parts.push(piece), context) == match piece_fault(piece, context) {
            Some(fault) => faults(parts, context).push(fault),
            None => faults(parts, context),
        },
{
    assert(parts.push(piece).drop_last() == parts);
}

/// Finds where the text of the expression ends that is written in `chars` at
/// `at`, if one is written there.
pub fn find_expression(chars: &Vec<char>, at: usize) -> (end: Option<usize>)
    requires
        at < chars.len(),
    ensures
        match end {
            Some(end) => expression_at(chars@, at as int) == Some(end as int) && at + 3 <= end
                && end + 2 <= chars.len(),
            None => expression_at(chars@, at as int) is None,
        },
{
    let n = chars.len();
    if n - at < 3 || chars[at] != '$' || chars[at + 1] != '{' || chars[at + 2] != '{' {
        return None;
    }
    let mut j: usize = at + 3;
    while j < n
        invariant
            n == chars.len(),
            at + 3 <= j <= n,
            opens_at(chars@, at as int),
            closing(chars@, at + 3) == closing(chars@, j as int),
        decreases n - j,
    {
        if chars[j] == '}' && n - j >= 2 && chars[j + 1] == '}' {
            return Some(j);
        }
        if chars[j] == '\n' {
            return None;
        }
        j += 1;
    }
    None
}

/// Renders the template `text` in `context`: each expression `${{ .. }}` is
/// replaced by the value that its path has in `context`. Every expression is
/// evaluated, also after one of them has failed, so that the error tells of
/// all that have no value.
pub fn eval(text: &str, context: &Json) -> (rendered: Result<String, TemplateError>)
    ensures
        rendered_view(rendered) == rendering(text@, context@),
{
    let chars = chars_of(text);
    let n = chars.len();
    let mut out = String::new();
    let mut errors: Vec<ExpressionError> = Vec::new();
    let mut i: usize = 0;
    let mut done: Ghost<Seq<Piece>> = Ghost(Seq::empty());
    while i < n
        invariant
            n == chars.len(),
            chars@ == text@,
            i <= n,
            pieces(text@, 0) == done@ + pieces(text@, i as int),
            out@ == output(done@, context@),
            faults_view(errors@) == faults(done@, context@),
        decreases n - i,
    {
        match find_expression(&chars, i) {
            Some(end) => {
                let expression = text_of(&chars, i + 3, end);
                let ghost piece = Piece::Expression(text@.subrange(i + 3, end as int));
                proof {
                    next_piece(text@, i as int, done@, piece, end + 2);
                    one_more_piece(done@, piece, context@);
                }
                done = Ghost(done@.push(piece));
                match lookup(expression.as_str(), context) {
                    Ok(value) => {
                        out.append(value.as_str());
                    },
                    Err(error) => {
                        errors.push(error);
                    },
                }
                i = end + 2;
            },
            None => {
                let ghost piece = Piece::Literal(text@.subrange(i as int, i + 1));
                proof {
                    next_piece(text@, i as int, done@, piece, i + 1);
                    one_more_piece(done@, piece, context@);
                }
                done = Ghost(done@.push(piece));
                out.push(chars[i]);
                i += 1;
            },
        }
    }
    if errors.len() == 0 {
        Ok(out)
    } else if errors.len() == 1 {
        let error = errors.pop().unwrap();
        Err(TemplateError::Single(error))
    } else {
        Err(TemplateError::Multiple(errors))
    }
}

} // verus!
