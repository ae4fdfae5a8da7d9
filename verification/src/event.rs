use crate::text::same_text;
use vstd::prelude::*;

verus! {

/// An event that came in from the repository.
#[derive(Clone, Debug, PartialEq, Eq)]
pub enum Event {
    IssueComment(IssueCommentEvent),
}

/// What all events carry.
#[derive(Clone, Debug, PartialEq, Eq)]
pub struct CommonEvent {
    pub action: String,
    pub sender: Sender,
}

/// A comment that was made on an issue or on a pull request.
#[derive(Clone, Debug, PartialEq, Eq)]
pub struct IssueCommentEvent {
    pub common: CommonEvent,
    pub comment: Comment,
    pub issue: Issue,
}

/// A comment, with its author and how the author stands to the repository.
#[derive(Clone, Debug, PartialEq, Eq)]
pub struct Comment {
    pub author_association: AuthorAssociation,
    pub body: String,
    pub id: u64,
    pub user: User,
}

/// The author of a comment.
#[derive(Clone, Debug, PartialEq, Eq)]
pub struct User {
    pub login: String,
}

/// The issue that a comment belongs to. It stands for a pull request exactly
/// when `pull_request` is there.
#[derive(Clone, Debug, PartialEq, Eq)]
pub struct Issue {
    pub author_association: AuthorAssociation,
    pub body: Option<String>,
    pub comments: u64,
    pub id: u64,
    pub labels: Vec<Label>,
    pub locked: bool,
    pub number: u64,
    pub pull_request: Option<PullRequest>,
    pub url: String,
}

/// A label of an issue.
#[derive(Clone, Debug, PartialEq, Eq)]
pub struct Label {
    pub color: String,
    pub default: bool,
    pub description: Option<String>,
    pub id: u64,
    pub name: String,
    pub node_id: String,
    pub url: String,
}

/// What marks an issue as a pull request.
#[derive(Clone, Debug, PartialEq, Eq)]
pub struct PullRequest {
    pub diff_url: String,
    pub html_url: String,
    pub patch_url: String,
    pub url: String,
}

/// How the author of an issue or of a comment stands to the repository.
#[derive(Clone, Copy, Debug, PartialEq, Eq, Structural)]
pub enum AuthorAssociation {
    Collaborator,
    Contributor,
    FirstTimer,
    FirstTimeContributor,
    Mannequin,
    Member,
    NoAssociation,
    Owner,
}

/// Who caused an event.
#[derive(Clone, Debug, PartialEq, Eq)]
pub struct Sender {
    pub login: String,
}

/// The kinds of event that rules can be written for.
#[derive(Clone, Copy, Debug, PartialEq, Eq, Structural)]
pub enum EventKind {
    IssueComment,
}

/// Why no event could be made of what came in.
#[derive(Clone, Debug, PartialEq, Eq)]
pub enum EventError {
    /// The source of the event gave no name for its kind.
    MissingKind,
    /// The source named a kind for which no rules can be written.
    UnsupportedKind(String),
}

/// The name under which the source announces a comment on an issue.
pub open spec fn issue_comment_name() -> Seq<char> {
    "issue_comment"@
}

impl EventKind {
    /// The kind that the source announced under `name`. It is `issue_comment`
    /// or an error: this comes before anything else is read or decided.
    pub fn from_name(name: Option<&str>) -> (kind: Result<EventKind, EventError>)
        ensures
            match name {
                None => kind == Err::<EventKind, EventError>(EventError::MissingKind),
                Some(given) => if given@ == issue_comment_name() {
                    kind == Ok::<EventKind, EventError>(EventKind::IssueComment)
                } else {
                    kind matches Err(EventError::UnsupportedKind(refused)) && refused@ == given@
                },
            },
    {
        match name {
            None => Err(EventError::MissingKind),
            Some(given) => {
                if same_text(given, "issue_comment") {
                    Ok(EventKind::IssueComment)
                } else {
                    Err(EventError::UnsupportedKind(given.to_owned()))
                }
            },
        }
    }
}

/// Whether `wanted` is one of `tiers`.
pub open spec fn tier_listed(tiers: Seq<AuthorAssociation>, wanted: AuthorAssociation) -> bool {
    exists|i: int| 0 <= i < tiers.len() && tiers[i] == wanted
}

/// Tells whether `wanted` occurs in `tiers`.
pub fn contains_tier(tiers: &Vec<AuthorAssociation>, wanted: AuthorAssociation) -> (found: bool)
    ensures
        found == tier_listed(tiers@, wanted),
{
    let mut i: usize = 0;
    while i < tiers.len()
        invariant
            i <= tiers.len(),
            forall|k: int| 0 <= k < i ==> tiers@[k] != wanted,
        decreases tiers.len() - i,
    {
        if tiers[i] == wanted {
            return true;
        }
        i += 1;
    }
    false
}

} // verus!
