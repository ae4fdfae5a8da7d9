use rodbot::config::{Config, IfIssueComment, On, OnCommon, OnIssue, OnIssueComment, Step};
use rodbot::event::{
    AuthorAssociation, Comment, CommonEvent, Event, EventError, EventKind, Issue,
    IssueCommentEvent, Sender, User,
};
use rodbot::json::Json;
use rodbot::runner::{Action, Context, Invocation, Outcome, Run, RunError, Runner};
use rodbot::template::{ExpressionError, TemplateError};

fn owner_says(body: &str) -> Event {
    Event::IssueComment(IssueCommentEvent {
        common: CommonEvent {
            action: "created".to_string(),
            sender: Sender { login: "alice".to_string() },
        },
        comment: Comment {
            author_association: AuthorAssociation::Owner,
            body: body.to_string(),
            id: 7,
            user: User { login: "alice".to_string() },
        },
        issue: Issue {
            author_association: AuthorAssociation::Contributor,
            body: Some("text".to_string()),
            comments: 3,
            id: 8,
            labels: vec![],
            locked: false,
            number: 42,
            pull_request: None,
            url: "https://example.org/issues/42".to_string(),
        },
    })
}

fn raw_payload() -> Json {
    Json::Object(vec![(
        "github".to_string(),
        Json::Object(vec![(
            "event".to_string(),
            Json::Object(vec![
                ("action".to_string(), Json::Text("created".to_string())),
                (
                    "issue".to_string(),
                    Json::Object(vec![
                        ("number".to_string(), Json::Number("42".to_string())),
                        (
                            "labels".to_string(),
                            Json::Array(vec![
                                Json::Object(vec![(
                                    "name".to_string(),
                                    Json::Text("bug".to_string()),
                                )]),
                                Json::Object(vec![(
                                    "name".to_string(),
                                    Json::Text("ci".to_string()),
                                )]),
                            ]),
                        ),
                    ]),
                ),
            ]),
        )]),
    )])
}

fn block(conditions: Vec<IfIssueComment>, commands: Vec<&str>) -> OnIssueComment {
    OnIssueComment {
        common: OnCommon {
            steps: commands.into_iter().map(|command| Step::Run(command.to_string())).collect(),
        },
        conditions,
    }
}

fn rules(blocks: Option<Vec<OnIssueComment>>) -> Config {
    Config { on: On { issue: None, issue_comment: blocks } }
}

fn test_rule() -> Vec<IfIssueComment> {
    vec![
        IfIssueComment::Command("test".to_string()),
        IfIssueComment::UserIs(vec![AuthorAssociation::Owner, AuthorAssociation::Member]),
    ]
}

fn shell(command: &str) -> Invocation {
    Invocation {
        program: "bash".to_string(),
        arguments: vec![
            "--noprofile".to_string(),
            "--norc".to_string(),
            "-e".to_string(),
            "-o".to_string(),
            "pipefail".to_string(),
            "-c".to_string(),
            command.to_string(),
        ],
    }
}

/// Runs to the end, with every command succeeding, and gives the command
/// lines that were handed out and how the run ended.
fn play(config: &Config, event: &Event, context: &Json) -> (Vec<String>, Result<(), RunError>) {
    let mut lines = vec![];
    let mut action = Run::begin(config, &Context { payload: event, context });
    loop {
        match action {
            Action::Execute(invocation, run) => {
                assert_eq!(run.position, lines.len());
                lines.push(invocation.arguments[6].clone());
                action = run.resume(Outcome::Succeeded);
            }
            Action::Finish => return (lines, Ok(())),
            Action::Abort(error) => return (lines, Err(error)),
        }
    }
}

#[test]
fn a_matching_comment_runs_the_step() {
    assert_eq!(EventKind::from_name(Some("issue_comment")), Ok(EventKind::IssueComment));
    let config = rules(Some(vec![block(
        test_rule(),
        vec!["echo ${{ github.event.issue.number }}"],
    )]));
    let event = owner_says("/test\n");
    let context = raw_payload();
    match Run::begin(&config, &Context { payload: &event, context: &context }) {
        Action::Execute(invocation, run) => {
            assert_eq!(invocation, shell("echo 42"));
            assert_eq!(run.position, 0);
            assert_eq!(
                run.steps,
                vec![&Step::Run("echo ${{ github.event.issue.number }}".to_string())]
            );
            assert_eq!(run.resume(Outcome::Succeeded), Action::Finish);
        }
        other => panic!("{:?}", other),
    }
}

#[test]
fn an_unsupported_kind_is_refused() {
    assert_eq!(
        EventKind::from_name(Some("push")),
        Err(EventError::UnsupportedKind("push".to_string()))
    );
    assert_eq!(
        EventKind::from_name(Some("issue_comments")),
        Err(EventError::UnsupportedKind("issue_comments".to_string()))
    );
    assert_eq!(
        EventKind::from_name(Some("")),
        Err(EventError::UnsupportedKind("".to_string()))
    );
}

#[test]
fn a_missing_kind_is_refused() {
    assert_eq!(EventKind::from_name(None), Err(EventError::MissingKind));
}

#[test]
fn a_failed_command_ends_the_run() {
    let config = rules(Some(vec![
        block(test_rule(), vec!["false", "echo second"]),
        block(test_rule(), vec!["echo other block"]),
    ]));
    let event = owner_says("/test\n");
    let context = raw_payload();
    match Run::begin(&config, &Context { payload: &event, context: &context }) {
        Action::Execute(invocation, run) => {
            assert_eq!(invocation, shell("false"));
            assert_eq!(run.steps.len(), 3);
            assert_eq!(run.resume(Outcome::Failed), Action::Abort(RunError::StepExecution(0)));
        }
        other => panic!("{:?}", other),
    }
}

#[test]
fn a_failure_tells_which_step_failed() {
    let config = rules(Some(vec![
        block(test_rule(), vec!["echo 1", "echo 2"]),
        block(test_rule(), vec!["false", "echo 4"]),
    ]));
    let event = owner_says("/test\n");
    let context = raw_payload();
    let mut action = Run::begin(&config, &Context { payload: &event, context: &context });
    let mut lines = vec![];
    loop {
        match action {
            Action::Execute(invocation, run) => {
                lines.push(invocation.arguments[6].clone());
                action = run.resume(if lines.len() == 3 {
                    Outcome::Failed
                } else {
                    Outcome::Succeeded
                });
            }
            other => {
                assert_eq!(other, Action::Abort(RunError::StepExecution(2)));
                break;
            }
        }
    }
    assert_eq!(lines, vec!["echo 1", "echo 2", "false"]);
}

#[test]
fn a_run_that_is_made_by_hand_is_resumed_too() {
    let context = raw_payload();
    let first = Step::Run("echo 1".to_string());
    let second = Step::Run("echo 2".to_string());
    let steps = vec![&first, &second];
    match (Run { steps: steps.clone(), context: &context, position: 0 }).resume(Outcome::Succeeded) {
        Action::Execute(invocation, run) => {
            assert_eq!(invocation, shell("echo 2"));
            assert_eq!(run.position, 1);
        }
        other => panic!("{:?}", other),
    }
    assert_eq!(
        (Run { steps: steps.clone(), context: &context, position: 1 }).resume(Outcome::Succeeded),
        Action::Finish
    );
    assert_eq!(
        (Run { steps: steps.clone(), context: &context, position: usize::MAX })
            .resume(Outcome::Succeeded),
        Action::Finish
    );
    assert_eq!(
        (Run { steps: vec![], context: &context, position: 0 }).resume(Outcome::Succeeded),
        Action::Finish
    );
    assert_eq!(
        (Run { steps, context: &context, position: 7 }).resume(Outcome::Failed),
        Action::Abort(RunError::StepExecution(7))
    );
}

#[test]
fn steps_run_in_order_over_all_matching_blocks() {
    let config = rules(Some(vec![
        block(test_rule(), vec!["echo 1", "echo 2"]),
        block(vec![IfIssueComment::IsPr], vec!["echo never"]),
        block(vec![], vec!["echo never either"]),
        block(vec![IfIssueComment::Command("te".to_string())], vec![]),
        block(
            vec![IfIssueComment::UserIn(vec!["alice".to_string()])],
            vec!["echo ${{ github.event.action }}"],
        ),
    ]));
    assert_eq!(
        play(&config, &owner_says("/test\n"), &raw_payload()),
        (
            vec!["echo 1".to_string(), "echo 2".to_string(), "echo created".to_string()],
            Ok(())
        )
    );
}

#[test]
fn a_comment_that_does_not_match_runs_nothing() {
    let config = rules(Some(vec![block(test_rule(), vec!["echo 1"])]));
    assert_eq!(play(&config, &owner_says("hello /test"), &raw_payload()), (vec![], Ok(())));
}

#[test]
fn a_block_without_conditions_never_runs() {
    let config = rules(Some(vec![block(vec![], vec!["echo 1"])]));
    assert_eq!(play(&config, &owner_says("/test"), &raw_payload()), (vec![], Ok(())));
}

#[test]
fn no_blocks_for_the_kind_runs_nothing() {
    assert_eq!(play(&rules(None), &owner_says("/test"), &raw_payload()), (vec![], Ok(())));
    assert_eq!(play(&rules(Some(vec![])), &owner_says("/test"), &raw_payload()), (vec![], Ok(())));
    let only_issues = Config {
        on: On {
            issue: Some(vec![OnIssue {
                common: OnCommon { steps: vec![Step::Run("echo issue".to_string())] },
            }]),
            issue_comment: None,
        },
    };
    assert_eq!(play(&only_issues, &owner_says("/test"), &raw_payload()), (vec![], Ok(())));
}

#[test]
fn a_template_error_ends_the_run_where_it_is_met() {
    let config = rules(Some(vec![block(
        test_rule(),
        vec!["echo 1", "echo ${{ github.event.issue.labels.*.name }}", "echo 3"],
    )]));
    assert_eq!(
        play(&config, &owner_says("/test"), &raw_payload()),
        (
            vec!["echo 1".to_string()],
            Err(RunError::Template(
                1,
                TemplateError::Single(ExpressionError::Ambiguous(vec![
                    "bug".to_string(),
                    "ci".to_string()
                ]))
            ))
        )
    );
}

#[test]
fn a_context_that_is_no_object_counts_as_empty() {
    let config = rules(Some(vec![block(test_rule(), vec!["echo [${{ * }}]"])]));
    let list = Json::Array(vec![Json::Text("a".to_string())]);
    assert_eq!(
        play(&config, &owner_says("/test"), &list),
        (vec!["echo []".to_string()], Ok(()))
    );
    let one = Json::Object(vec![("k".to_string(), Json::Text("a".to_string()))]);
    assert_eq!(
        play(&config, &owner_says("/test"), &one),
        (vec!["echo [a]".to_string()], Ok(()))
    );
    assert_eq!(
        Step::Run("${{ * }}".to_string()).command(&Json::Text("a".to_string())),
        Ok("".to_string())
    );
}

#[test]
fn the_shell_is_started_in_strict_mode() {
    let invocation = Invocation::shell("echo hi | cat".to_string());
    assert_eq!(invocation.program, "bash");
    assert_eq!(
        invocation.arguments,
        vec!["--noprofile", "--norc", "-e", "-o", "pipefail", "-c", "echo hi | cat"]
    );
}

#[test]
fn the_script_of_a_rule_file_lists_its_steps() {
    let config = rules(Some(vec![
        block(test_rule(), vec!["a", "b"]),
        block(vec![IfIssueComment::Not(Box::new(IfIssueComment::IsPr))], vec!["c"]),
    ]));
    let event = owner_says("/test");
    let context = raw_payload();
    let steps = config.run(&Context { payload: &event, context: &context });
    assert_eq!(
        steps,
        vec![
            &Step::Run("a".to_string()),
            &Step::Run("b".to_string()),
            &Step::Run("c".to_string())
        ]
    );
    let step = Step::Run("x".to_string());
    assert_eq!(step.run(&context), vec![&step]);
}
