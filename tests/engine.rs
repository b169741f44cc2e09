use truepositive_assistant::commands::{BotCommand, VoteForIssueParams};
use truepositive_assistant::models::{
    Bundle, BundleElement, CustomField, FieldType, Project, ProjectCustomField, ProjectId,
};
use truepositive_assistant::params::BacklogParams;
use truepositive_assistant::states::{BacklogPage, CreateNewIssue, Save, StartBacklog, StopBacklog};
use truepositive_assistant::states::{
    lookup_needed, transition, Idle, InBacklog, Intent, IssueStream, IssueType, Lookup, LookupKind,
    NewIssue, NewIssueSummary, NewIssueSummaryProject, NewIssueSummaryProjectStream,
    NewIssueSummaryProjectStreamType, NewIssueSummaryProjectStreamTypeDesc, UserState,
};

fn field(id: &str, name: &str, bundle: &str) -> ProjectCustomField {
    ProjectCustomField {
        id: id.to_string(),
        field: CustomField {
            id: format!("cf-{}", id),
            name: name.to_string(),
            field_type: FieldType { id: "enum[1]".to_string() },
        },
        ordinal: 0,
        can_be_emtpy: false,
        bundle: Some(Bundle { id: bundle.to_string(), values: None }),
    }
}

fn project(id: &str, name: &str) -> Project {
    Project {
        id: id.to_string(),
        name: Some(name.to_string()),
        short_name: Some(name.to_uppercase()),
        fields: vec![field("f-stream", "Stream", "b-stream"), field("f-type", "Type", "b-type")],
    }
}

fn options(names: &[&str]) -> Bundle {
    Bundle {
        id: "b".to_string(),
        values: Some(
            names
                .iter()
                .map(|n| BundleElement { id: format!("e-{}", n), name: n.to_string() })
                .collect(),
        ),
    }
}

fn text(s: &str) -> BotCommand {
    BotCommand::Text(s.to_string())
}

#[test]
fn idle_backlog_opens_first_page() {
    let t = transition(UserState::idle(), BotCommand::Backlog(BacklogParams::new(5)), Lookup::Nothing);
    assert_eq!(t.state, UserState::InBacklog(InBacklog { top: 5, skip: 0 }));
    assert_eq!(t.intents, vec![Intent::ShowBacklog(BacklogParams { top: 5, skip: 0 })]);
}

#[test]
fn backlog_next_then_stop() {
    let start = UserState::InBacklog(InBacklog { top: 5, skip: 0 });
    let next = BacklogParams::new_with_skip(5, 0).next();
    let t = transition(start, BotCommand::BacklogNext(next.clone()), Lookup::Nothing);
    assert_eq!(t.state, UserState::InBacklog(InBacklog { top: 5, skip: 5 }));
    assert_eq!(t.intents, vec![Intent::ShowBacklog(BacklogParams { top: 5, skip: 5 })]);
    let t = transition(t.state, BotCommand::BacklogStop, Lookup::Nothing);
    assert_eq!(t.state, UserState::Idle(Idle {}));
    assert_eq!(t.intents, vec![Intent::ClearKeyboard]);
}

#[test]
fn backlog_prev_moves_back() {
    let start = UserState::InBacklog(InBacklog { top: 5, skip: 10 });
    let prev = BacklogParams::new_with_skip(5, 10).prev().unwrap();
    let t = transition(start, BotCommand::BacklogPrev(prev), Lookup::Nothing);
    assert_eq!(t.state, UserState::InBacklog(InBacklog { top: 5, skip: 5 }));
}

#[test]
fn vote_toggles_and_rerenders_same_page() {
    let start = UserState::InBacklog(InBacklog { top: 5, skip: 10 });
    let cmd = BotCommand::BacklogVoteForIssue(VoteForIssueParams { id: "TP-7".to_string(), has_vote: true });
    let t = transition(start.clone(), cmd, Lookup::Nothing);
    assert_eq!(t.state, start);
    assert_eq!(
        t.intents,
        vec![
            Intent::Vote(VoteForIssueParams { id: "TP-7".to_string(), has_vote: false }),
            Intent::ShowBacklog(BacklogParams { top: 5, skip: 10 }),
        ]
    );
}

#[test]
fn idle_keywords() {
    let t = transition(UserState::idle(), BotCommand::Start, Lookup::Nothing);
    assert_eq!((t.state, t.intents), (UserState::idle(), vec![Intent::Greet]));
    let t = transition(UserState::idle(), BotCommand::Login, Lookup::Nothing);
    assert_eq!((t.state, t.intents), (UserState::idle(), vec![Intent::SendLoginLink]));
    let t = transition(UserState::idle(), BotCommand::NewIssue, Lookup::Nothing);
    assert_eq!((t.state, t.intents), (UserState::NewIssue(NewIssue {}), vec![Intent::PromptSummary]));
    let t = transition(UserState::idle(), text("hello"), Lookup::Nothing);
    assert_eq!((t.state, t.intents), (UserState::idle(), vec![]));
}

#[test]
fn other_commands_leave_backlog_unchanged() {
    let start = UserState::InBacklog(InBacklog { top: 5, skip: 5 });
    let t = transition(start.clone(), BotCommand::Stop, Lookup::Nothing);
    assert_eq!((t.state, t.intents), (start, vec![]));
}

#[test]
fn invalid_token_clears_keyboard() {
    let start = UserState::InBacklog(InBacklog { top: 5, skip: 5 });
    let t = transition(start.clone(), BotCommand::Invalid, Lookup::Nothing);
    assert_eq!((t.state, t.intents), (start, vec![Intent::ClearKeyboard]));
}

#[test]
fn error_sentinel_has_no_rule() {
    let t = transition(UserState::Error, BotCommand::Start, Lookup::Nothing);
    assert_eq!((t.state, t.intents), (UserState::Error, vec![]));
}

#[test]
fn new_issue_summary_then_project() {
    let t = transition(UserState::NewIssue(NewIssue {}), text("Fix bug"), Lookup::Nothing);
    assert_eq!(
        t.state,
        UserState::NewIssueSummary(NewIssueSummary { summary: "Fix bug".to_string() })
    );
    assert_eq!(t.intents, vec![Intent::PromptProject]);
    assert_eq!(lookup_needed(&t.state, &text("NoSuchProject")), LookupKind::Projects);

    let projects = vec![project("0-1", "Other"), project("0-2", "RealProject")];
    let s = t.state;
    let t = transition(s.clone(), text("NoSuchProject"), Lookup::Projects(projects.clone()));
    assert_eq!((t.state.clone(), t.intents), (s.clone(), vec![]));

    let t = transition(s, text("RealProject"), Lookup::Projects(projects));
    assert_eq!(
        t.state,
        UserState::NewIssueSummaryProject(NewIssueSummaryProject {
            summary: "Fix bug".to_string(),
            project: project("0-2", "RealProject"),
        })
    );
    assert_eq!(t.intents, vec![Intent::PromptStream]);
}

#[test]
fn duplicate_project_names_take_the_first() {
    let s = UserState::NewIssueSummary(NewIssueSummary { summary: "S".to_string() });
    let projects = vec![project("0-1", "Same"), project("0-2", "Same")];
    let t = transition(s, text("Same"), Lookup::Projects(projects));
    assert_eq!(
        t.state,
        UserState::NewIssueSummaryProject(NewIssueSummaryProject {
            summary: "S".to_string(),
            project: project("0-1", "Same"),
        })
    );
}

#[test]
fn stream_and_type_must_match_options() {
    let s = UserState::NewIssueSummaryProject(NewIssueSummaryProject {
        summary: "Fix bug".to_string(),
        project: project("0-2", "RealProject"),
    });
    assert_eq!(lookup_needed(&s, &text("Backend")), LookupKind::StreamOptions);
    let t = transition(s.clone(), text("Nope"), Lookup::Options(options(&["Backend", "Frontend"])));
    assert_eq!((t.state, t.intents), (s.clone(), vec![]));
    let t = transition(s, text("Backend"), Lookup::Options(options(&["Backend", "Frontend"])));
    let expected_stream = IssueStream("f-stream".to_string(), "Backend".to_string());
    assert_eq!(
        t.state,
        UserState::NewIssueSummaryProjectStream(NewIssueSummaryProjectStream {
            summary: "Fix bug".to_string(),
            project: project("0-2", "RealProject"),
            stream: expected_stream.clone(),
        })
    );
    assert_eq!(t.intents, vec![Intent::PromptType]);
    assert_eq!(lookup_needed(&t.state, &text("Bug")), LookupKind::TypeOptions);

    let t = transition(t.state, text("Bug"), Lookup::Options(options(&["Bug", "Feature"])));
    assert_eq!(
        t.state,
        UserState::NewIssueSummaryProjectStreamType(NewIssueSummaryProjectStreamType {
            summary: "Fix bug".to_string(),
            project: project("0-2", "RealProject"),
            stream: expected_stream,
            issue_type: IssueType("f-type".to_string(), "Bug".to_string()),
        })
    );
    assert_eq!(t.intents, vec![Intent::PromptDescription]);

    let t = transition(t.state, text("It crashes"), Lookup::Nothing);
    match &t.state {
        UserState::NewIssueSummaryProjectStreamTypeDesc(d) => assert_eq!(d.desc, "It crashes"),
        other => panic!("unexpected state {:?}", other),
    }
    assert_eq!(t.intents, vec![Intent::ConfirmDraft]);
}

#[test]
fn missing_lookup_leaves_draft_unchanged() {
    let s = UserState::NewIssueSummary(NewIssueSummary { summary: "x".to_string() });
    let t = transition(s.clone(), text("RealProject"), Lookup::Nothing);
    assert_eq!((t.state, t.intents), (s, vec![]));
}

fn full_draft() -> NewIssueSummaryProjectStreamTypeDesc {
    NewIssueSummaryProjectStreamTypeDesc {
        summary: "Fix bug".to_string(),
        project: project("0-2", "RealProject"),
        stream: IssueStream("f-stream".to_string(), "Backend".to_string()),
        issue_type: IssueType("f-type".to_string(), "Bug".to_string()),
        desc: "It crashes".to_string(),
    }
}

#[test]
fn save_emits_one_create_issue() {
    let s = UserState::NewIssueSummaryProjectStreamTypeDesc(full_draft());
    let t = transition(s, BotCommand::Save, Lookup::Nothing);
    assert_eq!(t.state, UserState::Idle(Idle {}));
    assert_eq!(t.intents.len(), 1);
    match &t.intents[0] {
        Intent::CreateIssue(d) => {
            assert_eq!(d, &full_draft());
            let draft = d.to_draft();
            assert_eq!(draft.summary, "Fix bug");
            assert_eq!(draft.description, "It crashes");
            assert_eq!(draft.project, Some(ProjectId { id: "0-2".to_string() }));
            assert_eq!(draft.custom_fields.len(), 2);
            assert_eq!(draft.custom_fields[0].id, "f-stream");
            assert_eq!(draft.custom_fields[0].name, "Stream");
            assert_eq!(draft.custom_fields[0].value.name, "Backend");
            assert_eq!(draft.custom_fields[0].type_, "SingleEnumIssueCustomField");
            assert_eq!(draft.custom_fields[1].id, "f-type");
            assert_eq!(draft.custom_fields[1].name, "Type");
            assert_eq!(draft.custom_fields[1].value.name, "Bug");
            assert_eq!(draft.custom_fields[1].type_, "SingleEnumIssueCustomField");
        }
        other => panic!("unexpected intent {:?}", other),
    }
}

#[test]
fn cancel_from_any_draft_step() {
    let states = vec![
        UserState::NewIssue(NewIssue {}),
        UserState::NewIssueSummary(NewIssueSummary { summary: "x".to_string() }),
        UserState::NewIssueSummaryProjectStreamTypeDesc(full_draft()),
    ];
    for s in states {
        let t = transition(s, BotCommand::Cancel, Lookup::Nothing);
        assert_eq!((t.state, t.intents), (UserState::idle(), vec![Intent::AcknowledgeCancel]));
    }
}

#[test]
fn save_before_description_is_ignored() {
    let s = UserState::NewIssueSummary(NewIssueSummary { summary: "x".to_string() });
    let t = transition(s.clone(), BotCommand::Save, Lookup::Nothing);
    assert_eq!((t.state, t.intents), (s, vec![]));
}

#[test]
fn every_state_command_pair_has_an_outcome() {
    let states = vec![
        UserState::idle(),
        UserState::InBacklog(InBacklog { top: 5, skip: 0 }),
        UserState::NewIssue(NewIssue {}),
        UserState::NewIssueSummary(NewIssueSummary { summary: "x".to_string() }),
        UserState::NewIssueSummaryProjectStreamTypeDesc(full_draft()),
    ];
    let commands = vec![
        BotCommand::Start,
        BotCommand::Backlog(BacklogParams::new(5)),
        BotCommand::Login,
        BotCommand::Stop,
        text("x"),
        BotCommand::NewIssue,
        BotCommand::BacklogStop,
        BotCommand::BacklogNext(BacklogParams::new_with_skip(5, 5)),
        BotCommand::BacklogPrev(BacklogParams::new_with_skip(5, 0)),
        BotCommand::Save,
        BotCommand::Cancel,
        BotCommand::Invalid,
    ];
    for s in &states {
        for c in &commands {
            let t = transition(s.clone(), c.clone(), Lookup::Nothing);
            assert_ne!(t.state, UserState::Error);
        }
    }
}

#[test]
fn state_handlers() {
    let idle = Idle {};
    assert_eq!(
        idle.on_start_backlog(StartBacklog(BacklogParams::new(5))),
        InBacklog { top: 5, skip: 0 }
    );
    assert_eq!(idle.on_create_new_issue(CreateNewIssue), NewIssue {});
    let b = InBacklog { top: 5, skip: 0 };
    assert_eq!(b.on_stop_backlog(StopBacklog), Idle {});
    assert_eq!(
        b.on_backlog_page(BacklogPage(BacklogParams::new_with_skip(5, 15))),
        InBacklog { top: 5, skip: 15 }
    );
    assert_eq!(full_draft().on_save(Save), Idle {});
}
