use truepositive_assistant::auth::CsrfTable;
use truepositive_assistant::keyboard::{
    backlog_keyboard, button_label, callback_button, markdown_escape, rows_of_three,
};
use truepositive_assistant::commands::{CallbackParams, VoteForIssueParams};
use truepositive_assistant::models::{
    sort_projects_by_name, Bundle, BundleElement, CustomField, FieldType, Issue, IssueDraft, IssueDraftCustomField,
    IssueDraftCustomFieldValue, IssueVoters, Project, ProjectCustomField, ProjectId,
};
use truepositive_assistant::params::BacklogParams;
use truepositive_assistant::query::backlog_query_param;
use truepositive_assistant::session::{commit, state_from_record, state_key, SessionStore, StoredRecord};
use truepositive_assistant::states::{InBacklog, Intent, Transition, UserState};

#[test]
fn first_page_has_no_prev() {
    for top in [1, 5, i32::MAX] {
        assert_eq!(BacklogParams::new(top).prev(), None);
    }
}

#[test]
fn next_then_prev_is_identity() {
    for p in [BacklogParams::new_with_skip(5, 0), BacklogParams::new_with_skip(5, 35), BacklogParams::new_with_skip(-3, 7)] {
        assert_eq!(p.next().prev(), Some(p.clone()));
    }
    assert_eq!(BacklogParams::new_with_skip(5, 10).next(), BacklogParams { top: 5, skip: 15 });
    assert_eq!(BacklogParams::new_with_skip(5, 3).prev(), None);
}

#[test]
fn bundle_has_value() {
    let b = Bundle {
        id: "b".to_string(),
        values: Some(vec![
            BundleElement { id: "1".to_string(), name: "Backend".to_string() },
            BundleElement { id: "2".to_string(), name: "Frontend".to_string() },
        ]),
    };
    assert!(b.has_value("Frontend"));
    assert!(!b.has_value("frontend"));
    assert!(!Bundle { id: "b".to_string(), values: None }.has_value("Frontend"));
}

fn pcf(id: &str, name: &str) -> ProjectCustomField {
    ProjectCustomField {
        id: id.to_string(),
        field: CustomField { id: "c".to_string(), name: name.to_string(), field_type: FieldType { id: "t".to_string() } },
        ordinal: 1,
        can_be_emtpy: true,
        bundle: None,
    }
}

#[test]
fn custom_field_lookup_takes_first_match() {
    let p = Project {
        id: "0-1".to_string(),
        name: None,
        short_name: None,
        fields: vec![pcf("a", "Type"), pcf("b", "Stream"), pcf("c", "Stream")],
    };
    assert_eq!(p.get_project_custom_field("Stream").map(|f| f.id.clone()), Some("b".to_string()));
    assert_eq!(p.get_project_custom_field("Priority"), None);
}

#[test]
fn draft_builders() {
    let mut d = IssueDraft::new();
    assert_eq!(d.summary, "");
    assert!(d.project.is_none());
    d.summary("S".to_string()).desc("D".to_string()).project(ProjectId { id: "0-1".to_string() });
    d.custom_field("f".to_string(), "Stream".to_string(), "Backend".to_string());
    assert_eq!(d.summary, "S");
    assert_eq!(d.description, "D");
    assert_eq!(d.project, Some(ProjectId { id: "0-1".to_string() }));
    assert_eq!(
        d.custom_fields,
        vec![IssueDraftCustomField {
            value: IssueDraftCustomFieldValue::new("Backend".to_string()),
            name: "Stream".to_string(),
            id: "f".to_string(),
            type_: "SingleEnumIssueCustomField".to_string(),
        }]
    );
    assert_eq!(IssueDraftCustomField::new("i".to_string(), "n".to_string(), "v".to_string()).value.name, "v");
}

fn issue(id: &str, voted: bool) -> Issue {
    Issue { id_readable: id.to_string(), summary: "s".to_string(), votes: 1, voters: IssueVoters { has_vote: voted } }
}

fn v(id: &str, has_vote: bool) -> CallbackParams {
    CallbackParams::VoteForIssue(VoteForIssueParams { id: id.to_string(), has_vote })
}

#[test]
fn backlog_keyboard_layout() {
    let issues = vec![issue("A-1", false), issue("A-2", true), issue("A-3", false), issue("A-4", false)];
    let kb = backlog_keyboard(&issues, &BacklogParams::new_with_skip(4, 4));
    assert_eq!(
        kb,
        vec![
            vec![v("A-1", false), v("A-2", true), v("A-3", false)],
            vec![v("A-4", false)],
            vec![
                CallbackParams::BacklogStop,
                CallbackParams::BacklogPrev(BacklogParams { top: 4, skip: 0 }),
                CallbackParams::BacklogNext(BacklogParams { top: 4, skip: 8 }),
            ],
        ]
    );
    let kb = backlog_keyboard(&vec![issue("A-1", false)], &BacklogParams::new(4));
    assert_eq!(kb[1], vec![CallbackParams::BacklogStop, CallbackParams::BacklogNext(BacklogParams { top: 4, skip: 4 })]);
}

#[test]
fn empty_backlog_page_offers_way_back() {
    let kb = backlog_keyboard(&vec![], &BacklogParams::new_with_skip(5, 10));
    assert_eq!(
        kb,
        vec![vec![CallbackParams::BacklogStop, CallbackParams::BacklogPrev(BacklogParams { top: 5, skip: 0 })]]
    );
    let kb = backlog_keyboard(&vec![], &BacklogParams::new_with_skip(5, 5));
    assert_eq!(kb, vec![vec![CallbackParams::BacklogStop]]);
    let kb = backlog_keyboard(&vec![], &BacklogParams::new(5));
    assert_eq!(kb, vec![Vec::<CallbackParams>::new()]);
}

#[test]
fn reply_rows() {
    let rows = rows_of_three(vec!["a", "b", "c", "d", "e", "f", "g"]);
    assert_eq!(rows, vec![vec!["a", "b", "c"], vec!["d", "e", "f"], vec!["g"]]);
    assert_eq!(rows_of_three(Vec::<u8>::new()), Vec::<Vec<u8>>::new());
}

#[test]
fn labels() {
    assert_eq!(button_label(&CallbackParams::BacklogStop), "stop");
    assert_eq!(button_label(&CallbackParams::BacklogNext(BacklogParams::new(5))), "next");
    assert_eq!(button_label(&CallbackParams::BacklogPrev(BacklogParams::new(5))), "prev");
    assert_eq!(button_label(&v("A-1", false)), "A-1");
    assert_eq!(button_label(&v("A-1", true)), "\u{1F31F} A-1");
    assert_eq!(
        callback_button(&v("A-1", true)),
        Ok(("\u{1F31F} A-1".to_string(), r#"{"_t":"vi","i":"A-1","v":true}"#.to_string()))
    );
    assert_eq!(
        callback_button(&CallbackParams::BacklogStop),
        Ok(("stop".to_string(), r#"{"_t":"bs"}"#.to_string()))
    );
    assert_eq!(
        callback_button(&CallbackParams::BacklogNext(BacklogParams::new_with_skip(5, 5))),
        Ok(("next".to_string(), r#"{"_t":"bn","t":5,"s":5}"#.to_string()))
    );
}

#[test]
fn markdown_is_escaped() {
    assert_eq!(markdown_escape("a_b*c`d[e]f\\"), "a\\_b\\*c\\`d\\[e]f\\");
    assert_eq!(markdown_escape(""), "");
}

#[test]
fn backlog_query_is_form_encoded() {
    assert_eq!(backlog_query_param("#Unresolved sort by: votes"), "%23Unresolved+sort+by%3A+votes");
    assert_eq!(backlog_query_param("a-b_c.d*"), "a-b_c.d*");
    assert_eq!(backlog_query_param("\u{e9}"), "%C3%A9");
}

#[test]
fn session_store_defaults_to_idle() {
    let mut store = SessionStore::new();
    assert_eq!(store.get(1), None);
    assert_eq!(store.take(1), UserState::idle());
    store.set(1, UserState::InBacklog(InBacklog { top: 5, skip: 5 }));
    store.set(2, UserState::idle());
    assert_eq!(store.get(1), Some(&UserState::InBacklog(InBacklog { top: 5, skip: 5 })));
    assert_eq!(store.get(1), Some(&UserState::InBacklog(InBacklog { top: 5, skip: 5 })));
    assert_eq!(store.take(1), UserState::InBacklog(InBacklog { top: 5, skip: 5 }));
    assert_eq!(store.take(1), UserState::idle());
}

#[test]
fn failed_execution_keeps_prior_state() {
    let prior = UserState::idle();
    let next = UserState::InBacklog(InBacklog { top: 5, skip: 0 });
    let t = Transition { state: next.clone(), intents: vec![Intent::ShowBacklog(BacklogParams::new(5))] };
    assert_eq!(commit(prior.clone(), t.clone(), true), next);
    assert_eq!(commit(prior.clone(), t, false), prior);
    let t = Transition { state: UserState::Error, intents: vec![] };
    assert_eq!(commit(prior.clone(), t, true), prior);
}

#[test]
fn stored_records() {
    assert_eq!(state_from_record(StoredRecord::Absent), UserState::idle());
    assert_eq!(state_from_record(StoredRecord::Corrupt), UserState::idle());
    assert_eq!(state_from_record(StoredRecord::Present(UserState::Error)), UserState::idle());
    let s = UserState::InBacklog(InBacklog { top: 5, skip: 10 });
    assert_eq!(state_from_record(StoredRecord::Present(s.clone())), s);
    assert_eq!(state_key(1234), "state:1234");
    assert_eq!(state_key(-5), "state:-5");
    assert_eq!(state_key(i64::MIN), "state:-9223372036854775808");
}

#[test]
fn csrf_table_is_bounded() {
    let mut t = CsrfTable::new(2);
    t.record("s1".to_string(), 1);
    t.record("s2".to_string(), 2);
    assert_eq!(t.resolve("s1"), Some(1));
    t.record("s3".to_string(), 3);
    assert_eq!(t.resolve("s1"), None);
    assert_eq!(t.resolve("s2"), Some(2));
    assert_eq!(t.resolve("s3"), Some(3));
    assert_eq!(t.resolve("nope"), None);
    t.record("s3".to_string(), 4);
    assert_eq!(t.resolve("s3"), Some(4));
}

fn named(id: &str, name: Option<&str>) -> Project {
    Project { id: id.to_string(), name: name.map(|n| n.to_string()), short_name: None, fields: vec![] }
}

#[test]
fn projects_sort_by_name() {
    let ps = vec![
        named("1", Some("b")),
        named("2", None),
        named("3", Some("a")),
        named("4", Some("ab")),
        named("5", Some("B")),
        named("6", Some("a")),
        named("7", Some("\u{e9}")),
        named("8", Some("z")),
    ];
    let sorted = sort_projects_by_name(ps.clone());
    let ids: Vec<&str> = sorted.iter().map(|p| p.id.as_str()).collect();
    assert_eq!(ids, vec!["2", "5", "3", "6", "4", "1", "8", "7"]);
    let mut expected = ps;
    expected.sort_by_key(|p| p.name.clone());
    assert_eq!(sorted, expected);
    assert_eq!(sort_projects_by_name(vec![]), Vec::<Project>::new());
}
