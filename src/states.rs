//! The conversation states of a user, the messages that move between them, and the
//! transition engine: a pure function from state and command to next state and intents.
use vstd::prelude::*;

use crate::commands::{BotCommand, VoteForIssueParams};
use crate::models::{
    bundle_holds, first_field_named, single_enum_kind, Bundle, IssueDraft, Project, ProjectId,
};
use crate::params::BacklogParams;

verus! {

/// Opens the backlog at a page.
#[derive(Clone, Debug, PartialEq)]
pub struct StartBacklog(pub BacklogParams);

/// Moves the backlog to another page.
#[derive(Clone, Debug, PartialEq)]
pub struct BacklogPage(pub BacklogParams);

#[derive(Clone, Debug, PartialEq)]
pub struct StopBacklog;

#[derive(Clone, Debug, PartialEq)]
pub struct Save;

#[derive(Clone, Debug, PartialEq)]
pub struct Cancel;

#[derive(Clone, Debug, PartialEq)]
pub struct Noop;

#[derive(Clone, Debug, PartialEq)]
pub struct CreateNewIssue;

#[derive(Clone, Debug, PartialEq)]
pub struct IssueSummary(pub String);

#[derive(Clone, Debug, PartialEq)]
pub struct IssueSummaryProject(pub String, pub Project);

/// The stream of a new issue: the tracker id of the project's stream field, and the value.
#[derive(Clone, Debug, PartialEq)]
pub struct IssueStream(pub String, pub String);

/// The type of a new issue: the tracker id of the project's type field, and the value.
#[derive(Clone, Debug, PartialEq)]
pub struct IssueType(pub String, pub String);

#[derive(Clone, Debug, PartialEq)]
pub struct IssueSummaryProjectStream(pub String, pub Project, pub IssueStream);

#[derive(Clone, Debug, PartialEq)]
pub struct IssueSummaryProjectStreamType(pub String, pub Project, pub IssueStream, pub IssueType);

#[derive(Clone, Debug, PartialEq)]
pub struct IssueSummaryProjectStreamTypeDesc(
    pub String,
    pub Project,
    pub IssueStream,
    pub IssueType,
    pub String,
);

#[derive(Clone, Debug, PartialEq)]
pub struct Idle {}

/// Browsing the backlog, `top` issues per page, `skip` issues before the shown page.
#[derive(Clone, Debug, PartialEq)]
pub struct InBacklog {
    pub top: i32,
    pub skip: i32,
}

/// Creating an issue, waiting for its summary.
#[derive(Clone, Debug, PartialEq)]
pub struct NewIssue {}

/// Waiting for the project of the new issue.
#[derive(Clone, Debug, PartialEq)]
pub struct NewIssueSummary {
    pub summary: String,
}

/// Waiting for the stream of the new issue.
#[derive(Clone, Debug, PartialEq)]
pub struct NewIssueSummaryProject {
    pub summary: String,
    pub project: Project,
}

/// Waiting for the type of the new issue.
#[derive(Clone, Debug, PartialEq)]
pub struct NewIssueSummaryProjectStream {
    pub summary: String,
    pub project: Project,
    pub stream: IssueStream,
}

/// Waiting for the description of the new issue.
#[derive(Clone, Debug, PartialEq)]
pub struct NewIssueSummaryProjectStreamType {
    pub summary: String,
    pub project: Project,
    pub stream: IssueStream,
    pub issue_type: IssueType,
}

/// The draft is complete and waits to be saved or cancelled.
#[derive(Clone, Debug, PartialEq)]
pub struct NewIssueSummaryProjectStreamTypeDesc {
    pub summary: String,
    pub project: Project,
    pub stream: IssueStream,
    pub issue_type: IssueType,
    pub desc: String,
}

/// The conversation state of one user.
#[derive(Clone, Debug, PartialEq)]
pub enum UserState {
    Idle(Idle),
    InBacklog(InBacklog),
    NewIssue(NewIssue),
    NewIssueSummary(NewIssueSummary),
    NewIssueSummaryProject(NewIssueSummaryProject),
    NewIssueSummaryProjectStream(NewIssueSummaryProjectStream),
    NewIssueSummaryProjectStreamType(NewIssueSummaryProjectStreamType),
    NewIssueSummaryProjectStreamTypeDesc(NewIssueSummaryProjectStreamTypeDesc),
    /// The outcome of a command for which no rule exists; never stored.
    Error,
}

impl UserState {
    pub fn idle() -> (r: Self)
        ensures
            r == UserState::Idle(Idle {}),
    {
        UserState::Idle(Idle {})
    }
}

impl Idle {
    pub fn on_start_backlog(&self, m: StartBacklog) -> (r: InBacklog)
        ensures
            r == (InBacklog { top: m.0.top, skip: m.0.skip }),
    {
        let StartBacklog(p) = m;
        InBacklog { top: p.top, skip: p.skip }
    }

    pub fn on_create_new_issue(&self, m: CreateNewIssue) -> (r: NewIssue)
        ensures
            r == (NewIssue {}),
    {
        NewIssue {}
    }
}

impl InBacklog {
    pub fn on_stop_backlog(&self, m: StopBacklog) -> (r: Idle)
        ensures
            r == (Idle {}),
    {
        Idle {}
    }

    pub fn on_backlog_page(&self, p: BacklogPage) -> (r: InBacklog)
        ensures
            r == (InBacklog { top: p.0.top, skip: p.0.skip }),
    {
        let BacklogPage(p) = p;
        InBacklog { top: p.top, skip: p.skip }
    }
}

impl NewIssue {
    pub fn summary(self, summary: String) -> (r: IssueSummary)
        ensures
            r == IssueSummary(summary),
    {
        IssueSummary(summary)
    }

    pub fn on_issue_summary(&self, m: IssueSummary) -> (r: NewIssueSummary)
        ensures
            r == (NewIssueSummary { summary: m.0 }),
    {
        let IssueSummary(summary) = m;
        NewIssueSummary { summary }
    }
}

impl NewIssueSummary {
    pub fn project(self, project: Project) -> (r: IssueSummaryProject)
        ensures
            r == IssueSummaryProject(self.summary, project),
    {
        IssueSummaryProject(self.summary, project)
    }

    pub fn on_issue_summary_project(&self, m: IssueSummaryProject) -> (r: NewIssueSummaryProject)
        ensures
            r == (NewIssueSummaryProject { summary: m.0, project: m.1 }),
    {
        let IssueSummaryProject(summary, project) = m;
        NewIssueSummaryProject { summary, project }
    }
}

impl NewIssueSummaryProject {
    pub fn stream(self, stream: IssueStream) -> (r: IssueSummaryProjectStream)
        ensures
            r == IssueSummaryProjectStream(self.summary, self.project, stream),
    {
        IssueSummaryProjectStream(self.summary, self.project, stream)
    }

    pub fn on_issue_summary_project_stream(&self, m: IssueSummaryProjectStream) -> (r:
        NewIssueSummaryProjectStream)
        ensures
            r == (NewIssueSummaryProjectStream { summary: m.0, project: m.1, stream: m.2 }),
    {
        let IssueSummaryProjectStream(summary, project, stream) = m;
        NewIssueSummaryProjectStream { summary, project, stream }
    }
}

impl NewIssueSummaryProjectStream {
    pub fn issue_type(self, issue_type: IssueType) -> (r: IssueSummaryProjectStreamType)
        ensures
            r == IssueSummaryProjectStreamType(self.summary, self.project, self.stream, issue_type),
    {
        IssueSummaryProjectStreamType(self.summary, self.project, self.stream, issue_type)
    }

    pub fn on_issue_summary_project_stream_type(&self, m: IssueSummaryProjectStreamType) -> (r:
        NewIssueSummaryProjectStreamType)
        ensures
            r == (NewIssueSummaryProjectStreamType {
                summary: m.0,
                project: m.1,
                stream: m.2,
                issue_type: m.3,
            }),
    {
        let IssueSummaryProjectStreamType(summary, project, stream, issue_type) = m;
        NewIssueSummaryProjectStreamType { summary, project, stream, issue_type }
    }
}

impl NewIssueSummaryProjectStreamType {
    pub fn desc(self, desc: String) -> (r: IssueSummaryProjectStreamTypeDesc)
        ensures
            r == IssueSummaryProjectStreamTypeDesc(
                self.summary,
                self.project,
                self.stream,
                self.issue_type,
                desc,
            ),
    {
        IssueSummaryProjectStreamTypeDesc(
            self.summary,
            self.project,
            self.stream,
            self.issue_type,
            desc,
        )
    }

    pub fn on_issue_summary_project_stream_type_desc(&self, m: IssueSummaryProjectStreamTypeDesc) -> (r:
        NewIssueSummaryProjectStreamTypeDesc)
        ensures
            r == (NewIssueSummaryProjectStreamTypeDesc {
                summary: m.0,
                project: m.1,
                stream: m.2,
                issue_type: m.3,
                desc: m.4,
            }),
    {
        let IssueSummaryProjectStreamTypeDesc(summary, project, stream, issue_type, desc) = m;
        NewIssueSummaryProjectStreamTypeDesc { summary, project, stream, issue_type, desc }
    }
}

impl NewIssueSummaryProjectStreamTypeDesc {
    pub fn on_save(&self, m: Save) -> (r: Idle)
        ensures
            r == (Idle {}),
    {
        Idle {}
    }

    /// The issue to create: summary, description, project, and the stream and type fields.
    pub fn to_draft(&self) -> (r: IssueDraft)
        ensures
            r.summary == self.summary,
            r.description == self.desc,
            r.project == Some(ProjectId { id: self.project.id }),
            r.custom_fields@.len() == 2,
            r.custom_fields@[0].id == self.stream.0,
            r.custom_fields@[0].name@ == "Stream"@,
            r.custom_fields@[0].value.name == self.stream.1,
            r.custom_fields@[0].type_@ == single_enum_kind(),
            r.custom_fields@[1].id == self.issue_type.0,
            r.custom_fields@[1].name@ == "Type"@,
            r.custom_fields@[1].value.name == self.issue_type.1,
            r.custom_fields@[1].type_@ == single_enum_kind(),
    {
        let mut draft = IssueDraft::new();
        draft.summary(self.summary.clone()).desc(self.desc.clone()).project(
            ProjectId { id: self.project.id.clone() },
        ).custom_field(self.stream.0.clone(), "Stream".to_owned(), self.stream.1.clone()).custom_field(
            self.issue_type.0.clone(),
            "Type".to_owned(),
            self.issue_type.1.clone(),
        );
        draft
    }
}

/// A side effect that the engine asks for; the executor performs it.
#[derive(Clone, Debug, PartialEq)]
pub enum Intent {
    /// Fetch the backlog page and show it with its inline keyboard.
    ShowBacklog(BacklogParams),
    Greet,
    /// Send the link that starts the tracker login.
    SendLoginLink,
    PromptSummary,
    /// Remove the inline keyboard of the message that an action came from.
    ClearKeyboard,
    /// Set the user's vote on an issue to `has_vote`.
    Vote(VoteForIssueParams),
    /// Offer the projects, by name.
    PromptProject,
    /// Offer the streams of the project of the new state.
    PromptStream,
    /// Offer the issue types of the project of the new state.
    PromptType,
    PromptDescription,
    /// Show the finished draft with save and cancel choices.
    ConfirmDraft,
    AcknowledgeCancel,
    /// Create the issue; `to_draft` gives the tracker request.
    CreateIssue(NewIssueSummaryProjectStreamTypeDesc),
}

/// What the executor fetched from the tracker for the command at hand.
#[derive(Clone, Debug, PartialEq)]
pub enum Lookup {
    Nothing,
    /// The projects, as listed by the tracker.
    Projects(Vec<Project>),
    /// The values of the enumerated field that the state asks for.
    Options(Bundle),
}

/// Which lookup a command needs before it can be decided.
#[derive(Clone, Copy, Debug, PartialEq, Eq, Structural)]
pub enum LookupKind {
    Nothing,
    Projects,
    /// The values of the project's "Stream" field.
    StreamOptions,
    /// The values of the project's "Type" field.
    TypeOptions,
}

/// The next state and the intents, in the order they are to be performed.
#[derive(Clone, Debug, PartialEq)]
pub struct Transition {
    pub state: UserState,
    pub intents: Vec<Intent>,
}

/// Index of the first project named `name`.
pub open spec fn first_project_named(ps: Seq<Project>, name: Seq<char>) -> Option<int>
    decreases ps.len(),
{
    if ps.len() == 0 {
        None
    } else if ps[0].name matches Some(n) && n@ == name {
        Some(0)
    } else {
        match first_project_named(ps.drop_first(), name) {
            Some(i) => Some(i + 1),
            None => None,
        }
    }
}

pub open spec fn lookup_kind_of(s: UserState, c: BotCommand) -> LookupKind {
    match (s, c) {
        (UserState::NewIssueSummary(_), BotCommand::Text(_)) => LookupKind::Projects,
        (UserState::NewIssueSummaryProject(_), BotCommand::Text(_)) => LookupKind::StreamOptions,
        (UserState::NewIssueSummaryProjectStream(_), BotCommand::Text(_)) => LookupKind::TypeOptions,
        _ => LookupKind::Nothing,
    }
}

/// The outcome of a command in the draft states, where only cancelling is common.
pub open spec fn draft_default(s: UserState, c: BotCommand) -> (UserState, Seq<Intent>) {
    if c is Cancel {
        (UserState::Idle(Idle {}), seq![Intent::AcknowledgeCancel])
    } else {
        (s, seq![])
    }
}

/// The transition table.
pub open spec fn spec_transition(s: UserState, c: BotCommand, l: Lookup) -> (UserState, Seq<Intent>) {
    if s is Error {
        (UserState::Error, seq![])
    } else if c is Invalid {
        (s, seq![Intent::ClearKeyboard])
    } else {
        match s {
            UserState::Idle(_) => match c {
                BotCommand::Backlog(p) => (
                    UserState::InBacklog(InBacklog { top: p.top, skip: p.skip }),
                    seq![Intent::ShowBacklog(p)],
                ),
                BotCommand::Start => (s, seq![Intent::Greet]),
                BotCommand::Login => (s, seq![Intent::SendLoginLink]),
                BotCommand::NewIssue => (UserState::NewIssue(NewIssue {}), seq![Intent::PromptSummary]),
                _ => (s, seq![]),
            },
            UserState::InBacklog(b) => match c {
                BotCommand::BacklogStop => (UserState::Idle(Idle {}), seq![Intent::ClearKeyboard]),
                BotCommand::BacklogNext(p) => (
                    UserState::InBacklog(InBacklog { top: p.top, skip: p.skip }),
                    seq![Intent::ShowBacklog(p)],
                ),
                BotCommand::BacklogPrev(p) => (
                    UserState::InBacklog(InBacklog { top: p.top, skip: p.skip }),
                    seq![Intent::ShowBacklog(p)],
                ),
                BotCommand::BacklogVoteForIssue(v) => (
                    s,
                    seq![
                        Intent::Vote(VoteForIssueParams { id: v.id, has_vote: !v.has_vote }),
                        Intent::ShowBacklog(BacklogParams { top: b.top, skip: b.skip }),
                    ],
                ),
                _ => (s, seq![]),
            },
            UserState::NewIssue(_) => match c {
                BotCommand::Text(t) => (
                    UserState::NewIssueSummary(NewIssueSummary { summary: t }),
                    seq![Intent::PromptProject],
                ),
                _ => draft_default(s, c),
            },
            UserState::NewIssueSummary(st) => match (c, l) {
                (BotCommand::Text(t), Lookup::Projects(ps)) => match first_project_named(ps@, t@) {
                    Some(i) => (
                        UserState::NewIssueSummaryProject(
                            NewIssueSummaryProject { summary: st.summary, project: ps@[i] },
                        ),
                        seq![Intent::PromptStream],
                    ),
                    None => (s, seq![]),
                },
                _ => draft_default(s, c),
            },
            UserState::NewIssueSummaryProject(st) => match (c, l) {
                (BotCommand::Text(t), Lookup::Options(b)) => match first_field_named(
                    st.project.fields@,
                    "Stream"@,
                ) {
                    Some(i) => if bundle_holds(b.values, t@) {
                        (
                            UserState::NewIssueSummaryProjectStream(
                                NewIssueSummaryProjectStream {
                                    summary: st.summary,
                                    project: st.project,
                                    stream: IssueStream(st.project.fields@[i].id, t),
                                },
                            ),
                            seq![Intent::PromptType],
                        )
                    } else {
                        (s, seq![])
                    },
                    None => (s, seq![]),
                },
                _ => draft_default(s, c),
            },
            UserState::NewIssueSummaryProjectStream(st) => match (c, l) {
                (BotCommand::Text(t), Lookup::Options(b)) => match first_field_named(
                    st.project.fields@,
                    "Type"@,
                ) {
                    Some(i) => if bundle_holds(b.values, t@) {
                        (
                            UserState::NewIssueSummaryProjectStreamType(
                                NewIssueSummaryProjectStreamType {
                                    summary: st.summary,
                                    project: st.project,
                                    stream: st.stream,
                                    issue_type: IssueType(st.project.fields@[i].id, t),
                                },
                            ),
                            seq![Intent::PromptDescription],
                        )
                    } else {
                        (s, seq![])
                    },
                    None => (s, seq![]),
                },
                _ => draft_default(s, c),
            },
            UserState::NewIssueSummaryProjectStreamType(st) => match c {
                BotCommand::Text(t) => (
                    UserState::NewIssueSummaryProjectStreamTypeDesc(
                        NewIssueSummaryProjectStreamTypeDesc {
                            summary: st.summary,
                            project: st.project,
                            stream: st.stream,
                            issue_type: st.issue_type,
                            desc: t,
                        },
                    ),
                    seq![Intent::ConfirmDraft],
                ),
                _ => draft_default(s, c),
            },
            UserState::NewIssueSummaryProjectStreamTypeDesc(st) => match c {
                BotCommand::Save => (UserState::Idle(Idle {}), seq![Intent::CreateIssue(st)]),
                _ => draft_default(s, c),
            },
            UserState::Error => (UserState::Error, seq![]),
        }
    }
}

proof fn lemma_first_project_named(ps: Seq<Project>, name: Seq<char>, i: int)
    requires
        0 <= i < ps.len(),
        ps[i].name matches Some(n) && n@ == name,
        forall|j: int| 0 <= j < i ==> !((#[trigger] ps[j]).name matches Some(n) && n@ == name),
    ensures
        first_project_named(ps, name) == Some(i),
    decreases i,
{
    if i > 0 {
        assert forall|j: int| 0 <= j < i - 1 implies !((#[trigger] ps.drop_first()[j]).name matches Some(
            n,
        ) && n@ == name) by {
            assert(ps.drop_first()[j] == ps[j + 1]);
        }
        lemma_first_project_named(ps.drop_first(), name, i - 1);
    }
}

proof fn lemma_no_project_named(ps: Seq<Project>, name: Seq<char>)
    requires
        forall|j: int| 0 <= j < ps.len() ==> !((#[trigger] ps[j]).name matches Some(n) && n@ == name),
    ensures
        first_project_named(ps, name) is None,
    decreases ps.len(),
{
    if ps.len() > 0 {
        assert forall|j: int| 0 <= j < ps.len() - 1 implies !((
        #[trigger] ps.drop_first()[j]).name matches Some(n) && n@ == name) by {
            assert(ps.drop_first()[j] == ps[j + 1]);
        }
        lemma_no_project_named(ps.drop_first(), name);
    }
}

/// Position of the first project named `name`.
fn find_project(ps: &Vec<Project>, name: &String) -> (r: Option<usize>)
    ensures
        r matches Some(i) ==> i < ps@.len() && first_project_named(ps@, name@) == Some(i as int),
        r is None ==> first_project_named(ps@, name@) is None,
{
    let mut i: usize = 0;
    while i < ps.len()
        invariant
            0 <= i <= ps@.len(),
            forall|j: int|
                0 <= j < i ==> !((#[trigger] ps@[j]).name matches Some(n) && n@ == name@),
        decreases ps@.len() - i,
    {
        match &ps[i].name {
            Some(n) => {
                if *n == *name {
                    proof {
                        lemma_first_project_named(ps@, name@, i as int);
                    }
                    return Some(i);
                }
            },
            None => {},
        }
        i = i + 1;
    }
    proof {
        lemma_no_project_named(ps@, name@);
    }
    None
}

fn decide_draft_default(s: UserState, c: BotCommand) -> (r: Transition)
    ensures
        (r.state, r.intents@) == draft_default(s, c),
{
    match c {
        BotCommand::Cancel => {
            let mut intents: Vec<Intent> = Vec::new();
            intents.push(Intent::AcknowledgeCancel);
            assert(intents@ =~= seq![Intent::AcknowledgeCancel]);
            Transition { state: UserState::idle(), intents }
        },
        _ => {
            let intents: Vec<Intent> = Vec::new();
            assert(intents@ =~= Seq::<Intent>::empty());
            Transition { state: s, intents }
        },
    }
}

fn single(i: Intent) -> (r: Vec<Intent>)
    ensures
        r@ == seq![i],
{
    let mut v: Vec<Intent> = Vec::new();
    v.push(i);
    assert(v@ =~= seq![i]);
    v
}

fn unchanged(s: UserState) -> (r: Transition)
    ensures
        r.state == s,
        r.intents@ == Seq::<Intent>::empty(),
{
    let intents: Vec<Intent> = Vec::new();
    assert(intents@ =~= Seq::<Intent>::empty());
    Transition { state: s, intents }
}

/// The summary step: the text names the project, looked up among `ps`.
fn choose_project(st: NewIssueSummary, t: String, ps: Vec<Project>) -> (r: Transition)
    ensures
        (r.state, r.intents@) == spec_transition(
            UserState::NewIssueSummary(st),
            BotCommand::Text(t),
            Lookup::Projects(ps),
        ),
{
    let ghost ps0 = ps@;
    let mut ps = ps;
    match find_project(&ps, &t) {
        Some(i) => {
            let project = ps.remove(i);
            assert(project == ps0[i as int]);
            assert(first_project_named(ps0, t@) == Some(i as int));
            let next = NewIssueSummaryProject { summary: st.summary, project };
            Transition {
                state: UserState::NewIssueSummaryProject(next),
                intents: single(Intent::PromptStream),
            }
        },
        None => unchanged(UserState::NewIssueSummary(st)),
    }
}

/// Which lookup the executor performs before `transition` can decide `cmd` in `state`.
pub fn lookup_needed(state: &UserState, cmd: &BotCommand) -> (r: LookupKind)
    ensures
        r == lookup_kind_of(*state, *cmd),
{
    match (state, cmd) {
        (UserState::NewIssueSummary(_), BotCommand::Text(_)) => LookupKind::Projects,
        (UserState::NewIssueSummaryProject(_), BotCommand::Text(_)) => LookupKind::StreamOptions,
        (UserState::NewIssueSummaryProjectStream(_), BotCommand::Text(_)) => LookupKind::TypeOptions,
        _ => LookupKind::Nothing,
    }
}

/// Decides `cmd` in `state`, given what the executor looked up.
pub fn transition(state: UserState, cmd: BotCommand, lookup: Lookup) -> (r: Transition)
    ensures
        (r.state, r.intents@) == spec_transition(state, cmd, lookup),
{
    if let UserState::Error = state {
        return unchanged(UserState::Error);
    }
    if let BotCommand::Invalid = cmd {
        return Transition { state, intents: single(Intent::ClearKeyboard) };
    }
    match state {
        UserState::Idle(idle) => match cmd {
            BotCommand::Backlog(p) => {
                let next = idle.on_start_backlog(StartBacklog(p));
                Transition { state: UserState::InBacklog(next), intents: single(Intent::ShowBacklog(p)) }
            },
            BotCommand::Start => Transition { state: UserState::Idle(idle), intents: single(Intent::Greet) },
            BotCommand::Login => Transition {
                state: UserState::Idle(idle),
                intents: single(Intent::SendLoginLink),
            },
            BotCommand::NewIssue => {
                let next = idle.on_create_new_issue(CreateNewIssue);
                Transition { state: UserState::NewIssue(next), intents: single(Intent::PromptSummary) }
            },
            _ => unchanged(UserState::Idle(idle)),
        },
        UserState::InBacklog(b) => match cmd {
            BotCommand::BacklogStop => {
                let next = b.on_stop_backlog(StopBacklog);
                Transition { state: UserState::Idle(next), intents: single(Intent::ClearKeyboard) }
            },
            BotCommand::BacklogNext(p) => {
                let next = b.on_backlog_page(BacklogPage(p));
                Transition { state: UserState::InBacklog(next), intents: single(Intent::ShowBacklog(p)) }
            },
            BotCommand::BacklogPrev(p) => {
                let next = b.on_backlog_page(BacklogPage(p));
                Transition { state: UserState::InBacklog(next), intents: single(Intent::ShowBacklog(p)) }
            },
            BotCommand::BacklogVoteForIssue(v) => {
                let page = BacklogParams::new_with_skip(b.top, b.skip);
                let mut intents: Vec<Intent> = Vec::new();
                intents.push(Intent::Vote(VoteForIssueParams { id: v.id, has_vote: !v.has_vote }));
                intents.push(Intent::ShowBacklog(page));
                let ghost expected = seq![
                    Intent::Vote(VoteForIssueParams { id: v.id, has_vote: !v.has_vote }),
                    Intent::ShowBacklog(BacklogParams { top: b.top, skip: b.skip }),
                ];
                assert(intents@ =~= expected);
                Transition { state: UserState::InBacklog(b), intents }
            },
            _ => unchanged(UserState::InBacklog(b)),
        },
        UserState::NewIssue(st) => match cmd {
            BotCommand::Text(t) => {
                let next = st.on_issue_summary(IssueSummary(t));
                Transition {
                    state: UserState::NewIssueSummary(next),
                    intents: single(Intent::PromptProject),
                }
            },
            c => decide_draft_default(UserState::NewIssue(st), c),
        },
        UserState::NewIssueSummary(st) => match (cmd, lookup) {
            (BotCommand::Text(t), Lookup::Projects(ps)) => choose_project(st, t, ps),
            (c, _) => decide_draft_default(UserState::NewIssueSummary(st), c),
        },
        UserState::NewIssueSummaryProject(st) => match (cmd, lookup) {
            (BotCommand::Text(t), Lookup::Options(b)) => {
                let field_id = match st.project.get_project_custom_field("Stream") {
                    Some(f) => Some(f.id.clone()),
                    None => None,
                };
                match field_id {
                    Some(id) => {
                        if b.has_value(t.as_str()) {
                            let IssueSummaryProjectStream(summary, project, stream) = st.stream(
                                IssueStream(id, t),
                            );
                            let next = NewIssueSummaryProjectStream { summary, project, stream };
                            Transition {
                                state: UserState::NewIssueSummaryProjectStream(next),
                                intents: single(Intent::PromptType),
                            }
                        } else {
                            unchanged(UserState::NewIssueSummaryProject(st))
                        }
                    },
                    None => unchanged(UserState::NewIssueSummaryProject(st)),
                }
            },
            (c, _) => decide_draft_default(UserState::NewIssueSummaryProject(st), c),
        },
        UserState::NewIssueSummaryProjectStream(st) => match (cmd, lookup) {
            (BotCommand::Text(t), Lookup::Options(b)) => {
                let field_id = match st.project.get_project_custom_field("Type") {
                    Some(f) => Some(f.id.clone()),
                    None => None,
                };
                match field_id {
                    Some(id) => {
                        if b.has_value(t.as_str()) {
                            let next = NewIssueSummaryProjectStreamType {
                                summary: st.summary,
                                project: st.project,
                                stream: st.stream,
                                issue_type: IssueType(id, t),
                            };
                            Transition {
                                state: UserState::NewIssueSummaryProjectStreamType(next),
                                intents: single(Intent::PromptDescription),
                            }
                        } else {
                            unchanged(UserState::NewIssueSummaryProjectStream(st))
                        }
                    },
                    None => unchanged(UserState::NewIssueSummaryProjectStream(st)),
                }
            },
            (c, _) => decide_draft_default(UserState::NewIssueSummaryProjectStream(st), c),
        },
        UserState::NewIssueSummaryProjectStreamType(st) => match cmd {
            BotCommand::Text(t) => {
                let next = NewIssueSummaryProjectStreamTypeDesc {
                    summary: st.summary,
                    project: st.project,
                    stream: st.stream,
                    issue_type: st.issue_type,
                    desc: t,
                };
                Transition {
                    state: UserState::NewIssueSummaryProjectStreamTypeDesc(next),
                    intents: single(Intent::ConfirmDraft),
                }
            },
            c => decide_draft_default(UserState::NewIssueSummaryProjectStreamType(st), c),
        },
        UserState::NewIssueSummaryProjectStreamTypeDesc(st) => match cmd {
            BotCommand::Save => {
                let next = st.on_save(Save);
                Transition { state: UserState::Idle(next), intents: single(Intent::CreateIssue(st)) }
            },
            c => decide_draft_default(UserState::NewIssueSummaryProjectStreamTypeDesc(st), c),
        },
        UserState::Error => unchanged(UserState::Error),
    }
}

/// Every state but the sentinel has a rule for every command: the outcome is a state
/// to store. The sentinel maps to itself with no intents.
pub proof fn lemma_transition_total(s: UserState, c: BotCommand, l: Lookup)
    ensures
        !(s is Error) ==> !(spec_transition(s, c, l).0 is Error),
        s is Error ==> spec_transition(s, c, l) == (UserState::Error, Seq::<Intent>::empty()),
{
}

/// Whether `t` may follow the draft state `s`: `s` itself, idle, or the next step of the
/// draft with every field of `s` kept.
pub open spec fn draft_step(s: UserState, t: UserState) -> bool {
    t == s || t is Idle || match (s, t) {
        (UserState::NewIssue(_), UserState::NewIssueSummary(_)) => true,
        (UserState::NewIssueSummary(a), UserState::NewIssueSummaryProject(b)) => b.summary
            == a.summary,
        (UserState::NewIssueSummaryProject(a), UserState::NewIssueSummaryProjectStream(b)) => {
            &&& b.summary == a.summary
            &&& b.project == a.project
        },
        (
            UserState::NewIssueSummaryProjectStream(a),
            UserState::NewIssueSummaryProjectStreamType(b),
        ) => {
            &&& b.summary == a.summary
            &&& b.project == a.project
            &&& b.stream == a.stream
        },
        (
            UserState::NewIssueSummaryProjectStreamType(a),
            UserState::NewIssueSummaryProjectStreamTypeDesc(b),
        ) => {
            &&& b.summary == a.summary
            &&& b.project == a.project
            &&& b.stream == a.stream
            &&& b.issue_type == a.issue_type
        },
        _ => false,
    }
}

pub open spec fn is_draft(s: UserState) -> bool {
    s is NewIssue || s is NewIssueSummary || s is NewIssueSummaryProject
        || s is NewIssueSummaryProjectStream || s is NewIssueSummaryProjectStreamType
        || s is NewIssueSummaryProjectStreamTypeDesc
}

/// A draft grows one field at a time and loses none: from a draft state, a command
/// leaves the state as it is, returns to idle, or moves to the next step keeping
/// every field already given.
pub proof fn lemma_draft_fields_kept(s: UserState, c: BotCommand, l: Lookup)
    requires
        is_draft(s),
    ensures
        draft_step(s, spec_transition(s, c, l).0),
{
}

/// Whether project `p` is named `name`.
pub open spec fn has_name(p: Project, name: Seq<char>) -> bool {
    p.name matches Some(n) && n@ == name
}

proof fn lemma_first_project_named_found(ps: Seq<Project>, name: Seq<char>)
    ensures
        match first_project_named(ps, name) {
            Some(i) => 0 <= i < ps.len() && has_name(ps[i], name) && forall|j: int|
                0 <= j < i ==> !has_name(#[trigger] ps[j], name),
            None => forall|j: int| 0 <= j < ps.len() ==> !has_name(#[trigger] ps[j], name),
        },
    decreases ps.len(),
{
    if ps.len() > 0 {
        let rest = ps.drop_first();
        lemma_first_project_named_found(rest, name);
        if !has_name(ps[0], name) {
            match first_project_named(rest, name) {
                Some(i) => {
                    assert forall|j: int| 0 <= j < i + 1 implies !has_name(#[trigger] ps[j], name) by {
                        if j > 0 {
                            assert(ps[j] == rest[j - 1]);
                        }
                    }
                    assert(ps[i + 1] == rest[i]);
                },
                None => {
                    assert forall|j: int| 0 <= j < ps.len() implies !has_name(#[trigger] ps[j], name) by {
                        if j > 0 {
                            assert(ps[j] == rest[j - 1]);
                        }
                    }
                },
            }
        }
    }
}

/// Choosing the project of a draft by name: when a listed project has the name given,
/// the draft moves on to the first such project and keeps its summary; when none has
/// it, nothing changes.
pub proof fn lemma_project_choice(st: NewIssueSummary, t: String, ps: Vec<Project>)
    ensures
        ({
            let r = spec_transition(
                UserState::NewIssueSummary(st),
                BotCommand::Text(t),
                Lookup::Projects(ps),
            );
            &&& (exists|i: int| 0 <= i < ps@.len() && has_name(#[trigger] ps@[i], t@)) ==> (exists|
                i: int,
            |
                0 <= i < ps@.len() && has_name(#[trigger] ps@[i], t@) && (forall|j: int|
                    0 <= j < i ==> !has_name(#[trigger] ps@[j], t@)) && r == (
                    UserState::NewIssueSummaryProject(
                        NewIssueSummaryProject { summary: st.summary, project: ps@[i] },
                    ),
                    seq![Intent::PromptStream],
                ))
            &&& (forall|i: int| 0 <= i < ps@.len() ==> !has_name(#[trigger] ps@[i], t@)) ==> r == (
                UserState::NewIssueSummary(st),
                Seq::<Intent>::empty(),
            )
        }),
{
    lemma_first_project_named_found(ps@, t@);
    match first_project_named(ps@, t@) {
        Some(i) => {
            assert(has_name(ps@[i], t@));
        },
        None => {},
    }
}

} // verus!
