//! The shared vocabulary of the caller, the runners and the web client.
//!
//! Every type that holds text has a view in which the text is a sequence of
//! characters; contracts speak of the views.

use vstd::prelude::*;

use crate::text;

verus! {

/// A session's identifier: the 128 bits of a UUID.
pub type SessionId = u128;

/// A turn's identifier: the 128 bits of a UUID.
pub type TurnId = u128;

/// Runners self-identify with a stable string, by convention `<host>:<user>`.
pub type RunnerId = String;

/// A point in time: nanoseconds since the Unix epoch.
pub type Timestamp = i128;

// ---------------------------------------------------------------------------
// Lanes: which band member plays a turn, and how hard.
// ---------------------------------------------------------------------------

/// A harness the band can play through. `Mock` echoes deterministically and
/// exists for CI and smoke tests; it must never be the default outside tests.
#[derive(Debug, Clone, Copy, PartialEq, Eq, Structural)]
pub enum Harness {
    ClaudeCode,
    Codex,
    Cursor,
    Mock,
}

/// An explicit model route. Routing is always explicit: the caller never
/// infers a lane, and one that is not offered is a 422, never a silent
/// fallback.
#[derive(Debug, PartialEq, Eq)]
pub struct Lane {
    pub harness: Harness,
    /// Model identifier in the harness's own vocabulary.
    pub model: String,
    /// Harness-specific effort knob; None = harness default.
    pub effort: Option<String>,
}

/// The view of a lane.
pub struct LaneView {
    pub harness: Harness,
    pub model: Seq<char>,
    pub effort: Option<Seq<char>>,
}

impl View for Lane {
    type V = LaneView;

    open spec fn view(&self) -> LaneView {
        LaneView {
            harness: self.harness,
            model: self.model@,
            effort: text::opt_text(self.effort),
        }
    }
}

/// The view of an optional lane.
pub open spec fn opt_lane(lane: Option<Lane>) -> Option<LaneView> {
    match lane {
        Some(lane) => Some(lane@),
        None => None,
    }
}

impl Clone for Lane {
    fn clone(&self) -> (copy: Self)
        ensures
            copy@ == self@,
    {
        Lane {
            harness: self.harness,
            model: self.model.clone(),
            effort: text::clone_opt(&self.effort),
        }
    }
}

/// The lane a session plays on when none is asked for.
pub open spec fn default_lane() -> LaneView {
    LaneView { harness: Harness::ClaudeCode, model: "opus"@, effort: None }
}

impl Default for Lane {
    fn default() -> (lane: Self)
        ensures
            lane@ == default_lane(),
    {
        Lane { harness: Harness::ClaudeCode, model: "opus".to_string(), effort: None }
    }
}

// ---------------------------------------------------------------------------
// Sessions
// ---------------------------------------------------------------------------

/// What a session is allowed to touch. Declared at creation, never ambient.
#[derive(Debug, PartialEq, Eq)]
pub struct SessionProfile {
    /// Repo cloned into the session workspace. None = scratch dir.
    pub repo_url: Option<String>,
    /// Branch the workspace worktree is cut from. None = repo default branch.
    pub base_branch: Option<String>,
    /// Whether the runner pushes the session branch after each turn commit.
    pub allow_push: bool,
}

/// The view of a session profile.
pub struct ProfileView {
    pub repo_url: Option<Seq<char>>,
    pub base_branch: Option<Seq<char>>,
    pub allow_push: bool,
}

impl View for SessionProfile {
    type V = ProfileView;

    open spec fn view(&self) -> ProfileView {
        ProfileView {
            repo_url: text::opt_text(self.repo_url),
            base_branch: text::opt_text(self.base_branch),
            allow_push: self.allow_push,
        }
    }
}

impl Clone for SessionProfile {
    fn clone(&self) -> (copy: Self)
        ensures
            copy@ == self@,
    {
        SessionProfile {
            repo_url: text::clone_opt(&self.repo_url),
            base_branch: text::clone_opt(&self.base_branch),
            allow_push: self.allow_push,
        }
    }
}

/// A scratch workspace that is never pushed.
pub open spec fn default_profile() -> ProfileView {
    ProfileView { repo_url: None, base_branch: None, allow_push: false }
}

impl Default for SessionProfile {
    fn default() -> (profile: Self)
        ensures
            profile@ == default_profile(),
    {
        SessionProfile { repo_url: None, base_branch: None, allow_push: false }
    }
}

#[derive(Debug, Clone, Copy, PartialEq, Eq, Structural)]
pub enum SessionStatus {
    Active,
    Archived,
}

#[derive(Debug, PartialEq)]
pub struct Session {
    pub id: SessionId,
    pub title: String,
    pub lane: Lane,
    pub profile: SessionProfile,
    /// Set at first claim; the session workspace lives on that runner and
    /// later turns are offered to it alone while it stays online.
    pub runner_affinity: Option<RunnerId>,
    pub status: SessionStatus,
    /// Set when this session was spawned as a sub-agent of another session.
    pub parent_id: Option<SessionId>,
    pub created_at: Timestamp,
    pub updated_at: Timestamp,
}

/// The view of a session.
pub struct SessionView {
    pub id: SessionId,
    pub title: Seq<char>,
    pub lane: LaneView,
    pub profile: ProfileView,
    pub runner_affinity: Option<Seq<char>>,
    pub status: SessionStatus,
    pub parent_id: Option<SessionId>,
    pub created_at: Timestamp,
    pub updated_at: Timestamp,
}

impl View for Session {
    type V = SessionView;

    open spec fn view(&self) -> SessionView {
        SessionView {
            id: self.id,
            title: self.title@,
            lane: self.lane@,
            profile: self.profile@,
            runner_affinity: text::opt_text(self.runner_affinity),
            status: self.status,
            parent_id: self.parent_id,
            created_at: self.created_at,
            updated_at: self.updated_at,
        }
    }
}

impl Clone for Session {
    fn clone(&self) -> (copy: Self)
        ensures
            copy@ == self@,
    {
        Session {
            id: self.id,
            title: self.title.clone(),
            lane: self.lane.clone(),
            profile: self.profile.clone(),
            runner_affinity: text::clone_opt(&self.runner_affinity),
            status: self.status,
            parent_id: self.parent_id,
            created_at: self.created_at,
            updated_at: self.updated_at,
        }
    }
}

// ---------------------------------------------------------------------------
// Turns
// ---------------------------------------------------------------------------

/// How far a turn has come.
#[derive(Debug, Clone, Copy, PartialEq, Eq, Structural)]
pub enum TurnStatus {
    Queued,
    Claimed,
    Working,
    Done,
    Error,
    /// The lane's plan is capped; the turn may be retried on reset or rerouted.
    Capped,
    /// The human cancelled the turn (before or during execution).
    Cancelled,
}

#[derive(Debug, PartialEq)]
pub struct Turn {
    pub id: TurnId,
    pub session_id: SessionId,
    /// 1-based position within the session.
    pub seq: i64,
    /// The user's message for this turn.
    pub input: String,
    /// Overrides the session lane for this turn only.
    pub lane_override: Option<Lane>,
    pub status: TurnStatus,
    pub envelope: Option<Envelope>,
    pub error: Option<String>,
    /// Workspace commit sha recorded after the turn.
    pub commit: Option<String>,
    /// Provider session token captured at report; lets the next turn resume
    /// the harness conversation instead of reseeding from history.
    pub resume_token: Option<String>,
    /// True once a cancel has been asked for.
    pub cancel_requested: bool,
    pub created_at: Timestamp,
    pub started_at: Option<Timestamp>,
    pub finished_at: Option<Timestamp>,
}

/// The view of a turn.
pub struct TurnView {
    pub id: TurnId,
    pub session_id: SessionId,
    pub seq: i64,
    pub input: Seq<char>,
    pub lane_override: Option<LaneView>,
    pub status: TurnStatus,
    pub envelope: Option<EnvelopeView>,
    pub error: Option<Seq<char>>,
    pub commit: Option<Seq<char>>,
    pub resume_token: Option<Seq<char>>,
    pub cancel_requested: bool,
    pub created_at: Timestamp,
    pub started_at: Option<Timestamp>,
    pub finished_at: Option<Timestamp>,
}

impl View for Turn {
    type V = TurnView;

    open spec fn view(&self) -> TurnView {
        TurnView {
            id: self.id,
            session_id: self.session_id,
            seq: self.seq,
            input: self.input@,
            lane_override: opt_lane(self.lane_override),
            status: self.status,
            envelope: opt_envelope(self.envelope),
            error: text::opt_text(self.error),
            commit: text::opt_text(self.commit),
            resume_token: text::opt_text(self.resume_token),
            cancel_requested: self.cancel_requested,
            created_at: self.created_at,
            started_at: self.started_at,
            finished_at: self.finished_at,
        }
    }
}

// ---------------------------------------------------------------------------
// Envelope: the structured close of every turn.
// ---------------------------------------------------------------------------

#[derive(Debug, PartialEq)]
pub struct Envelope {
    /// One sentence: what happened.
    pub headline: String,
    pub work_complete: bool,
    pub cannot_proceed: bool,
    /// The full reply, markdown.
    pub body_markdown: String,
    /// Questions for the human, each carrying its recommendation.
    pub questions: Vec<Question>,
}

/// The view of an envelope.
#[verifier::ext_equal]
pub struct EnvelopeView {
    pub headline: Seq<char>,
    pub work_complete: bool,
    pub cannot_proceed: bool,
    pub body_markdown: Seq<char>,
    pub questions: Seq<QuestionView>,
}

impl View for Envelope {
    type V = EnvelopeView;

    open spec fn view(&self) -> EnvelopeView {
        EnvelopeView {
            headline: self.headline@,
            work_complete: self.work_complete,
            cannot_proceed: self.cannot_proceed,
            body_markdown: self.body_markdown@,
            questions: self.questions@.map_values(|question: Question| question@),
        }
    }
}

/// The view of an optional envelope.
pub open spec fn opt_envelope(envelope: Option<Envelope>) -> Option<EnvelopeView> {
    match envelope {
        Some(envelope) => Some(envelope@),
        None => None,
    }
}

impl Clone for Envelope {
    fn clone(&self) -> (copy: Self)
        ensures
            copy@ == self@,
    {
        let mut questions: Vec<Question> = Vec::new();
        let mut i: usize = 0;
        while i < self.questions.len()
            invariant
                i <= self.questions@.len(),
                questions@.len() == i,
                forall|k: int| 0 <= k < i ==> (#[trigger] questions@[k])@ == self.questions@[k]@,
            decreases self.questions@.len() - i,
        {
            questions.push(self.questions[i].clone());
            i += 1;
        }
        let copy: Envelope = Envelope {
            headline: self.headline.clone(),
            work_complete: self.work_complete,
            cannot_proceed: self.cannot_proceed,
            body_markdown: self.body_markdown.clone(),
            questions,
        };
        proof {
            assert(copy@.questions =~= self@.questions);
        }
        copy
    }
}

/// An envelope with nothing in it.
pub open spec fn empty_envelope() -> EnvelopeView {
    EnvelopeView {
        headline: Seq::empty(),
        work_complete: false,
        cannot_proceed: false,
        body_markdown: Seq::empty(),
        questions: Seq::empty(),
    }
}

impl Default for Envelope {
    fn default() -> (envelope: Self)
        ensures
            envelope@ == empty_envelope(),
    {
        let envelope: Envelope = Envelope {
            headline: String::new(),
            work_complete: false,
            cannot_proceed: false,
            body_markdown: String::new(),
            questions: Vec::new(),
        };
        proof {
            assert(envelope@.headline =~= Seq::empty());
            assert(envelope@.body_markdown =~= Seq::empty());
            assert(envelope@.questions =~= Seq::empty());
        }
        envelope
    }
}

#[derive(Debug, PartialEq)]
pub struct Question {
    pub text: String,
    pub recommendation: Option<String>,
}

/// The view of a question.
pub struct QuestionView {
    pub text: Seq<char>,
    pub recommendation: Option<Seq<char>>,
}

impl View for Question {
    type V = QuestionView;

    open spec fn view(&self) -> QuestionView {
        QuestionView {
            text: self.text@,
            recommendation: text::opt_text(self.recommendation),
        }
    }
}

impl Clone for Question {
    fn clone(&self) -> (copy: Self)
        ensures
            copy@ == self@,
    {
        Question {
            text: self.text.clone(),
            recommendation: text::clone_opt(&self.recommendation),
        }
    }
}

// ---------------------------------------------------------------------------
// Events: what the web client's feeds carry.
// ---------------------------------------------------------------------------

#[derive(Debug, PartialEq)]
#[allow(inconsistent_fields)]
pub enum Event {
    TurnQueued { turn: Turn },
    TurnClaimed { turn_id: TurnId, runner: RunnerId },
    /// Streaming output chunk while the turn is working.
    Chunk { turn_id: TurnId, text: String },
    TurnDone { turn: Turn },
    TurnError { turn_id: TurnId, message: String },
    RunnerStatus { runner: RunnerStatusInfo },
    TurnCancelled { turn: Turn },
    /// A session appeared (created by a human or spawned as a sub-agent).
    SessionCreated { session: Session },
    /// A session changed shape (archived, unarchived, retitled).
    SessionUpdated { session: Session },
    /// A session and its turns are gone; runners drop its workspace.
    SessionDeleted { session_id: SessionId },
}

/// The view of an event.
#[allow(inconsistent_fields)]
pub enum EventView {
    TurnQueued { turn: TurnView },
    TurnClaimed { turn_id: TurnId, runner: Seq<char> },
    Chunk { turn_id: TurnId, text: Seq<char> },
    TurnDone { turn: TurnView },
    TurnError { turn_id: TurnId, message: Seq<char> },
    RunnerStatus { runner: RunnerStatusView },
    TurnCancelled { turn: TurnView },
    SessionCreated { session: SessionView },
    SessionUpdated { session: SessionView },
    SessionDeleted { session_id: SessionId },
}

impl View for Event {
    type V = EventView;

    open spec fn view(&self) -> EventView {
        match *self {
            Event::TurnQueued { turn } => EventView::TurnQueued { turn: turn@ },
            Event::TurnClaimed { turn_id, runner } => EventView::TurnClaimed {
                turn_id,
                runner: runner@,
            },
            Event::Chunk { turn_id, text } => EventView::Chunk { turn_id, text: text@ },
            Event::TurnDone { turn } => EventView::TurnDone { turn: turn@ },
            Event::TurnError { turn_id, message } => EventView::TurnError {
                turn_id,
                message: message@,
            },
            Event::RunnerStatus { runner } => EventView::RunnerStatus { runner: runner@ },
            Event::TurnCancelled { turn } => EventView::TurnCancelled { turn: turn@ },
            Event::SessionCreated { session } => EventView::SessionCreated { session: session@ },
            Event::SessionUpdated { session } => EventView::SessionUpdated { session: session@ },
            Event::SessionDeleted { session_id } => EventView::SessionDeleted { session_id },
        }
    }
}

#[derive(Debug, PartialEq)]
pub struct RunnerStatusInfo {
    pub runner: RunnerId,
    pub online: bool,
    pub last_seen: Timestamp,
    pub active_turns: u32,
}

/// The view of a runner's status.
pub struct RunnerStatusView {
    pub runner: Seq<char>,
    pub online: bool,
    pub last_seen: Timestamp,
    pub active_turns: u32,
}

impl View for RunnerStatusInfo {
    type V = RunnerStatusView;

    open spec fn view(&self) -> RunnerStatusView {
        RunnerStatusView {
            runner: self.runner@,
            online: self.online,
            last_seen: self.last_seen,
            active_turns: self.active_turns,
        }
    }
}

// ---------------------------------------------------------------------------
// Runner protocol: claim over held long-poll, stream, report.
// ---------------------------------------------------------------------------

#[derive(Debug, PartialEq)]
pub struct ClaimRequest {
    pub runner: RunnerId,
    /// What this runner can execute.
    pub harnesses: Vec<Harness>,
    /// Random per-process id. Two processes sharing a runner id (a redeploy
    /// that left an orphan behind) are told apart by this, and a restarted
    /// runner's first claim releases the turns its previous process held.
    pub epoch: Option<String>,
    /// How long the server may hold the poll open before answering empty.
    /// The server caps this.
    pub wait_seconds: u32,
}

/// The view of a claim request.
pub struct ClaimRequestView {
    pub runner: Seq<char>,
    pub harnesses: Seq<Harness>,
    pub epoch: Option<Seq<char>>,
    pub wait_seconds: u32,
}

impl View for ClaimRequest {
    type V = ClaimRequestView;

    open spec fn view(&self) -> ClaimRequestView {
        ClaimRequestView {
            runner: self.runner@,
            harnesses: self.harnesses@,
            epoch: text::opt_text(self.epoch),
            wait_seconds: self.wait_seconds,
        }
    }
}

/// A summary of a prior turn, used to reseed a harness session when no
/// resume token survives (failover, runner swap).
#[derive(Debug, PartialEq)]
pub struct TurnSummary {
    pub input: String,
    pub headline: Option<String>,
}

/// The view of a turn summary.
pub struct SummaryView {
    pub input: Seq<char>,
    pub headline: Option<Seq<char>>,
}

impl View for TurnSummary {
    type V = SummaryView;

    open spec fn view(&self) -> SummaryView {
        SummaryView { input: self.input@, headline: text::opt_text(self.headline) }
    }
}

#[derive(Debug, PartialEq)]
pub struct ClaimedWork {
    pub turn: Turn,
    pub session: Session,
    /// Recent turns, oldest first, for reseeding when resume_token is absent.
    pub history_hint: Vec<TurnSummary>,
}

/// The view of claimed work.
#[verifier::ext_equal]
pub struct WorkView {
    pub turn: TurnView,
    pub session: SessionView,
    pub history_hint: Seq<SummaryView>,
}

impl View for ClaimedWork {
    type V = WorkView;

    open spec fn view(&self) -> WorkView {
        WorkView {
            turn: self.turn@,
            session: self.session@,
            history_hint: self.history_hint@.map_values(|summary: TurnSummary| summary@),
        }
    }
}

/// The lane that claimed work is played on: the turn's own, else the session's.
pub open spec fn lane_of_work(work: WorkView) -> LaneView {
    match work.turn.lane_override {
        Some(lane) => lane,
        None => work.session.lane,
    }
}

impl ClaimedWork {
    /// The lane that the work is played on.
    pub fn lane(&self) -> (lane: &Lane)
        ensures
            lane@ == lane_of_work(self@),
    {
        match &self.turn.lane_override {
            Some(lane) => lane,
            None => &self.session.lane,
        }
    }
}

/// Response to a claim: work, or empty after the hold expires.
#[derive(Debug, PartialEq)]
pub enum ClaimResponse {
    Work { work: ClaimedWork },
    Empty,
}

#[derive(Debug, PartialEq)]
pub struct ReportRequest {
    /// Done, Error, Capped, or Cancelled.
    pub status: TurnStatus,
    pub envelope: Option<Envelope>,
    pub error: Option<String>,
    pub commit: Option<String>,
    pub resume_token: Option<String>,
}

/// The view of a report.
pub struct ReportView {
    pub status: TurnStatus,
    pub envelope: Option<EnvelopeView>,
    pub error: Option<Seq<char>>,
    pub commit: Option<Seq<char>>,
    pub resume_token: Option<Seq<char>>,
}

impl View for ReportRequest {
    type V = ReportView;

    open spec fn view(&self) -> ReportView {
        ReportView {
            status: self.status,
            envelope: opt_envelope(self.envelope),
            error: text::opt_text(self.error),
            commit: text::opt_text(self.commit),
            resume_token: text::opt_text(self.resume_token),
        }
    }
}

/// What the caller tells a runner about an in-flight turn it holds.
#[derive(Debug, Clone, Copy, PartialEq, Eq, Structural)]
pub struct TurnControl {
    pub cancel_requested: bool,
}

impl Default for TurnControl {
    fn default() -> (control: Self)
        ensures
            !control.cancel_requested,
    {
        TurnControl { cancel_requested: false }
    }
}

#[derive(Debug, PartialEq)]
pub struct Heartbeat {
    pub runner: RunnerId,
    pub active_turns: Vec<TurnId>,
    pub at: Timestamp,
    /// See `ClaimRequest::epoch`. A heartbeat from a stale epoch is recorded
    /// but never used to release another process's turns.
    pub epoch: Option<String>,
}

/// The view of a heartbeat.
pub struct HeartbeatView {
    pub runner: Seq<char>,
    pub active_turns: Seq<TurnId>,
    pub at: Timestamp,
    pub epoch: Option<Seq<char>>,
}

impl View for Heartbeat {
    type V = HeartbeatView;

    open spec fn view(&self) -> HeartbeatView {
        HeartbeatView {
            runner: self.runner@,
            active_turns: self.active_turns@,
            at: self.at,
            epoch: text::opt_text(self.epoch),
        }
    }
}

// ---------------------------------------------------------------------------
// The web client's requests.
// ---------------------------------------------------------------------------

#[derive(Debug, PartialEq)]
pub struct CreateSessionRequest {
    pub title: String,
    pub lane: Option<Lane>,
    pub profile: Option<SessionProfile>,
    /// Spawn this session as a child of an existing one.
    pub parent_id: Option<SessionId>,
}

/// The view of a request for a session.
pub struct CreateSessionView {
    pub title: Seq<char>,
    pub lane: Option<LaneView>,
    pub profile: Option<ProfileView>,
    pub parent_id: Option<SessionId>,
}

impl View for CreateSessionRequest {
    type V = CreateSessionView;

    open spec fn view(&self) -> CreateSessionView {
        CreateSessionView {
            title: self.title@,
            lane: opt_lane(self.lane),
            profile: match self.profile {
                Some(profile) => Some(profile@),
                None => None,
            },
            parent_id: self.parent_id,
        }
    }
}

#[derive(Debug, PartialEq)]
pub struct PostTurnRequest {
    pub input: String,
    pub lane: Option<Lane>,
}

// ---------------------------------------------------------------------------
// Config: what the caller offers the client (model menu, defaults).
// ---------------------------------------------------------------------------

/// One row of the model menu the UI offers, grouped by vendor.
#[derive(Debug, PartialEq, Eq)]
pub struct ModelChoice {
    /// Display group, e.g. "Anthropic", "OpenAI", "Cursor".
    pub vendor: String,
    pub harness: Harness,
    /// The exact model string the harness CLI takes.
    pub model: String,
    /// Human label for the picker.
    pub label: String,
}

/// The view of a row of the model menu.
pub struct ModelView {
    pub vendor: Seq<char>,
    pub harness: Harness,
    pub model: Seq<char>,
    pub label: Seq<char>,
}

impl View for ModelChoice {
    type V = ModelView;

    open spec fn view(&self) -> ModelView {
        ModelView {
            vendor: self.vendor@,
            harness: self.harness,
            model: self.model@,
            label: self.label@,
        }
    }
}

/// The views of a model menu.
pub open spec fn menu_view(models: Seq<ModelChoice>) -> Seq<ModelView> {
    models.map_values(|model: ModelChoice| model@)
}

/// One repository the operator can start a session in.
#[derive(Debug, PartialEq, Eq)]
pub struct RepoChoice {
    /// `owner/name`.
    pub full_name: String,
    pub owner: String,
    pub name: String,
    pub private: bool,
    /// Clone URL the session profile takes.
    pub url: String,
    /// Last push, so the list can lead with what is being worked on.
    pub pushed_at: Option<Timestamp>,
}

#[derive(Debug, PartialEq, Eq)]
pub struct RepoOwner {
    pub login: String,
    pub repos: Vec<RepoChoice>,
}

#[derive(Debug, PartialEq, Eq)]
pub struct RepoList {
    /// Owners (the user's account and every org they belong to), each with
    /// their repositories, most recently pushed first.
    pub owners: Vec<RepoOwner>,
    /// False when the caller has no GitHub token configured; the client
    /// falls back to a free-text repository field.
    pub available: bool,
    pub error: Option<String>,
}

#[derive(Debug, PartialEq, Eq)]
pub struct CallerConfig {
    /// Prefilled into the new-session form; None = scratch workspace.
    pub default_repo_url: Option<String>,
    pub models: Vec<ModelChoice>,
}

} // verus!
