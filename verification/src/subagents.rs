//! What the MCP tools decide and say: the child session that `spawn_subagent`
//! asks for, how its first turn is waited for, and what `list_sessions` and
//! `read_session` show. The tools reach the family of their own session and
//! nothing else.

use vstd::prelude::*;

use crate::json;
use crate::json::Json;
use crate::json::JsonView;
use crate::mcp;
use crate::names;
use crate::outside;
use crate::protocol::{
    CreateSessionRequest, Harness, Lane, Session, SessionId, SessionProfile, SessionStatus, Turn,
    TurnId, TurnStatus,
};
use crate::protocol::{CreateSessionView, LaneView, ProfileView, SessionView, TurnView};
use crate::text;

verus! {

/// How long a spawn waits where the call does not say.
pub const DEFAULT_WAIT_MINUTES: u64 = 20;

/// The longest that a spawn waits.
pub const MAX_WAIT_MINUTES: u64 = 20;

/// The pause between two looks at a child's turns.
pub const POLL_SECONDS: u64 = 2;

/// The longest reply that is handed back whole.
pub const REPLY_CAP_CHARS: usize = 12_000;

/// How many spawns one process runs at a time.
pub const MAX_CONCURRENT_SPAWNS: usize = 4;

/// The longest input or error that `read_session` shows whole.
pub const FIELD_CAP_CHARS: usize = 1000;

/// The longest body of a failed request that is shown whole.
pub const BODY_CAP_CHARS: usize = 500;

// ---------------------------------------------------------------------------
// Shortening and requests
// ---------------------------------------------------------------------------

/// At most `max` characters, with a note where something was cut off.
pub open spec fn capped(s: Seq<char>, max: int) -> Seq<char> {
    if s.len() <= max {
        s
    } else {
        s.take(max) + "\n...[truncated]"@
    }
}

/// At most `max` characters, with a note where something was cut off.
pub fn cap_to(input: &str, max: usize) -> (out: String)
    ensures
        out@ == capped(input@, max as int),
{
    let chars: Vec<char> = text::chars_of(input);
    if chars.len() <= max {
        return text::text_of(&chars);
    }
    let mut out: String = text::text_range(&chars, 0, max);
    assert(out@ =~= input@.take(max as int));
    out.append("\n...[truncated]");
    out
}

/// A reply, shortened to what is handed back.
pub fn cap(input: &str) -> (out: String)
    ensures
        out@ == capped(input@, REPLY_CAP_CHARS as int),
{
    cap_to(input, REPLY_CAP_CHARS)
}

/// The address of a path of the caller's API.
pub open spec fn url_for(server_url: Seq<char>, path: Seq<char>) -> Seq<char> {
    text::strip_end(server_url, '/') + path
}

/// Where a path of the caller's API stands.
pub fn request_url(server_url: &str, path: &str) -> (url: String)
    ensures
        url@ == url_for(server_url@, path@),
{
    let mut url: String = text::trim_end_char(server_url, '/');
    url.append(path);
    url
}

/// The words on a request that the caller refused.
pub open spec fn failure_words(path: Seq<char>, status: Seq<char>, body: Seq<char>) -> Seq<char> {
    path + " -> HTTP "@ + status + ": "@ + capped(body, BODY_CAP_CHARS as int)
}

/// What is said of a request that the caller refused.
pub fn request_failure(path: &str, status: &str, body: &str) -> (message: String)
    ensures
        message@ == failure_words(path@, status@, body@),
{
    let mut message: String = path.to_string();
    message.append(" -> HTTP ");
    message.append(status);
    message.append(": ");
    message.append(&cap_to(body, BODY_CAP_CHARS));
    message
}

// ---------------------------------------------------------------------------
// Families
// ---------------------------------------------------------------------------

/// A list of sessions as it is seen.
pub open spec fn sessions_view(sessions: Seq<Session>) -> Seq<SessionView> {
    sessions.map_values(|session: Session| session@)
}

/// Session `i` of the list makes `a` and `b` parent and child.
pub open spec fn links(session: SessionView, a: SessionId, b: SessionId) -> bool {
    ||| session.id == a && session.parent_id == Some(b)
    ||| session.id == b && session.parent_id == Some(a)
}

/// `a` and `b` are parent and child.
pub open spec fn linked(sessions: Seq<SessionView>, a: SessionId, b: SessionId) -> bool {
    exists|i: int| 0 <= i < sessions.len() && links(#[trigger] sessions[i], a, b)
}

/// Each of these is the parent or the child of the one before it.
pub open spec fn is_walk(sessions: Seq<SessionView>, walk: Seq<SessionId>) -> bool {
    forall|k: int|
        0 < k < walk.len() ==> #[trigger] linked(sessions, walk[k - 1], walk[k])
}

/// A walk from `a` to `b`.
pub open spec fn joins(
    sessions: Seq<SessionView>,
    walk: Seq<SessionId>,
    a: SessionId,
    b: SessionId,
) -> bool {
    &&& walk.len() > 0
    &&& walk[0] == a
    &&& walk.last() == b
    &&& is_walk(sessions, walk)
}

/// `a` and `b` are of one family: there is a way from one to the other over
/// parents and children.
pub open spec fn related(sessions: Seq<SessionView>, a: SessionId, b: SessionId) -> bool {
    exists|walk: Seq<SessionId>| #[trigger] joins(sessions, walk, a, b)
}

/// Every session is of its own family.
pub proof fn families_hold_themselves(sessions: Seq<SessionView>, a: SessionId)
    ensures
        related(sessions, a, a),
{
    assert(joins(sessions, seq![a], a, a));
}

/// A parent or child of a member is a member.
pub proof fn families_hold_links(
    sessions: Seq<SessionView>,
    a: SessionId,
    b: SessionId,
    c: SessionId,
)
    requires
        related(sessions, a, b),
        linked(sessions, b, c),
    ensures
        related(sessions, a, c),
{
    let walk = choose|walk: Seq<SessionId>| #[trigger] joins(sessions, walk, a, b);
    let longer = walk.push(c);
    assert forall|k: int| 0 < k < longer.len() implies #[trigger] linked(
        sessions,
        longer[k - 1],
        longer[k],
    ) by {
        if k < walk.len() {
            assert(linked(sessions, walk[k - 1], walk[k]));
        }
    }
    assert(joins(sessions, longer, a, c));
}

/// Nothing outside a set that is closed under parents and children is reached
/// from inside it.
proof fn lemma_walk_stays(
    sessions: Seq<SessionView>,
    known: Seq<SessionId>,
    walk: Seq<SessionId>,
    k: int,
)
    requires
        is_walk(sessions, walk),
        0 <= k < walk.len(),
        known.contains(walk[0]),
        forall|i: int, a: SessionId, b: SessionId|
            0 <= i < sessions.len() && #[trigger] links(sessions[i], a, b) && known.contains(a)
                ==> known.contains(b),
    ensures
        known.contains(walk[k]),
    decreases k,
{
    if k > 0 {
        lemma_walk_stays(sessions, known, walk, k - 1);
        assert(linked(sessions, walk[k - 1], walk[k]));
        let i = choose|i: int|
            0 <= i < sessions.len() && links(#[trigger] sessions[i], walk[k - 1], walk[k]);
        assert(links(sessions[i], walk[k - 1], walk[k]));
    }
}

/// How many of these are still open.
spec fn open_count(done: Seq<bool>) -> nat
    decreases done.len(),
{
    if done.len() == 0 {
        0
    } else {
        open_count(done.drop_last()) + if done.last() {
            0nat
        } else {
            1
        }
    }
}

proof fn lemma_closing_counts(done: Seq<bool>, i: int)
    requires
        0 <= i < done.len(),
        !done[i],
    ensures
        open_count(done.update(i, true)) == open_count(done) - 1,
    decreases done.len(),
{
    if i == done.len() - 1 {
        assert(done.update(i, true).drop_last() =~= done.drop_last());
    } else {
        lemma_closing_counts(done.drop_last(), i);
        assert(done.update(i, true).drop_last() =~= done.drop_last().update(i, true));
    }
}

/// Whether an identifier is in a list.
fn is_among(ids: &Vec<SessionId>, id: SessionId) -> (yes: bool)
    ensures
        yes == ids@.contains(id),
{
    let mut i: usize = 0;
    while i < ids.len()
        invariant
            i <= ids@.len(),
            forall|k: int| 0 <= k < i ==> ids@[k] != id,
        decreases ids@.len() - i,
    {
        if ids[i] == id {
            return true;
        }
        i += 1;
    }
    false
}

/// What has been found of a family so far.
spec fn growing(
    sessions: Seq<SessionView>,
    me: SessionId,
    known: Seq<SessionId>,
    done: Seq<bool>,
) -> bool {
    &&& known.contains(me)
    &&& done.len() == sessions.len()
    &&& forall|k: int| 0 <= k < known.len() ==> related(sessions, me, #[trigger] known[k])
    &&& forall|i: int|
        0 <= i < done.len() && #[trigger] done[i] ==> known.contains(sessions[i].id) && (
        sessions[i].parent_id matches Some(parent) ==> known.contains(parent))
}

/// A session that touches what is known, and is not done yet.
spec fn touches(
    sessions: Seq<SessionView>,
    known: Seq<SessionId>,
    done: Seq<bool>,
    i: int,
) -> bool {
    !done[i] && (known.contains(sessions[i].id) || (sessions[i].parent_id matches Some(parent)
        && known.contains(parent)))
}

/// The next session that touches what is known.
fn next_touch(sessions: &Vec<Session>, known: &Vec<SessionId>, done: &Vec<bool>) -> (found: Option<
    usize,
>)
    requires
        done@.len() == sessions@.len(),
    ensures
        match found {
            Some(i) => i < sessions@.len() && touches(
                sessions_view(sessions@),
                known@,
                done@,
                i as int,
            ),
            None => forall|i: int|
                0 <= i < sessions@.len() ==> !#[trigger] touches(
                    sessions_view(sessions@),
                    known@,
                    done@,
                    i,
                ),
        },
{
    let ghost rows = sessions_view(sessions@);
    let mut i: usize = 0;
    while i < sessions.len()
        invariant
            i <= sessions@.len(),
            done@.len() == sessions@.len(),
            rows == sessions_view(sessions@),
            forall|k: int| 0 <= k < i ==> !#[trigger] touches(rows, known@, done@, k),
        decreases sessions@.len() - i,
    {
        assert(rows[i as int] == sessions@[i as int]@);
        let near: bool = is_among(known, sessions[i].id) || match sessions[i].parent_id {
            Some(parent) => is_among(known, parent),
            None => false,
        };
        if near && !done[i] {
            return Some(i);
        }
        i += 1;
    }
    None
}

/// The family of a session: its identifiers.
pub fn family(sessions: &Vec<Session>, me: SessionId) -> (known: Vec<SessionId>)
    ensures
        forall|id: SessionId|
            #[trigger] known@.contains(id) <==> related(sessions_view(sessions@), me, id),
{
    let ghost rows = sessions_view(sessions@);
    let mut known: Vec<SessionId> = Vec::new();
    known.push(me);
    let mut done: Vec<bool> = Vec::new();
    let mut i: usize = 0;
    while i < sessions.len()
        invariant
            i <= sessions@.len(),
            done@.len() == i,
            forall|k: int| 0 <= k < i ==> !done@[k],
        decreases sessions@.len() - i,
    {
        done.push(false);
        i += 1;
    }
    proof {
        families_hold_themselves(rows, me);
        assert(known@[0] == me);
    }
    loop
        invariant
            rows == sessions_view(sessions@),
            growing(rows, me, known@, done@),
        ensures
            growing(rows, me, known@, done@),
            forall|i: int|
                0 <= i < sessions@.len() ==> !#[trigger] touches(rows, known@, done@, i),
        decreases open_count(done@),
    {
        match next_touch(sessions, &known, &done) {
            None => {
                break;
            },
            Some(i) => {
                let ghost before = known@;
                let ghost was = done@;
                assert(rows[i as int] == sessions@[i as int]@);
                let id: SessionId = sessions[i].id;
                let ghost held = if known@.contains(id) {
                    id
                } else {
                    rows[i as int].parent_id->0
                };
                assert(related(rows, me, held)) by {
                    let k = choose|k: int| 0 <= k < before.len() && before[k] == held;
                    assert(related(rows, me, before[k]));
                }
                if !is_among(&known, id) {
                    proof {
                        assert(links(rows[i as int], held, id));
                        families_hold_links(rows, me, held, id);
                    }
                    known.push(id);
                }
                let ghost middle = known@;
                assert(middle.contains(id)) by {
                    if middle != before {
                        assert(middle.last() == id);
                    }
                }
                assert(related(rows, me, id));
                match sessions[i].parent_id {
                    Some(parent) => {
                        if !is_among(&known, parent) {
                            proof {
                                assert(links(rows[i as int], id, parent));
                                families_hold_links(rows, me, id, parent);
                            }
                            known.push(parent);
                        }
                        assert(known@.contains(parent)) by {
                            if known@ != middle {
                                assert(known@.last() == parent);
                            }
                        }
                    },
                    None => {},
                }
                done.set(i, true);
                proof {
                    lemma_closing_counts(was, i as int);
                    assert forall|x: SessionId| before.contains(x) implies known@.contains(x) by {
                        let k = choose|k: int| 0 <= k < before.len() && before[k] == x;
                        assert(known@[k] == x);
                    }
                    assert forall|x: SessionId| middle.contains(x) implies known@.contains(x) by {
                        let k = choose|k: int| 0 <= k < middle.len() && middle[k] == x;
                        assert(known@[k] == x);
                    }
                    assert forall|j: int|
                        0 <= j < done@.len() && #[trigger] done@[j] implies known@.contains(
                        rows[j].id,
                    ) && (rows[j].parent_id matches Some(parent) ==> known@.contains(parent)) by {
                        if j != i {
                            assert(was[j]);
                        }
                    }
                }
            },
        }
    }
    proof {
        assert forall|id: SessionId| #[trigger] known@.contains(id) <==> related(rows, me, id) by {
            if known@.contains(id) {
                let k = choose|k: int| 0 <= k < known@.len() && known@[k] == id;
                assert(related(rows, me, known@[k]));
            }
            if related(rows, me, id) {
                let walk = choose|walk: Seq<SessionId>| #[trigger] joins(rows, walk, me, id);
                assert forall|i: int, a: SessionId, b: SessionId|
                    0 <= i < rows.len() && #[trigger] links(rows[i], a, b) && known@.contains(
                        a,
                    ) implies known@.contains(b) by {
                    assert(!touches(rows, known@, done@, i));
                    assert(done@[i]);
                }
                lemma_walk_stays(rows, known@, walk, walk.len() - 1);
            }
        }
    }
    known
}

// ---------------------------------------------------------------------------
// spawn_subagent
// ---------------------------------------------------------------------------

/// What a spawn is asked for.
#[derive(Debug)]
pub struct SpawnArgs {
    pub harness: Harness,
    pub model: String,
    pub prompt: String,
    pub wait: bool,
    pub effort: Option<String>,
    pub repo: Option<String>,
    pub name: Option<String>,
}

/// The view of a spawn.
pub struct SpawnView {
    pub harness: Harness,
    pub model: Seq<char>,
    pub prompt: Seq<char>,
    pub wait: bool,
    pub effort: Option<Seq<char>>,
    pub repo: Option<Seq<char>>,
    pub name: Option<Seq<char>>,
}

impl View for SpawnArgs {
    type V = SpawnView;

    open spec fn view(&self) -> SpawnView {
        SpawnView {
            harness: self.harness,
            model: self.model@,
            prompt: self.prompt@,
            wait: self.wait,
            effort: text::opt_text(self.effort),
            repo: text::opt_text(self.repo),
            name: text::opt_text(self.name),
        }
    }
}

/// A text argument that is more than blanks.
pub open spec fn given(args: JsonView, key: Seq<char>) -> Option<Seq<char>> {
    match json::text_in(json::member(args, key)) {
        Some(text) => if text::is_blank(text) {
            None
        } else {
            Some(text)
        },
        None => None,
    }
}

/// A text argument that is more than blanks.
fn given_text(args: &Json, key: &str) -> (text: Option<String>)
    ensures
        text::opt_text(text) == given(args@, key@),
{
    match args.text_at(key) {
        Some(text) => if text::blank(&text) {
            None
        } else {
            Some(text)
        },
        None => None,
    }
}

/// What a spawn is asked for, or what is missing.
pub open spec fn spawn_of(args: JsonView) -> Result<SpawnView, Seq<char>> {
    match json::text_in(json::member(args, "harness"@)) {
        None => Err("harness is required"@),
        Some(name) => match mcp::harness_named(name) {
            None => Err(mcp::unknown_harness(name)),
            Some(harness) => match (given(args, "model"@), given(args, "prompt"@)) {
                (None, _) => Err("model is required"@),
                (_, None) => Err("prompt is required"@),
                (Some(model), Some(prompt)) => Ok(
                    SpawnView {
                        harness,
                        model,
                        prompt,
                        wait: match json::flag_in(json::member(args, "wait"@)) {
                            Some(wait) => wait,
                            None => true,
                        },
                        effort: given(args, "effort"@),
                        repo: given(args, "repo"@),
                        name: given(args, "name"@),
                    },
                ),
            },
        },
    }
}

/// Reads the arguments of a spawn.
pub fn spawn_args(args: &Json) -> (spawn: Result<SpawnArgs, String>)
    ensures
        match spawn {
            Ok(spawn) => spawn_of(args@) == Ok::<SpawnView, Seq<char>>(spawn@),
            Err(message) => spawn_of(args@) == Err::<SpawnView, Seq<char>>(message@),
        },
{
    let harness: Harness = match args.text_at("harness") {
        Some(name) => match mcp::parse_harness(&name) {
            Ok(harness) => harness,
            Err(message) => {
                return Err(message);
            },
        },
        None => {
            return Err("harness is required".to_string());
        },
    };
    let model: String = match given_text(args, "model") {
        Some(model) => model,
        None => {
            return Err("model is required".to_string());
        },
    };
    let prompt: String = match given_text(args, "prompt") {
        Some(prompt) => prompt,
        None => {
            return Err("prompt is required".to_string());
        },
    };
    let wait: bool = match args.flag_at("wait") {
        Some(wait) => wait,
        None => true,
    };
    Ok(
        SpawnArgs {
            harness,
            model,
            prompt,
            wait,
            effort: given_text(args, "effort"),
            repo: given_text(args, "repo"),
            name: given_text(args, "name"),
        },
    )
}

/// How many minutes a spawn waits: between one and the longest wait.
pub open spec fn wait_of(asked: Option<u64>) -> u64 {
    match asked {
        None => DEFAULT_WAIT_MINUTES,
        Some(minutes) => if minutes < 1 {
            1
        } else if minutes > MAX_WAIT_MINUTES {
            MAX_WAIT_MINUTES
        } else {
            minutes
        },
    }
}

/// How many minutes a spawn waits, given the whole minutes asked for.
pub fn wait_minutes(asked: Option<u64>) -> (minutes: u64)
    ensures
        minutes == wait_of(asked),
        1 <= minutes <= MAX_WAIT_MINUTES,
{
    match asked {
        None => DEFAULT_WAIT_MINUTES,
        Some(minutes) => if minutes < 1 {
            1
        } else if minutes > MAX_WAIT_MINUTES {
            MAX_WAIT_MINUTES
        } else {
            minutes
        },
    }
}

/// The child that a spawn creates: on the lane asked for, in the parent's
/// repository unless the call names another, and without leave to push.
pub open spec fn child_of(spawn: SpawnView, parent: SessionView) -> CreateSessionView {
    CreateSessionView {
        title: match spawn.name {
            Some(name) => name,
            None => "sub-agent: "@ + spawn.model,
        },
        lane: Some(
            LaneView { harness: spawn.harness, model: spawn.model, effort: spawn.effort },
        ),
        profile: Some(
            ProfileView {
                repo_url: match spawn.repo {
                    Some(repo) => Some(repo),
                    None => parent.profile.repo_url,
                },
                base_branch: parent.profile.base_branch,
                allow_push: false,
            },
        ),
        parent_id: Some(parent.id),
    }
}

/// The child that a spawn creates.
pub fn child_request(spawn: &SpawnArgs, parent: &Session) -> (request: CreateSessionRequest)
    ensures
        request@ == child_of(spawn@, parent@),
{
    let title: String = match &spawn.name {
        Some(name) => name.clone(),
        None => {
            let mut title: String = "sub-agent: ".to_string();
            title.append(&spawn.model);
            title
        },
    };
    let repo_url: Option<String> = match &spawn.repo {
        Some(repo) => Some(repo.clone()),
        None => text::clone_opt(&parent.profile.repo_url),
    };
    CreateSessionRequest {
        title,
        lane: Some(
            Lane {
                harness: spawn.harness,
                model: spawn.model.clone(),
                effort: text::clone_opt(&spawn.effort),
            },
        ),
        profile: Some(
            SessionProfile {
                repo_url,
                base_branch: text::clone_opt(&parent.profile.base_branch),
                allow_push: false,
            },
        ),
        parent_id: Some(parent.id),
    }
}

/// Children never push, whatever their parent may do and whatever the call
/// asks for.
pub proof fn children_never_push(spawn: SpawnView, parent: SessionView)
    ensures
        child_of(spawn, parent).profile matches Some(profile) && !profile.allow_push,
{
}

/// A child and its title.
pub open spec fn child_name(child: SessionView) -> Seq<char> {
    "child session "@ + outside::id_text(child.id) + " ("@ + child.title + ")"@
}

/// A child and its title.
fn child_label(child: &Session) -> (label: String)
    ensures
        label@ == child_name(child@),
{
    let mut label: String = "child session ".to_string();
    label.append(&outside::written_id(child.id));
    label.append(" (");
    label.append(&child.title);
    label.append(")");
    label
}

/// The answer of a spawn that does not wait.
pub open spec fn spawned_words(
    child: SessionView,
    harness: Harness,
    model: Seq<char>,
    turn: TurnId,
) -> Seq<char> {
    "spawned "@ + child_name(child) + " on "@ + names::name_of(harness) + " "@ + model + "; turn "@
        + outside::id_text(turn) + " queued. Collect the answer with read_session."@
}

/// The answer of a spawn that does not wait.
pub fn spawned(child: &Session, harness: Harness, model: &str, turn: TurnId) -> (words: String)
    ensures
        words@ == spawned_words(child@, harness, model@, turn),
{
    let mut words: String = "spawned ".to_string();
    words.append(&child_label(child));
    words.append(" on ");
    words.append(&names::harness_name(harness));
    words.append(" ");
    words.append(model);
    words.append("; turn ");
    words.append(&outside::written_id(turn));
    words.append(" queued. Collect the answer with read_session.");
    words
}

/// A turn's status as it is shown.
pub open spec fn status_name(status: TurnStatus) -> Seq<char> {
    match status {
        TurnStatus::Queued => "Queued"@,
        TurnStatus::Claimed => "Claimed"@,
        TurnStatus::Working => "Working"@,
        TurnStatus::Done => "Done"@,
        TurnStatus::Error => "Error"@,
        TurnStatus::Capped => "Capped"@,
        TurnStatus::Cancelled => "Cancelled"@,
    }
}

/// A turn's status as it is shown.
pub fn status_word(status: TurnStatus) -> (word: &'static str)
    ensures
        word@ == status_name(status),
{
    match status {
        TurnStatus::Queued => "Queued",
        TurnStatus::Claimed => "Claimed",
        TurnStatus::Working => "Working",
        TurnStatus::Done => "Done",
        TurnStatus::Error => "Error",
        TurnStatus::Capped => "Capped",
        TurnStatus::Cancelled => "Cancelled",
    }
}

/// The place of the first turn of this identifier; the number of turns where
/// there is none.
pub open spec fn first_turn(turns: Seq<TurnView>, id: TurnId) -> int
    decreases turns.len(),
{
    if turns.len() == 0 {
        0
    } else if turns[0].id == id {
        0
    } else {
        1 + first_turn(turns.drop_first(), id)
    }
}

/// What a child's turn says once it is over; nothing before that.
pub open spec fn ended_words(
    child: SessionView,
    harness: Harness,
    model: Seq<char>,
    turn: TurnView,
) -> Option<Seq<char>> {
    match turn.status {
        TurnStatus::Done => Some(
            child_name(child) + " on "@ + names::name_of(harness) + " "@ + model + " finished.\n\n"@
                + capped(
                match turn.envelope {
                    Some(envelope) => envelope.body_markdown,
                    None => Seq::empty(),
                },
                REPLY_CAP_CHARS as int,
            ),
        ),
        TurnStatus::Error | TurnStatus::Capped | TurnStatus::Cancelled => Some(
            child_name(child) + " ended with status "@ + status_name(turn.status) + ": "@ + (
            match turn.error {
                Some(error) => error,
                None => Seq::empty(),
            }),
        ),
        _ => None,
    }
}

/// What a waiting spawn answers after a look at the child's turns: its answer
/// where the turn is over, else that it is still running where the time is up,
/// else nothing yet.
pub open spec fn wait_words(
    turns: Seq<TurnView>,
    turn: TurnId,
    child: SessionView,
    harness: Harness,
    model: Seq<char>,
    late: bool,
    minutes: u64,
) -> Option<Seq<char>> {
    let at = first_turn(turns, turn);
    let ended = if at < turns.len() {
        ended_words(child, harness, model, turns[at])
    } else {
        None
    };
    if ended is Some {
        ended
    } else if late {
        Some(
            child_name(child) + " is still running after "@ + text::decimal(minutes as nat)
                + " minutes; read_session later to collect its answer."@,
        )
    } else {
        None
    }
}

/// A list of turns as it is seen.
pub open spec fn turns_view(turns: Seq<Turn>) -> Seq<TurnView> {
    turns.map_values(|turn: Turn| turn@)
}

proof fn lemma_first_turn(turns: Seq<TurnView>, id: TurnId, at: int)
    requires
        0 <= at <= turns.len(),
        forall|k: int| 0 <= k < at ==> turns[k].id != id,
        at < turns.len() ==> turns[at].id == id,
    ensures
        first_turn(turns, id) == at,
    decreases turns.len(),
{
    if turns.len() > 0 && at > 0 {
        assert(turns[0].id != id);
        lemma_first_turn(turns.drop_first(), id, at - 1);
    }
}

/// What a child's turn says once it is over.
fn ended(child: &Session, harness: Harness, model: &str, turn: &Turn) -> (words: Option<String>)
    ensures
        text::opt_text(words) == ended_words(child@, harness, model@, turn@),
{
    match turn.status {
        TurnStatus::Done => {
            let mut words: String = child_label(child);
            words.append(" on ");
            words.append(&names::harness_name(harness));
            words.append(" ");
            words.append(model);
            words.append(" finished.\n\n");
            match &turn.envelope {
                Some(envelope) => {
                    words.append(&cap(&envelope.body_markdown));
                },
                None => {
                    assert(capped(Seq::empty(), REPLY_CAP_CHARS as int) =~= Seq::empty());
                    assert(words@ + Seq::<char>::empty() =~= words@);
                },
            }
            Some(words)
        },
        TurnStatus::Error | TurnStatus::Capped | TurnStatus::Cancelled => {
            let mut words: String = child_label(child);
            words.append(" ended with status ");
            words.append(status_word(turn.status));
            words.append(": ");
            match &turn.error {
                Some(error) => {
                    words.append(error);
                },
                None => {
                    assert(words@ + Seq::<char>::empty() =~= words@);
                },
            }
            Some(words)
        },
        TurnStatus::Queued | TurnStatus::Claimed | TurnStatus::Working => None,
    }
}

/// What a waiting spawn answers after a look at the child's turns.
pub fn waited(
    turns: &Vec<Turn>,
    turn: TurnId,
    child: &Session,
    harness: Harness,
    model: &str,
    late: bool,
    minutes: u64,
) -> (words: Option<String>)
    ensures
        text::opt_text(words) == wait_words(
            turns_view(turns@),
            turn,
            child@,
            harness,
            model@,
            late,
            minutes,
        ),
{
    let ghost rows = turns_view(turns@);
    let mut i: usize = 0;
    while i < turns.len() && turns[i].id != turn
        invariant
            i <= turns@.len(),
            rows == turns_view(turns@),
            forall|k: int| 0 <= k < i ==> rows[k].id != turn,
        decreases turns@.len() - i,
    {
        assert(rows[i as int] == turns@[i as int]@);
        i += 1;
    }
    if i < turns.len() {
        assert(rows[i as int] == turns@[i as int]@);
    }
    proof {
        lemma_first_turn(rows, turn, i as int);
    }
    if i < turns.len() {
        let words: Option<String> = ended(child, harness, model, &turns[i]);
        if words.is_some() {
            return words;
        }
    }
    if !late {
        return None;
    }
    let mut words: String = child_label(child);
    words.append(" is still running after ");
    words.append(&text::decimal_text(minutes));
    words.append(" minutes; read_session later to collect its answer.");
    Some(words)
}

// ---------------------------------------------------------------------------
// list_sessions
// ---------------------------------------------------------------------------

/// A session's status as it is sent.
pub open spec fn session_status_name(status: SessionStatus) -> Seq<char> {
    match status {
        SessionStatus::Active => "active"@,
        SessionStatus::Archived => "archived"@,
    }
}

/// What is listed of one session.
pub open spec fn row_of(session: SessionView, me: SessionId) -> JsonView {
    JsonView::Object(
        seq![
            ("id"@, JsonView::Text(outside::id_text(session.id))),
            ("title"@, JsonView::Text(session.title)),
            ("harness"@, JsonView::Text(names::name_of(session.lane.harness))),
            ("model"@, JsonView::Text(session.lane.model)),
            ("status"@, JsonView::Text(session_status_name(session.status))),
            (
                "parent_id"@,
                match session.parent_id {
                    Some(parent) => JsonView::Text(outside::id_text(parent)),
                    None => JsonView::Null,
                },
            ),
            ("is_child_of_you"@, JsonView::Bool(session.parent_id == Some(me))),
        ],
    )
}

/// What is listed of one session.
fn make_row(session: &Session, me: SessionId) -> (row: Json)
    ensures
        row@ == row_of(session@, me),
{
    let mut members: Vec<(String, Json)> = json::no_members();
    json::add_member(&mut members, "id", json::string(&outside::written_id(session.id)));
    json::add_member(&mut members, "title", json::string(&session.title));
    json::add_member(
        &mut members,
        "harness",
        json::string(&names::harness_name(session.lane.harness)),
    );
    json::add_member(&mut members, "model", json::string(&session.lane.model));
    json::add_member(
        &mut members,
        "status",
        json::string(
            match session.status {
                SessionStatus::Active => "active",
                SessionStatus::Archived => "archived",
            },
        ),
    );
    let parent: Json = match session.parent_id {
        Some(parent) => json::string(&outside::written_id(parent)),
        None => Json::Null,
    };
    let child_of_me: bool = match session.parent_id {
        Some(parent) => parent == me,
        None => false,
    };
    json::add_member(&mut members, "parent_id", parent);
    json::add_member(&mut members, "is_child_of_you", Json::Bool(child_of_me));
    assert(json::members_view(members@) =~= row_of(session@, me)->Object_0);
    json::object(members)
}

/// The rows of the first `n` sessions: the active ones of the family.
pub open spec fn rows_of(
    sessions: Seq<SessionView>,
    me: SessionId,
    n: int,
) -> Seq<JsonView>
    decreases n,
{
    if n <= 0 {
        Seq::empty()
    } else {
        let rest = rows_of(sessions, me, n - 1);
        let session = sessions[n - 1];
        if session.status == SessionStatus::Active && related(sessions, me, session.id) {
            rest.push(row_of(session, me))
        } else {
            rest
        }
    }
}

/// What `list_sessions` shows, of all the sessions that there are: the active
/// ones of this session's family, in their order.
pub fn family_rows(sessions: &Vec<Session>, me: SessionId) -> (rows: Json)
    ensures
        rows@ == JsonView::Array(
            rows_of(sessions_view(sessions@), me, sessions@.len() as int),
        ),
{
    let ghost views = sessions_view(sessions@);
    let known: Vec<SessionId> = family(sessions, me);
    let mut items: Vec<Json> = json::no_items();
    let mut i: usize = 0;
    assert(json::items_view(items@) =~= rows_of(views, me, 0));
    while i < sessions.len()
        invariant
            i <= sessions@.len(),
            views == sessions_view(sessions@),
            forall|id: SessionId|
                #[trigger] known@.contains(id) <==> related(views, me, id),
            json::items_view(items@) == rows_of(views, me, i as int),
        decreases sessions@.len() - i,
    {
        assert(views[i as int] == sessions@[i as int]@);
        if sessions[i].status == SessionStatus::Active && is_among(&known, sessions[i].id) {
            json::add_item(&mut items, make_row(&sessions[i], me));
        }
        i += 1;
    }
    json::array(items)
}

// ---------------------------------------------------------------------------
// read_session
// ---------------------------------------------------------------------------

/// The session that `read_session` is asked for.
pub open spec fn target_of(args: JsonView) -> Result<SessionId, Seq<char>> {
    match json::text_in(json::member(args, "session_id"@)) {
        None => Err("session_id is required"@),
        Some(text) => match outside::id_in(text) {
            Ok(id) => Ok(id),
            Err(message) => Err("session_id must be a uuid: "@ + message),
        },
    }
}

/// What follows from parsing the identifier.
pub fn target_from(parsed: Result<SessionId, String>) -> (target: Result<SessionId, String>)
    ensures
        match parsed {
            Ok(id) => target == Ok::<SessionId, String>(id),
            Err(message) => target matches Err(error) && error@ == "session_id must be a uuid: "@
                + message@,
        },
{
    match parsed {
        Ok(id) => Ok(id),
        Err(message) => {
            let mut error: String = "session_id must be a uuid: ".to_string();
            error.append(&message);
            Err(error)
        },
    }
}

/// The session that `read_session` is asked for.
pub fn read_target(args: &Json) -> (target: Result<SessionId, String>)
    ensures
        outside::id_result(target) == target_of(args@),
{
    match args.text_at("session_id") {
        None => Err("session_id is required".to_string()),
        Some(text) => target_from(outside::parse_id(&text)),
    }
}

/// Whether a session may be read: only those of the family.
pub fn may_read(sessions: &Vec<Session>, me: SessionId, target: SessionId) -> (allowed: Result<
    (),
    String,
>)
    ensures
        match allowed {
            Ok(()) => related(sessions_view(sessions@), me, target),
            Err(message) => !related(sessions_view(sessions@), me, target) && message@
                == "session "@ + outside::id_text(target) + " is not of this session's family"@,
        },
{
    let known: Vec<SessionId> = family(sessions, me);
    if is_among(&known, target) {
        return Ok(());
    }
    let mut message: String = "session ".to_string();
    message.append(&outside::written_id(target));
    message.append(" is not of this session's family");
    Err(message)
}

/// The first line of a session that is read.
pub open spec fn heading_of(session: SessionView) -> Seq<char> {
    "session "@ + outside::id_text(session.id) + " ("@ + session.title + ") on "@ + names::name_of(
        session.lane.harness,
    ) + " "@ + session.lane.model + " status "@ + (match session.status {
        SessionStatus::Active => "Active"@,
        SessionStatus::Archived => "Archived"@,
    }) + "\n"@
}

/// What is shown of one turn.
pub open spec fn turn_words(turn: TurnView) -> Seq<char> {
    "\n--- turn "@ + text::signed_decimal(turn.seq as int) + " ["@ + status_name(turn.status)
        + "]\ninput: "@ + capped(turn.input, FIELD_CAP_CHARS as int) + "\n"@ + (
    match turn.envelope {
        Some(envelope) => "reply: "@ + capped(envelope.body_markdown, REPLY_CAP_CHARS as int)
            + "\n"@,
        None => Seq::empty(),
    }) + (match turn.error {
        Some(error) => "error: "@ + capped(error, FIELD_CAP_CHARS as int) + "\n"@,
        None => Seq::empty(),
    })
}

/// What is shown of the first `n` turns.
pub open spec fn turns_words(turns: Seq<TurnView>, n: int) -> Seq<char>
    decreases n,
{
    if n <= 0 {
        Seq::empty()
    } else {
        turns_words(turns, n - 1) + turn_words(turns[n - 1])
    }
}

/// What is shown of one turn.
fn turn_text(turn: &Turn) -> (words: String)
    ensures
        words@ == turn_words(turn@),
{
    let mut words: String = "\n--- turn ".to_string();
    words.append(&text::signed_text(turn.seq));
    words.append(" [");
    words.append(status_word(turn.status));
    words.append("]\ninput: ");
    words.append(&cap_to(&turn.input, FIELD_CAP_CHARS));
    words.append("\n");
    let mut reply: String = String::new();
    match &turn.envelope {
        Some(envelope) => {
            reply = "reply: ".to_string();
            reply.append(&cap(&envelope.body_markdown));
            reply.append("\n");
        },
        None => {
            assert(reply@ =~= Seq::empty());
        },
    }
    words.append(&reply);
    let mut failure: String = String::new();
    match &turn.error {
        Some(error) => {
            failure = "error: ".to_string();
            failure.append(&cap_to(error, FIELD_CAP_CHARS));
            failure.append("\n");
        },
        None => {
            assert(failure@ =~= Seq::empty());
        },
    }
    words.append(&failure);
    words
}

/// What `read_session` shows: the session's lane, and every turn's input,
/// status and reply.
pub fn session_text(session: &Session, turns: &Vec<Turn>) -> (words: String)
    ensures
        words@ == heading_of(session@) + turns_words(turns_view(turns@), turns@.len() as int),
{
    let ghost rows = turns_view(turns@);
    let mut words: String = "session ".to_string();
    words.append(&outside::written_id(session.id));
    words.append(" (");
    words.append(&session.title);
    words.append(") on ");
    words.append(&names::harness_name(session.lane.harness));
    words.append(" ");
    words.append(&session.lane.model);
    words.append(" status ");
    words.append(
        match session.status {
            SessionStatus::Active => "Active",
            SessionStatus::Archived => "Archived",
        },
    );
    words.append("\n");
    let ghost head = words@;
    assert(head == heading_of(session@));
    assert(words@ =~= head + turns_words(rows, 0));
    let mut i: usize = 0;
    while i < turns.len()
        invariant
            i <= turns@.len(),
            rows == turns_view(turns@),
            words@ == head + turns_words(rows, i as int),
        decreases turns@.len() - i,
    {
        assert(rows[i as int] == turns@[i as int]@);
        let ghost before = words@;
        words.append(&turn_text(&turns[i]));
        assert(before + turn_words(rows[i as int]) =~= head + (turns_words(rows, i as int)
            + turn_words(rows[i as int])));
        i += 1;
    }
    words
}

} // verus!
