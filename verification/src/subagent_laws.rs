//! What the tools of a harness are for: a child on the lane that was named,
//! its answer, and a look at the family.

use vstd::prelude::*;

use crate::json;
use crate::json::JsonView;
use crate::mcp;
use crate::mcp::{Handled, Incoming, RpcErrorView, Tool};
use crate::names;
use crate::outside;
use crate::protocol::{Harness, SessionId, SessionStatus, TurnId, TurnStatus};
use crate::protocol::{ModelView, SessionView, TurnView};
use crate::subagents;
use crate::subagents::SpawnView;
use crate::text;

verus! {

// ---------------------------------------------------------------------------
// Spawning
// ---------------------------------------------------------------------------

/// The text of an argument.
pub open spec fn argument(args: JsonView, key: Seq<char>) -> Option<Seq<char>> {
    match json::member(args, key) {
        Some(JsonView::Text(text)) => Some(text),
        _ => None,
    }
}

/// A child is spawned as the call says: on the harness, model and effort that
/// it names, with its prompt, waiting for the answer unless it says not to.
pub proof fn a_call_is_taken_at_its_word(args: JsonView, spawn: SpawnView)
    requires
        subagents::spawn_of(args) == Ok::<SpawnView, Seq<char>>(spawn),
    ensures
        argument(args, "model"@) == Some(spawn.model),
        argument(args, "prompt"@) == Some(spawn.prompt),
        argument(args, "harness"@) is Some,
        mcp::harness_named(argument(args, "harness"@)->0) == Some(spawn.harness),
        !text::is_blank(spawn.model),
        !text::is_blank(spawn.prompt),
        spawn.effort is Some ==> argument(args, "effort"@) == spawn.effort,
        argument(args, "effort"@) matches Some(effort) ==> text::is_blank(effort) || spawn.effort
            == Some(effort),
        spawn.repo is Some ==> argument(args, "repo"@) == spawn.repo,
        argument(args, "repo"@) matches Some(repo) ==> text::is_blank(repo) || spawn.repo == Some(
            repo,
        ),
        spawn.name is Some ==> argument(args, "name"@) == spawn.name,
        argument(args, "name"@) matches Some(name) ==> text::is_blank(name) || spawn.name == Some(
            name,
        ),
        spawn.wait <==> json::member(args, "wait"@) != Some(JsonView::Bool(false)),
{
}

/// Without a known harness, a model and a prompt there is no child; with them
/// there is one.
pub proof fn a_call_needs_a_lane_and_a_prompt(args: JsonView)
    ensures
        subagents::spawn_of(args) is Ok <==> argument(args, "harness"@) is Some
            && mcp::harness_named(argument(args, "harness"@)->0) is Some && argument(
            args,
            "model"@,
        ) is Some && !text::is_blank(argument(args, "model"@)->0) && argument(
            args,
            "prompt"@,
        ) is Some && !text::is_blank(argument(args, "prompt"@)->0),
{
}

/// The child's lane is the one that the call named, whatever its parent runs
/// on.
pub proof fn children_run_on_the_named_lane(
    args: JsonView,
    spawn: SpawnView,
    parent: SessionView,
    other: SessionView,
)
    requires
        subagents::spawn_of(args) == Ok::<SpawnView, Seq<char>>(spawn),
    ensures
        ({
            let lane = subagents::child_of(spawn, parent).lane;
            &&& lane is Some
            &&& lane == subagents::child_of(spawn, other).lane
            &&& argument(args, "model"@) == Some(lane->0.model)
            &&& mcp::harness_named(argument(args, "harness"@)->0) == Some(lane->0.harness)
            &&& lane->0.effort is Some ==> argument(args, "effort"@) == lane->0.effort
            &&& lane->0.effort is None ==> argument(args, "effort"@) is None || text::is_blank(
                argument(args, "effort"@)->0,
            )
        }),
{
    a_call_is_taken_at_its_word(args, spawn);
}

/// A child hangs off the session that spawned it, and works on the repository
/// that the call names or else on its parent's.
pub proof fn children_hang_off_their_parent(spawn: SpawnView, parent: SessionView)
    ensures
        ({
            let child = subagents::child_of(spawn, parent);
            &&& child.parent_id == Some(parent.id)
            &&& child.profile is Some
            &&& spawn.repo is Some ==> child.profile->0.repo_url == spawn.repo
            &&& spawn.repo is None ==> child.profile->0.repo_url == parent.profile.repo_url
            &&& child.profile->0.base_branch == parent.profile.base_branch
            &&& !child.profile->0.allow_push
            &&& spawn.name is Some ==> child.title == spawn.name->0
            &&& spawn.name is None ==> text::holds(child.title, spawn.model)
        }),
{
    let title = "sub-agent: "@ + spawn.model;
    text::parts_are_held("sub-agent: "@, spawn.model, Seq::empty());
    assert("sub-agent: "@ + spawn.model + Seq::<char>::empty() =~= title);
}

/// A call waits for as long as it asked: a minute at least, twenty at most, and
/// twenty where it does not say.
pub proof fn waits_are_as_asked(asked: Option<u64>)
    ensures
        1 <= subagents::wait_of(asked) <= 20,
        asked is None ==> subagents::wait_of(asked) == 20,
        asked matches Some(minutes) ==> (1 <= minutes <= 20 ==> subagents::wait_of(asked)
            == minutes),
        asked matches Some(minutes) ==> (minutes > 20 ==> subagents::wait_of(asked) == 20),
{
}

// ---------------------------------------------------------------------------
// The answer
// ---------------------------------------------------------------------------

proof fn lemma_held_last(front: Seq<char>, part: Seq<char>)
    ensures
        text::holds(front + part, part),
{
    text::parts_are_held(front, part, Seq::empty());
    assert(front + part + Seq::<char>::empty() =~= front + part);
}

proof fn lemma_held_more(s: Seq<char>, more: Seq<char>, part: Seq<char>)
    requires
        text::holds(s, part),
    ensures
        text::holds(s + more, part),
{
    text::parts_are_held(Seq::empty(), s, more);
    assert(Seq::<char>::empty() + s + more =~= s + more);
    text::parts_of_parts_are_held(s + more, s, part);
}

/// A text that fits is kept as it is; a longer one is cut at the limit, and
/// says so.
pub proof fn long_texts_are_cut(s: Seq<char>, max: int)
    requires
        0 <= max,
    ensures
        s.len() <= max ==> subagents::capped(s, max) == s,
        s.len() > max ==> s.take(max).is_prefix_of(subagents::capped(s, max)) && text::holds(
            subagents::capped(s, max),
            "truncated"@,
        ),
{
    if s.len() > max {
        let cut = subagents::capped(s, max);
        assert(cut.take(max) =~= s.take(max));
        reveal_strlit("\n...[truncated]");
        reveal_strlit("truncated");
        assert("\n...[truncated]"@.subrange(5, 14) =~= "truncated"@);
        assert(text::occurs_at("\n...[truncated]"@, "truncated"@, 5));
        lemma_held_last(s.take(max), "\n...[truncated]"@);
        text::parts_of_parts_are_held(cut, "\n...[truncated]"@, "truncated"@);
    }
}

/// A child that is done answers with its reply; one that failed answers with
/// its error; one that is still at it answers nothing.
pub proof fn children_answer_when_they_end(
    child: SessionView,
    harness: Harness,
    model: Seq<char>,
    turn: TurnView,
)
    ensures
        ({
            let words = subagents::ended_words(child, harness, model, turn);
            &&& words is Some <==> turn.status == TurnStatus::Done || turn.status
                == TurnStatus::Error || turn.status == TurnStatus::Capped || turn.status
                == TurnStatus::Cancelled
            &&& turn.status == TurnStatus::Done && turn.envelope is Some
                && turn.envelope->0.body_markdown.len() <= 12_000 ==> text::holds(
                words->0,
                turn.envelope->0.body_markdown,
            )
            &&& words is Some && turn.status != TurnStatus::Done && turn.error is Some
                ==> text::holds(words->0, turn.error->0)
            &&& words is Some ==> text::holds(words->0, outside::id_text(child.id))
        }),
{
    let name = subagents::child_name(child);
    let id = outside::id_text(child.id);
    text::parts_are_held("child session "@, id, " ("@ + child.title + ")"@);
    assert("child session "@ + id + (" ("@ + child.title + ")"@) =~= name);
    if turn.status == TurnStatus::Done {
        let h = names::name_of(harness);
        let body = match turn.envelope {
            Some(envelope) => envelope.body_markdown,
            None => Seq::empty(),
        };
        let front = name + " on "@ + h + " "@ + model + " finished.\n\n"@;
        lemma_held_last(front, subagents::capped(body, 12_000));
        lemma_held_more(name, " on "@, id);
        lemma_held_more(name + " on "@, h, id);
        lemma_held_more(name + " on "@ + h, " "@, id);
        lemma_held_more(name + " on "@ + h + " "@, model, id);
        lemma_held_more(name + " on "@ + h + " "@ + model, " finished.\n\n"@, id);
        lemma_held_more(front, subagents::capped(body, 12_000), id);
    } else {
        let status = subagents::status_name(turn.status);
        let error = match turn.error {
            Some(error) => error,
            None => Seq::empty(),
        };
        let front = name + " ended with status "@ + status + ": "@;
        lemma_held_last(front, error);
        lemma_held_more(name, " ended with status "@, id);
        lemma_held_more(name + " ended with status "@, status, id);
        lemma_held_more(name + " ended with status "@ + status, ": "@, id);
        lemma_held_more(front, error, id);
    }
}

proof fn lemma_first_turn(turns: Seq<TurnView>, id: TurnId, i: int)
    requires
        0 <= i < turns.len(),
        turns[i].id == id,
        forall|m: int| 0 <= m < i ==> (#[trigger] turns[m]).id != id,
    ensures
        subagents::first_turn(turns, id) == i,
    decreases turns.len(),
{
    if i > 0 {
        assert(turns[0].id != id);
        let rest = turns.drop_first();
        assert(rest[i - 1] == turns[i]);
        assert forall|m: int| 0 <= m < i - 1 implies (#[trigger] rest[m]).id != id by {
            assert(rest[m] == turns[m + 1]);
        }
        lemma_first_turn(rest, id, i - 1);
    }
}

/// A call that waits answers as soon as the child's turn has ended, with its
/// end; before that only where it waited long enough.
pub proof fn a_call_waits_for_its_own_turn(
    turns: Seq<TurnView>,
    id: TurnId,
    i: int,
    child: SessionView,
    harness: Harness,
    model: Seq<char>,
    late: bool,
    minutes: u64,
)
    requires
        0 <= i < turns.len(),
        turns[i].id == id,
        forall|m: int| 0 <= m < i ==> (#[trigger] turns[m]).id != id,
    ensures
        ({
            let words = subagents::wait_words(turns, id, child, harness, model, late, minutes);
            let ended = subagents::ended_words(child, harness, model, turns[i]);
            &&& ended is Some ==> words == ended
            &&& ended is None && !late ==> words is None
            &&& ended is None && late ==> words is Some
        }),
{
    lemma_first_turn(turns, id, i);
}

// ---------------------------------------------------------------------------
// The family
// ---------------------------------------------------------------------------

/// Who is of my family has me in theirs.
pub proof fn families_are_mutual(sessions: Seq<SessionView>, a: SessionId, b: SessionId)
    requires
        subagents::related(sessions, a, b),
    ensures
        subagents::related(sessions, b, a),
{
    let walk = choose|walk: Seq<SessionId>| #[trigger] subagents::joins(sessions, walk, a, b);
    let n = walk.len() as int;
    let back = Seq::new(walk.len(), |k: int| walk[n - 1 - k]);
    assert forall|k: int| 0 < k < back.len() implies #[trigger] subagents::linked(
        sessions,
        back[k - 1],
        back[k],
    ) by {
        let m = n - k;
        assert(subagents::linked(sessions, walk[m - 1], walk[m]));
        let i = choose|i: int|
            0 <= i < sessions.len() && subagents::links(
                #[trigger] sessions[i],
                walk[m - 1],
                walk[m],
            );
        assert(subagents::links(sessions[i], walk[m], walk[m - 1]));
        assert(back[k - 1] == walk[m] && back[k] == walk[m - 1]);
    }
    assert(subagents::joins(sessions, back, b, a));
}

/// A parent and its child are of one family.
pub proof fn parents_and_children_are_family(sessions: Seq<SessionView>, i: int, parent: SessionId)
    requires
        0 <= i < sessions.len(),
        sessions[i].parent_id == Some(parent),
    ensures
        subagents::related(sessions, parent, sessions[i].id),
        subagents::related(sessions, sessions[i].id, parent),
{
    subagents::families_hold_themselves(sessions, parent);
    assert(subagents::links(sessions[i], parent, sessions[i].id));
    assert(subagents::linked(sessions, parent, sessions[i].id));
    subagents::families_hold_links(sessions, parent, parent, sessions[i].id);
    families_are_mutual(sessions, parent, sessions[i].id);
}

/// A session that no parent or child ties to others is its whole family.
pub proof fn strangers_are_no_family(sessions: Seq<SessionView>, a: SessionId, b: SessionId)
    requires
        a != b,
        forall|i: int|
            0 <= i < sessions.len() ==> ((#[trigger] sessions[i]).id == a
                ==> sessions[i].parent_id is None) && sessions[i].parent_id != Some(a),
    ensures
        !subagents::related(sessions, a, b),
{
    if subagents::related(sessions, a, b) {
        let walk = choose|walk: Seq<SessionId>| #[trigger] subagents::joins(sessions, walk, a, b);
        assert(walk.len() > 1);
        assert(subagents::linked(sessions, walk[1 - 1], walk[1]));
        let i = choose|i: int|
            0 <= i < sessions.len() && subagents::links(#[trigger] sessions[i], walk[0], walk[1]);
        assert(sessions[i].parent_id != Some(a));
    }
}

proof fn lemma_rows(sessions: Seq<SessionView>, me: SessionId, n: int, i: int)
    requires
        0 <= i < n <= sessions.len(),
        sessions[i].status == SessionStatus::Active,
        subagents::related(sessions, me, sessions[i].id),
    ensures
        subagents::rows_of(sessions, me, n).contains(subagents::row_of(sessions[i], me)),
    decreases n,
{
    let row = subagents::row_of(sessions[i], me);
    let rest = subagents::rows_of(sessions, me, n - 1);
    let all = subagents::rows_of(sessions, me, n);
    if i < n - 1 {
        lemma_rows(sessions, me, n - 1, i);
        let k = rest.index_of(row);
        assert(all[k] == row);
    } else {
        assert(all[rest.len() as int] == row);
    }
}

/// Every active session of the family is listed.
pub proof fn the_family_is_listed(sessions: Seq<SessionView>, me: SessionId, i: int)
    requires
        0 <= i < sessions.len(),
        sessions[i].status == SessionStatus::Active,
        subagents::related(sessions, me, sessions[i].id),
    ensures
        subagents::rows_of(sessions, me, sessions.len() as int).contains(
            subagents::row_of(sessions[i], me),
        ),
{
    lemma_rows(sessions, me, sessions.len() as int, i);
}

/// A row of the list stands for an active session of the family.
pub open spec fn is_listed_for(
    sessions: Seq<SessionView>,
    me: SessionId,
    row: JsonView,
    i: int,
) -> bool {
    &&& 0 <= i < sessions.len()
    &&& sessions[i].status == SessionStatus::Active
    &&& subagents::related(sessions, me, sessions[i].id)
    &&& row == subagents::row_of(sessions[i], me)
}

/// Nothing but the active sessions of the family is listed.
pub proof fn only_the_family_is_listed(sessions: Seq<SessionView>, me: SessionId, n: int, k: int)
    requires
        0 <= n <= sessions.len(),
        0 <= k < subagents::rows_of(sessions, me, n).len(),
    ensures
        exists|i: int| #[trigger]
            is_listed_for(sessions, me, subagents::rows_of(sessions, me, n)[k], i),
    decreases n,
{
    let rest = subagents::rows_of(sessions, me, n - 1);
    let all = subagents::rows_of(sessions, me, n);
    if k < rest.len() {
        only_the_family_is_listed(sessions, me, n - 1, k);
        assert(all[k] == rest[k]);
    } else {
        assert(is_listed_for(sessions, me, all[k], n - 1));
    }
}

/// A row tells a session's identifier, title, lane and parent.
pub proof fn rows_tell_their_session(session: SessionView, me: SessionId)
    ensures
        ({
            let row = subagents::row_of(session, me);
            &&& argument(row, "id"@) == Some(outside::id_text(session.id))
            &&& argument(row, "title"@) == Some(session.title)
            &&& argument(row, "harness"@) == Some(names::name_of(session.lane.harness))
            &&& argument(row, "model"@) == Some(session.lane.model)
            &&& argument(row, "status"@) is Some
            &&& session.parent_id matches Some(parent) ==> argument(row, "parent_id"@) == Some(
                outside::id_text(parent),
            )
            &&& json::member(row, "is_child_of_you"@) == Some(
                JsonView::Bool(session.parent_id == Some(me)),
            )
        }),
{
    reveal_strlit("id");
    reveal_strlit("title");
    reveal_strlit("harness");
    reveal_strlit("model");
    reveal_strlit("status");
    reveal_strlit("parent_id");
    reveal_strlit("is_child_of_you");
    assert("id"@.len() == 2 && "title"@.len() == 5 && "harness"@.len() == 7);
    assert("model"@.len() == 5 && "status"@.len() == 6 && "parent_id"@.len() == 9);
    assert("is_child_of_you"@.len() == 15);
    assert("title"@[0] == 't' && "model"@[0] == 'm');
    let members = subagents::row_of(session, me)->Object_0;
    json::members_are_found(members, "id"@, 0);
    json::members_are_found(members, "title"@, 1);
    json::members_are_found(members, "harness"@, 2);
    json::members_are_found(members, "model"@, 3);
    json::members_are_found(members, "status"@, 4);
    json::members_are_found(members, "parent_id"@, 5);
    json::members_are_found(members, "is_child_of_you"@, 6);
}

/// A session that is read tells what every turn was asked, answered and ended
/// with.
pub proof fn every_turn_is_read(turns: Seq<TurnView>, n: int, i: int)
    requires
        0 <= i < n <= turns.len(),
    ensures
        text::holds(subagents::turns_words(turns, n), subagents::turn_words(turns[i])),
    decreases n,
{
    let rest = subagents::turns_words(turns, n - 1);
    let last = subagents::turn_words(turns[n - 1]);
    if i < n - 1 {
        every_turn_is_read(turns, n - 1, i);
        lemma_held_more(rest, last, subagents::turn_words(turns[i]));
    } else {
        lemma_held_last(rest, last);
    }
}

/// What is read of a turn holds its input, its reply and its error, as far as
/// they fit.
pub proof fn turns_are_read_in_full(turn: TurnView)
    ensures
        turn.input.len() <= 1000 ==> text::holds(subagents::turn_words(turn), turn.input),
        turn.envelope matches Some(envelope) ==> (envelope.body_markdown.len() <= 12_000
            ==> text::holds(subagents::turn_words(turn), envelope.body_markdown)),
        turn.error matches Some(error) ==> (error.len() <= 1000 ==> text::holds(
            subagents::turn_words(turn),
            error,
        )),
{
    let words = subagents::turn_words(turn);
    let number = text::signed_decimal(turn.seq as int);
    let status = subagents::status_name(turn.status);
    let front = "\n--- turn "@ + number + " ["@ + status + "]\ninput: "@;
    let input = subagents::capped(turn.input, 1000);
    let reply = match turn.envelope {
        Some(envelope) => "reply: "@ + subagents::capped(envelope.body_markdown, 12_000) + "\n"@,
        None => Seq::empty(),
    };
    let error = match turn.error {
        Some(error) => "error: "@ + subagents::capped(error, 1000) + "\n"@,
        None => Seq::empty(),
    };
    let a = front + input;
    let b = a + "\n"@;
    let c = b + reply;
    assert(words == c + error);
    lemma_held_last(front, input);
    lemma_held_more(a, "\n"@, input);
    lemma_held_more(b, reply, input);
    lemma_held_more(c, error, input);
    lemma_held_last(b, reply);
    lemma_held_more(c, error, reply);
    lemma_held_last(c, error);
    if let Some(envelope) = turn.envelope {
        let body = subagents::capped(envelope.body_markdown, 12_000);
        text::parts_are_held("reply: "@, body, "\n"@);
        text::parts_of_parts_are_held(words, reply, body);
    }
    if let Some(said) = turn.error {
        let body = subagents::capped(said, 1000);
        text::parts_are_held("error: "@, body, "\n"@);
        text::parts_of_parts_are_held(words, error, body);
    }
}

// ---------------------------------------------------------------------------
// The menu
// ---------------------------------------------------------------------------

proof fn lemma_joined_holds(parts: Seq<Seq<char>>, sep: Seq<char>, i: int)
    requires
        0 <= i < parts.len(),
    ensures
        text::holds(text::joined(parts, sep), parts[i]),
    decreases parts.len(),
{
    if parts.len() == 1 {
        lemma_held_last(Seq::empty(), parts[0]);
        assert(Seq::<char>::empty() + parts[0] =~= parts[0]);
    } else {
        let rest = text::joined(parts.drop_last(), sep);
        if i < parts.len() - 1 {
            lemma_joined_holds(parts.drop_last(), sep, i);
            lemma_held_more(rest, sep, parts[i]);
            lemma_held_more(rest + sep, parts.last(), parts[i]);
        } else {
            lemma_held_last(rest + sep, parts.last());
        }
    }
}

/// The menu in one line names every model with its harness.
pub proof fn the_menu_names_every_model(models: Seq<ModelView>, i: int)
    requires
        0 <= i < models.len(),
    ensures
        text::holds(mcp::inline_menu(models), models[i].model),
        text::holds(mcp::inline_menu(models), names::name_of(models[i].harness)),
{
    let entries = models.map_values(|model: ModelView| mcp::model_entry(model));
    lemma_joined_holds(entries, ", "@, i);
    let entry = mcp::model_entry(models[i]);
    let name = names::name_of(models[i].harness);
    assert(entries[i] == entry);
    text::parts_are_held(Seq::empty(), models[i].model, " ("@ + name + ")"@);
    assert(Seq::<char>::empty() + models[i].model + (" ("@ + name + ")"@) =~= entry);
    text::parts_of_parts_are_held(mcp::inline_menu(models), entry, models[i].model);
    text::parts_are_held(models[i].model + " ("@, name, ")"@);
    text::parts_of_parts_are_held(mcp::inline_menu(models), entry, name);
}

proof fn lemma_models_of(models: Seq<ModelView>, harness: Harness, n: int, i: int)
    requires
        0 <= i < n <= models.len(),
        models[i].harness == harness,
    ensures
        mcp::models_of(models, harness, n).contains(models[i].model),
    decreases n,
{
    let rest = mcp::models_of(models, harness, n - 1);
    let all = mcp::models_of(models, harness, n);
    if i < n - 1 {
        lemma_models_of(models, harness, n - 1, i);
        let k = rest.index_of(models[i].model);
        assert(all[k] == models[i].model);
    } else {
        assert(all[rest.len() as int] == models[i].model);
    }
}

proof fn lemma_menu_line(models: Seq<ModelView>, i: int)
    requires
        0 <= i < models.len(),
    ensures
        text::holds(mcp::menu_line(models, models[i].harness), models[i].model),
{
    let harness = models[i].harness;
    let n = models.len() as int;
    lemma_models_of(models, harness, n, i);
    let all = mcp::models_of(models, harness, n);
    let k = all.index_of(models[i].model);
    let list = text::joined(all, ", "@);
    lemma_joined_holds(all, ", "@, k);
    let front = "- harness \""@ + names::name_of(harness) + "\": "@;
    text::parts_are_held(front, list, "\n"@);
    text::parts_of_parts_are_held(mcp::menu_line(models, harness), list, models[i].model);
}

/// The description of the spawn tool names every model that a call can name.
pub proof fn the_description_names_every_model(models: Seq<ModelView>, i: int)
    requires
        0 <= i < models.len(),
        models[i].harness != Harness::Mock,
    ensures
        text::holds(mcp::menu_text(models), models[i].model),
        text::holds(mcp::spawn_words(models), mcp::menu_text(models)),
{
    let model = models[i].model;
    lemma_menu_line(models, i);
    let head = "Lanes configured on this installation:\n"@;
    let a = mcp::menu_line(models, Harness::ClaudeCode);
    let b = mcp::menu_line(models, Harness::Codex);
    let c = mcp::menu_line(models, Harness::Cursor);
    lemma_held_last(head, a);
    lemma_held_last(head + a, b);
    lemma_held_last(head + a + b, c);
    match models[i].harness {
        Harness::ClaudeCode => {
            text::parts_of_parts_are_held(head + a, a, model);
            lemma_held_more(head + a, b, model);
            lemma_held_more(head + a + b, c, model);
        },
        Harness::Codex => {
            text::parts_of_parts_are_held(head + a + b, b, model);
            lemma_held_more(head + a + b, c, model);
        },
        _ => {
            text::parts_of_parts_are_held(head + a + b + c, c, model);
        },
    }
    let menu = mcp::menu_text(models);
    let words = mcp::spawn_words(models);
    let start = "Spawn a sub-agent as a child session of this one and get its answer back."@
        + "\n\n"@;
    let at = (start + menu).len() as int;
    lemma_held_last(start, menu);
    let more = words.skip(at);
    assert(words =~= (start + menu) + more);
    lemma_held_more(start + menu, more, menu);
}

// ---------------------------------------------------------------------------
// The protocol
// ---------------------------------------------------------------------------

/// Every response carries the identifier of its request, and either a result
/// or an error, in its own words.
pub proof fn responses_answer_their_request(id: JsonView, answer: Result<JsonView, RpcErrorView>)
    ensures
        ({
            let response = mcp::response_of(id, answer);
            &&& json::member(response, "id"@) == Some(id)
            &&& argument(response, "jsonrpc"@) == Some("2.0"@)
            &&& answer matches Ok(result) ==> json::member(response, "result"@) == Some(result)
                && json::member(response, "error"@) is None
            &&& answer matches Err(error) ==> json::member(response, "result"@) is None
                && json::member(response, "error"@) is Some && argument(
                json::member(response, "error"@)->0,
                "message"@,
            ) == Some(error.message) && json::member(
                json::member(response, "error"@)->0,
                "code"@,
            ) == Some(JsonView::Number(text::signed_decimal(error.code)))
        }),
{
    reveal_strlit("jsonrpc");
    reveal_strlit("id");
    reveal_strlit("result");
    reveal_strlit("error");
    reveal_strlit("code");
    reveal_strlit("message");
    assert("jsonrpc"@.len() == 7 && "id"@.len() == 2 && "result"@.len() == 6);
    assert("error"@.len() == 5 && "code"@.len() == 4 && "message"@.len() == 7);
    let members = mcp::response_of(id, answer)->Object_0;
    json::members_are_found(members, "jsonrpc"@, 0);
    json::members_are_found(members, "id"@, 1);
    if answer is Ok {
        json::members_are_found(members, "result"@, 2);
        json::members_are_found(members, "error"@, 3);
    } else {
        json::members_are_found(members, "error"@, 2);
        json::members_are_found(members, "result"@, 3);
        let inner = members[2].1->Object_0;
        json::members_are_found(inner, "code"@, 0);
        json::members_are_found(inner, "message"@, 1);
    }
}

/// The text of a tool's result.
pub open spec fn result_text(result: JsonView) -> Option<Seq<char>> {
    match json::member(result, "content"@) {
        Some(JsonView::Array(blocks)) => if blocks.len() == 1 {
            argument(blocks[0], "text"@)
        } else {
            None
        },
        _ => None,
    }
}

/// A tool that worked answers with its text; one that did not answers with the
/// error, and says that it is one.
pub proof fn tools_answer_with_their_text(words: Seq<char>)
    ensures
        result_text(mcp::tool_result_of(Ok(words))) == Some(words),
        json::member(mcp::tool_result_of(Ok(words)), "isError"@) is None,
        result_text(mcp::tool_result_of(Err(words))) == Some("error: "@ + words),
        json::member(mcp::tool_result_of(Err(words)), "isError"@) == Some(JsonView::Bool(true)),
{
    reveal_strlit("content");
    reveal_strlit("isError");
    reveal_strlit("type");
    reveal_strlit("text");
    assert("content"@.len() == 7 && "isError"@.len() == 7);
    assert("content"@[0] == 'c' && "isError"@[0] == 'i');
    assert("type"@[1] == 'y' && "text"@[1] == 'e');
    let good = mcp::tool_result_of(Ok(words))->Object_0;
    json::members_are_found(good, "content"@, 0);
    json::members_are_found(good, "isError"@, 1);
    json::members_are_found(mcp::text_block(words)->Object_0, "text"@, 1);
    let bad = mcp::tool_result_of(Err(words))->Object_0;
    json::members_are_found(bad, "content"@, 0);
    json::members_are_found(bad, "isError"@, 1);
    json::members_are_found(mcp::text_block("error: "@ + words)->Object_0, "text"@, 1);
}

/// A message with an identifier is a request under it, with the method and the
/// parameters that it has; one without is not answered.
pub proof fn requests_are_what_has_an_identifier(message: JsonView, incoming: Incoming)
    requires
        mcp::is_incoming(message, incoming),
    ensures
        json::member(message, "id"@) is None ==> incoming == Incoming::Notification,
        json::member(message, "id"@) matches Some(wanted) ==> (incoming matches Incoming::Request {
            id,
            method,
            params,
        } && id@ == wanted && (argument(message, "method"@) matches Some(name) ==> method@
            == name) && (json::member(message, "params"@) matches Some(given) ==> params@
            == given)),
{
}

/// A call goes to the tool that it names, with the arguments that it brings; a
/// tool or a method that is not there is refused as such.
pub proof fn calls_go_to_the_named_tool(
    method: Seq<char>,
    params: JsonView,
    tools: JsonView,
    version: Seq<char>,
    handled: Handled,
)
    requires
        mcp::is_handled(method, params, tools, version, handled),
    ensures
        method == "tools/call"@ && argument(params, "name"@) == Some("spawn_subagent"@)
            ==> handled matches Handled::Call { tool: Tool::SpawnSubagent, arguments },
        method == "tools/call"@ && argument(params, "name"@) == Some("list_sessions"@)
            ==> handled matches Handled::Call { tool: Tool::ListSessions, arguments },
        method == "tools/call"@ && argument(params, "name"@) == Some("read_session"@)
            ==> handled matches Handled::Call { tool: Tool::ReadSession, arguments },
        handled matches Handled::Call { tool, arguments } ==> method == "tools/call"@ && (
        json::member(params, "arguments"@) matches Some(given) ==> arguments@ == given),
        method == "tools/list"@ ==> (handled matches Handled::Reply { result } && json::member(
            result@,
            "tools"@,
        ) == Some(tools)),
        method != "initialize"@ && method != "ping"@ && method != "tools/list"@ && method
            != "tools/call"@ ==> (handled matches Handled::Refuse { error } && error@.code
            == -32601),
{
    reveal_strlit("initialize");
    reveal_strlit("ping");
    reveal_strlit("tools/list");
    reveal_strlit("tools/call");
    reveal_strlit("spawn_subagent");
    reveal_strlit("list_sessions");
    reveal_strlit("read_session");
    assert("initialize"@.len() == 10 && "ping"@.len() == 4);
    assert("tools/list"@.len() == 10 && "tools/call"@.len() == 10);
    assert("initialize"@[0] == 'i' && "tools/list"@[0] == 't' && "tools/call"@[0] == 't');
    assert("tools/list"@[6] == 'l' && "tools/call"@[6] == 'c');
    assert("spawn_subagent"@.len() == 14 && "list_sessions"@.len() == 13);
    assert("read_session"@.len() == 12);
    json::members_are_found(seq![("tools"@, tools)], "tools"@, 0);
}

/// The list of tools names the three there are.
pub proof fn the_three_tools_are_listed(models: Seq<ModelView>)
    ensures
        ({
            let tools = mcp::tools_of(models)->Array_0;
            &&& mcp::tools_of(models) is Array
            &&& tools.len() == 3
            &&& argument(tools[0], "name"@) == Some("spawn_subagent"@)
            &&& argument(tools[1], "name"@) == Some("list_sessions"@)
            &&& argument(tools[2], "name"@) == Some("read_session"@)
            &&& argument(tools[0], "description"@) == Some(mcp::spawn_words(models))
        }),
{
    reveal_strlit("name");
    reveal_strlit("description");
    assert("name"@.len() == 4 && "description"@.len() == 11);
    let tools = mcp::tools_of(models)->Array_0;
    json::members_are_found(tools[0]->Object_0, "name"@, 0);
    json::members_are_found(tools[0]->Object_0, "description"@, 1);
    json::members_are_found(tools[1]->Object_0, "name"@, 0);
    json::members_are_found(tools[2]->Object_0, "name"@, 0);
}

// ---------------------------------------------------------------------------
// Words
// ---------------------------------------------------------------------------

/// A request goes to the caller's address with one stroke before the path,
/// however many the address ends with.
pub proof fn requests_go_to_the_caller(host: Seq<char>, path: Seq<char>)
    requires
        host.len() > 0 ==> host.last() != '/',
    ensures
        subagents::url_for(host, path) == host + path,
        subagents::url_for(host.push('/'), path) == host + path,
        subagents::url_for(host.push('/').push('/'), path) == host + path,
{
    let one = host.push('/');
    let two = one.push('/');
    assert(one.drop_last() =~= host);
    assert(two.drop_last() =~= one);
    assert(text::strip_end(host, '/') == host);
    assert(text::strip_end(one, '/') == host);
    assert(text::strip_end(two, '/') == host);
}

/// A refused request is told with its path, the status and what was answered.
pub proof fn refused_requests_are_told(path: Seq<char>, status: Seq<char>, body: Seq<char>)
    ensures
        text::occurs_at(subagents::failure_words(path, status, body), path, 0),
        text::holds(subagents::failure_words(path, status, body), status),
        body.len() <= 500 ==> text::holds(subagents::failure_words(path, status, body), body),
        body.len() > 500 ==> text::holds(
            subagents::failure_words(path, status, body),
            body.take(500),
        ),
{
    let all = subagents::failure_words(path, status, body);
    let a = path + " -> HTTP "@;
    let c = ": "@;
    let told = subagents::capped(body, 500);
    assert(all.subrange(0, path.len() as int) =~= path);
    text::parts_are_held(a, status, c + told);
    assert(all =~= a + status + (c + told));
    if body.len() <= 500 {
        text::parts_are_held(a + status + c, body, Seq::empty());
        assert(all =~= a + status + c + body + Seq::<char>::empty());
    } else {
        let more = "\n...[truncated]"@;
        text::parts_are_held(a + status + c, body.take(500), more);
        assert(all =~= a + status + c + body.take(500) + more);
    }
}

/// What is said of a child that was started names the child, its lane and its
/// turn.
pub proof fn children_are_named_as_they_start(
    child: SessionView,
    harness: Harness,
    model: Seq<char>,
    turn: TurnId,
)
    ensures
        text::holds(
            subagents::spawned_words(child, harness, model, turn),
            outside::id_text(child.id),
        ),
        text::holds(subagents::spawned_words(child, harness, model, turn), child.title),
        text::holds(
            subagents::spawned_words(child, harness, model, turn),
            names::name_of(harness) + " "@ + model,
        ),
        text::holds(
            subagents::spawned_words(child, harness, model, turn),
            outside::id_text(turn),
        ),
{
    lemma_child_named(
        "child session "@,
        outside::id_text(child.id),
        " ("@,
        child.title,
        ")"@,
    );
    lemma_start_words(
        "spawned "@,
        subagents::child_name(child),
        " on "@,
        names::name_of(harness),
        " "@,
        model,
        "; turn "@,
        outside::id_text(turn),
        " queued. Collect the answer with read_session."@,
    );
    let all = subagents::spawned_words(child, harness, model, turn);
    text::parts_of_parts_are_held(
        all,
        subagents::child_name(child),
        outside::id_text(child.id),
    );
    text::parts_of_parts_are_held(all, subagents::child_name(child), child.title);
}

proof fn lemma_child_named(
    a: Seq<char>,
    id: Seq<char>,
    b: Seq<char>,
    title: Seq<char>,
    c: Seq<char>,
)
    ensures
        text::holds(a + id + b + title + c, id),
        text::holds(a + id + b + title + c, title),
{
    lemma_held_last(a, id);
    lemma_held_more(a + id, b, id);
    lemma_held_more(a + id + b, title, id);
    lemma_held_more(a + id + b + title, c, id);
    lemma_held_last(a + id + b, title);
    lemma_held_more(a + id + b + title, c, title);
}

proof fn lemma_start_words(
    a: Seq<char>,
    name: Seq<char>,
    b: Seq<char>,
    harness: Seq<char>,
    c: Seq<char>,
    model: Seq<char>,
    d: Seq<char>,
    id: Seq<char>,
    e: Seq<char>,
)
    ensures
        text::holds(a + name + b + harness + c + model + d + id + e, name),
        text::holds(a + name + b + harness + c + model + d + id + e, harness + c + model),
        text::holds(a + name + b + harness + c + model + d + id + e, id),
{
    let one = a + name;
    let two = one + b;
    let three = two + harness + c + model;
    let four = three + d;
    let five = four + id;
    let lane = harness + c + model;
    assert(two + lane =~= three);
    lemma_held_last(a, name);
    lemma_held_more(one, b, name);
    lemma_held_more(two, lane, name);
    lemma_held_more(three, d, name);
    lemma_held_more(four, id, name);
    lemma_held_more(five, e, name);
    lemma_held_last(two, lane);
    lemma_held_more(three, d, lane);
    lemma_held_more(four, id, lane);
    lemma_held_more(five, e, lane);
    lemma_held_last(four, id);
    lemma_held_more(five, e, id);
}

/// What is read of a session starts with which it is, what it is called and
/// what it runs on.
pub proof fn sessions_are_headed(session: SessionView)
    ensures
        text::holds(subagents::heading_of(session), outside::id_text(session.id)),
        text::holds(subagents::heading_of(session), session.title),
        text::holds(
            subagents::heading_of(session),
            names::name_of(session.lane.harness) + " "@ + session.lane.model,
        ),
        session.status == SessionStatus::Active ==> text::holds(
            subagents::heading_of(session),
            " status Active"@,
        ),
        session.status == SessionStatus::Archived ==> text::holds(
            subagents::heading_of(session),
            " status Archived"@,
        ),
{
    reveal_strlit(" status ");
    reveal_strlit("Active");
    reveal_strlit("Archived");
    reveal_strlit(" status Active");
    reveal_strlit(" status Archived");
    assert(" status "@ + "Active"@ =~= " status Active"@);
    assert(" status "@ + "Archived"@ =~= " status Archived"@);
    lemma_heading(
        "session "@,
        outside::id_text(session.id),
        " ("@,
        session.title,
        ") on "@,
        names::name_of(session.lane.harness),
        " "@,
        session.lane.model,
        " status "@,
        match session.status {
            SessionStatus::Active => "Active"@,
            SessionStatus::Archived => "Archived"@,
        },
        "\n"@,
    );
}

proof fn lemma_heading(
    a: Seq<char>,
    id: Seq<char>,
    b: Seq<char>,
    title: Seq<char>,
    c: Seq<char>,
    harness: Seq<char>,
    d: Seq<char>,
    model: Seq<char>,
    e: Seq<char>,
    status: Seq<char>,
    f: Seq<char>,
)
    ensures
        ({
            let all = a + id + b + title + c + harness + d + model + e + status + f;
            &&& text::holds(all, id)
            &&& text::holds(all, title)
            &&& text::holds(all, harness + d + model)
            &&& text::holds(all, e + status)
        }),
{
    let head = a + id + b + title + c;
    let lane = harness + d + model;
    let word = e + status;
    let body = head + harness + d + model;
    assert(head + lane =~= body);
    let most = body + e + status;
    assert(body + word =~= most);
    lemma_child_named(a, id, b, title, c);
    lemma_held_more(head, lane, id);
    lemma_held_more(head, lane, title);
    lemma_held_last(head, lane);
    lemma_held_more(body, word, id);
    lemma_held_more(body, word, title);
    lemma_held_more(body, word, lane);
    lemma_held_last(body, word);
    lemma_held_more(most, f, id);
    lemma_held_more(most, f, title);
    lemma_held_more(most, f, lane);
    lemma_held_more(most, f, word);
}

/// What is blank in a call is as if it were not there.
pub proof fn blank_arguments_are_not_given(args: JsonView, spawn: SpawnView)
    requires
        subagents::spawn_of(args) == Ok::<SpawnView, Seq<char>>(spawn),
    ensures
        spawn.name matches Some(name) ==> !text::is_blank(name),
        spawn.repo matches Some(repo) ==> !text::is_blank(repo),
        spawn.effort matches Some(effort) ==> !text::is_blank(effort),
{
}

/// A status is told by its own name, and a session's by its own word.
pub proof fn statuses_are_told_by_name(
    child: SessionView,
    harness: Harness,
    model: Seq<char>,
    turn: TurnView,
    me: SessionId,
)
    ensures
        turn.status == TurnStatus::Error ==> text::holds(
            subagents::ended_words(child, harness, model, turn)->0,
            " ended with status Error: "@,
        ),
        turn.status == TurnStatus::Capped ==> text::holds(
            subagents::ended_words(child, harness, model, turn)->0,
            " ended with status Capped: "@,
        ),
        turn.status == TurnStatus::Cancelled ==> text::holds(
            subagents::ended_words(child, harness, model, turn)->0,
            " ended with status Cancelled: "@,
        ),
        child.status == SessionStatus::Active ==> argument(
            subagents::row_of(child, me),
            "status"@,
        ) == Some("active"@),
        child.status == SessionStatus::Archived ==> argument(
            subagents::row_of(child, me),
            "status"@,
        ) == Some("archived"@),
{
    reveal_strlit(" ended with status ");
    reveal_strlit("Error");
    reveal_strlit("Capped");
    reveal_strlit("Cancelled");
    reveal_strlit(": ");
    reveal_strlit(" ended with status Error: ");
    reveal_strlit(" ended with status Capped: ");
    reveal_strlit(" ended with status Cancelled: ");
    assert(" ended with status "@ + "Error"@ + ": "@ =~= " ended with status Error: "@);
    assert(" ended with status "@ + "Capped"@ + ": "@ =~= " ended with status Capped: "@);
    assert(" ended with status "@ + "Cancelled"@ + ": "@ =~= " ended with status Cancelled: "@);
    let back = match turn.error {
        Some(error) => error,
        None => Seq::empty(),
    };
    lemma_middle_held(
        subagents::child_name(child),
        " ended with status "@,
        subagents::status_name(turn.status),
        ": "@,
        back,
    );
    lemma_row_status(child, me);
}

proof fn lemma_middle_held(
    front: Seq<char>,
    a: Seq<char>,
    b: Seq<char>,
    c: Seq<char>,
    back: Seq<char>,
)
    ensures
        text::holds(front + a + b + c + back, a + b + c),
{
    text::parts_are_held(front, a + b + c, back);
    assert(front + a + b + c + back =~= front + (a + b + c) + back);
}

proof fn lemma_row_status(child: SessionView, me: SessionId)
    ensures
        argument(subagents::row_of(child, me), "status"@) == Some(
            subagents::session_status_name(child.status),
        ),
{
    reveal_strlit("id");
    reveal_strlit("title");
    reveal_strlit("harness");
    reveal_strlit("model");
    reveal_strlit("status");
    assert("id"@.len() == 2 && "title"@.len() == 5 && "harness"@.len() == 7);
    assert("model"@.len() == 5 && "status"@.len() == 6);
    json::members_are_found(subagents::row_of(child, me)->Object_0, "status"@, 4);
}

/// A child that outlasts the wait is told as running, with how long was waited.
pub proof fn long_children_are_told_as_running(
    turns: Seq<TurnView>,
    turn: TurnId,
    child: SessionView,
    harness: Harness,
    model: Seq<char>,
    minutes: u64,
)
    requires
        forall|i: int| 0 <= i < turns.len() ==> (#[trigger] turns[i]).id != turn,
    ensures
        subagents::wait_words(turns, turn, child, harness, model, false, minutes) is None,
        subagents::wait_words(turns, turn, child, harness, model, true, minutes) is Some,
        text::holds(
            subagents::wait_words(turns, turn, child, harness, model, true, minutes)->0,
            "after "@ + text::decimal(minutes as nat) + " minutes"@,
        ),
        text::holds(
            subagents::wait_words(turns, turn, child, harness, model, true, minutes)->0,
            subagents::child_name(child),
        ),
{
    lemma_no_turn(turns, turn);
    reveal_strlit(" is still running after ");
    reveal_strlit("after ");
    reveal_strlit(" minutes");
    reveal_strlit(" minutes; read_session later to collect its answer.");
    let name = subagents::child_name(child);
    let n = text::decimal(minutes as nat);
    let a = " is still running after "@;
    let b = " minutes; read_session later to collect its answer."@;
    let all = name + a + n + b;
    let wanted = "after "@ + n + " minutes"@;
    let at = name.len() + 18;
    assert(a.len() == 24);
    assert(all.subrange(at as int, (at + wanted.len()) as int) =~= wanted);
    assert(text::occurs_at(all, wanted, at as int));
    assert(all.subrange(0, name.len() as int) =~= name);
    assert(text::occurs_at(all, name, 0));
}

proof fn lemma_no_turn(turns: Seq<TurnView>, turn: TurnId)
    requires
        forall|i: int| 0 <= i < turns.len() ==> (#[trigger] turns[i]).id != turn,
    ensures
        subagents::first_turn(turns, turn) == turns.len(),
    decreases turns.len(),
{
    if turns.len() > 0 {
        assert(turns[0].id != turn);
        let rest = turns.drop_first();
        assert forall|i: int| 0 <= i < rest.len() implies (#[trigger] rest[i]).id != turn by {
            assert(rest[i] == turns[i + 1]);
        }
        lemma_no_turn(rest, turn);
    }
}

/// The session that is read is the one whose identifier is given.
pub proof fn the_named_session_is_read(args: JsonView, words: Seq<char>, id: SessionId)
    requires
        argument(args, "session_id"@) == Some(words),
    ensures
        outside::id_in(words) == Ok::<SessionId, Seq<char>>(id) ==> subagents::target_of(args)
            == Ok::<SessionId, Seq<char>>(id),
        outside::id_in(words) is Err ==> subagents::target_of(args) is Err && text::holds(
            subagents::target_of(args)->Err_0,
            outside::id_in(words)->Err_0,
        ),
{
    if let Err(message) = outside::id_in(words) {
        lemma_held_last("session_id must be a uuid: "@, message);
    }
}

/// A harness is known by its name and by its vendor's, in any case and with any
/// space around it.
pub proof fn harnesses_are_known_by_name_and_vendor(name: Seq<char>, other: Seq<char>)
    ensures
        text::lowered(text::trimmed(name)) == "anthropic"@ ==> mcp::harness_named(name) == Some(
            Harness::ClaudeCode,
        ),
        text::lowered(text::trimmed(name)) == "openai"@ ==> mcp::harness_named(name) == Some(
            Harness::Codex,
        ),
        text::lowered(text::trimmed(name)) == "codex"@ ==> mcp::harness_named(name) == Some(
            Harness::Codex,
        ),
        text::lowered(text::trimmed(name)) == "cursor"@ ==> mcp::harness_named(name) == Some(
            Harness::Cursor,
        ),
        text::lowered(text::trimmed(name)) == "mock"@ ==> mcp::harness_named(name) == Some(
            Harness::Mock,
        ),
        text::lowered(text::trimmed(name)) == text::lowered(text::trimmed(other))
            ==> mcp::harness_named(name) == mcp::harness_named(other),
{
    names::lemma_anthropic_name();
    names::lemma_short_names();
    reveal_strlit("anthropic");
    reveal_strlit("openai");
    reveal_strlit("codex");
    reveal_strlit("cursor");
    reveal_strlit("mock");
    assert("anthropic"@.len() == 9 && "openai"@.len() == 6 && "codex"@.len() == 5);
    assert("cursor"@.len() == 6 && "mock"@.len() == 4);
    assert("openai"@[0] == 'o' && "cursor"@[0] == 'c' && "codex"@[1] == 'o');
    assert("cursor"@[1] == 'u');
    lemma_anthropic_words();
}

/// The greeting agrees to the protocol that the client names, and says who
/// answers.
pub proof fn greetings_agree_to_the_protocol(
    params: JsonView,
    tools: JsonView,
    version: Seq<char>,
    handled: Handled,
)
    requires
        mcp::is_handled("initialize"@, params, tools, version, handled),
    ensures
        handled is Reply,
        handled matches Handled::Reply { result } ==> {
            &&& argument(params, "protocolVersion"@) matches Some(asked) ==> argument(
                result@,
                "protocolVersion"@,
            ) == Some(asked)
            &&& argument(params, "protocolVersion"@) is None ==> argument(
                result@,
                "protocolVersion"@,
            ) == Some("2025-06-18"@)
            &&& json::member(result@, "serverInfo"@) is Some
            &&& argument(json::member(result@, "serverInfo"@)->0, "name"@) == Some("ceilidh"@)
            &&& argument(json::member(result@, "serverInfo"@)->0, "version"@) == Some(version)
            &&& json::member(result@, "capabilities"@) is Some
            &&& json::member(json::member(result@, "capabilities"@)->0, "tools"@) is Some
        },
{
    reveal_strlit("protocolVersion");
    reveal_strlit("capabilities");
    reveal_strlit("serverInfo");
    reveal_strlit("name");
    reveal_strlit("version");
    assert("protocolVersion"@.len() == 15 && "capabilities"@.len() == 12);
    assert("serverInfo"@.len() == 10 && "name"@.len() == 4 && "version"@.len() == 7);
    let hello = mcp::hello(params, version)->Object_0;
    json::members_are_found(hello, "protocolVersion"@, 0);
    json::members_are_found(hello, "capabilities"@, 1);
    json::members_are_found(hello, "serverInfo"@, 2);
    json::members_are_found(hello[1].1->Object_0, "tools"@, 0);
    json::members_are_found(hello[2].1->Object_0, "name"@, 0);
    json::members_are_found(hello[2].1->Object_0, "version"@, 1);
}

/// A ping is answered with nothing, what is not there is refused by its name,
/// and a call without a name, arguments or parameters is taken as such.
pub proof fn what_is_missing_is_told(
    method: Seq<char>,
    params: JsonView,
    tools: JsonView,
    version: Seq<char>,
    handled: Handled,
    message: JsonView,
    incoming: Incoming,
)
    requires
        mcp::is_handled(method, params, tools, version, handled),
        mcp::is_incoming(message, incoming),
    ensures
        method == "ping"@ ==> (handled matches Handled::Reply { result } && result@
            == JsonView::Object(Seq::empty())),
        method == "tools/call"@ && argument(params, "name"@) is None ==> (
        handled matches Handled::Refuse { error } && error@.code == -32602),
        method != "initialize"@ && method != "ping"@ && method != "tools/list"@ && method
            != "tools/call"@ ==> (handled matches Handled::Refuse { error } && text::holds(
            error@.message,
            method,
        )),
        method == "tools/call"@ ==> (argument(params, "name"@) matches Some(name) ==> (name
            != "spawn_subagent"@ && name != "list_sessions"@ && name != "read_session"@ ==> (
        handled matches Handled::Refuse { error } && error@.code == -32601 && text::holds(
            error@.message,
            name,
        )))),
        handled matches Handled::Call { tool, arguments } ==> (json::member(
            params,
            "arguments"@,
        ) is None ==> arguments@ == JsonView::Object(Seq::empty())),
        incoming matches Incoming::Request { id, method, params } ==> (json::member(
            message,
            "params"@,
        ) is None ==> params@ == JsonView::Null),
{
    reveal_strlit("initialize");
    reveal_strlit("ping");
    reveal_strlit("tools/list");
    reveal_strlit("tools/call");
    assert("initialize"@.len() == 10 && "ping"@.len() == 4);
    assert("tools/list"@.len() == 10 && "tools/call"@.len() == 10);
    assert("initialize"@[0] == 'i' && "tools/list"@[0] == 't' && "tools/call"@[0] == 't');
    assert("tools/list"@[6] == 'l' && "tools/call"@[6] == 'c');
    lemma_held_last("method not found: "@, method);
    if let Some(name) = argument(params, "name"@) {
        lemma_held_last("method not found: "@, name);
    }
}

/// A child is asked for with a harness, a model and a prompt, and the session to
/// read by its identifier.
pub proof fn what_a_tool_needs_is_listed(models: Seq<ModelView>)
    ensures
        json::member(mcp::spawn_schema(models), "required"@) == Some(
            JsonView::Array(
                seq![
                    JsonView::Text("harness"@),
                    JsonView::Text("model"@),
                    JsonView::Text("prompt"@),
                ],
            ),
        ),
        json::member(mcp::read_schema(), "required"@) == Some(
            JsonView::Array(seq![JsonView::Text("session_id"@)]),
        ),
        json::member(mcp::list_schema(), "required"@) is None,
{
    reveal_strlit("type");
    reveal_strlit("properties");
    reveal_strlit("required");
    assert("type"@.len() == 4 && "properties"@.len() == 10 && "required"@.len() == 8);
    let spawn = mcp::spawn_schema(models)->Object_0;
    json::members_are_found(spawn, "required"@, 2);
    assert(seq!["harness"@, "model"@, "prompt"@].map_values(
        |text: Seq<char>| JsonView::Text(text),
    ) =~= seq![JsonView::Text("harness"@), JsonView::Text("model"@), JsonView::Text("prompt"@)]);
    json::members_are_found(mcp::read_schema()->Object_0, "required"@, 2);
    assert(seq!["session_id"@].map_values(|text: Seq<char>| JsonView::Text(text))
        =~= seq![JsonView::Text("session_id"@)]);
    json::members_are_found(mcp::list_schema()->Object_0, "required"@, 2);
}

proof fn lemma_anthropic_words()
    ensures
        names::anthropic_cli().len() == 6,
        names::anthropic_cli()[0] == 'c',
        names::anthropic_cli()[1] == 'l',
{
    names::lemma_anthropic_name();
    let name = names::name_of(Harness::ClaudeCode);
    assert forall|i: int| 0 <= i < 6 implies (#[trigger] name[i]) != '-' by {
        assert('a' <= name[i] <= 'z');
    }
    text::lemma_place_is(name, '-', 6);
    assert(names::anthropic_cli() == name.take(6));
}

} // verus!
