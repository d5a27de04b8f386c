//! Sessions: creating and listing them.

use vstd::prelude::*;

use crate::config;
use crate::order;
use crate::protocol;
use crate::protocol::{
    CreateSessionRequest, Event, Lane, Session, SessionId, SessionProfile, SessionStatus,
    Timestamp, Turn,
};
use crate::protocol::{CreateSessionView, EventView, SessionView, TurnView};
use crate::store;
use crate::store::{ApiError, Broadcast, Effects, Store};
use crate::store::{BroadcastView, EffectsView, ErrorView, StoreView, TurnRowView};
use crate::text;
use crate::tree;

verus! {

// ---------------------------------------------------------------------------
// One session
// ---------------------------------------------------------------------------

impl Store {
    /// The session of this identifier.
    pub fn get_session(&self, id: SessionId) -> (found: Result<Session, ApiError>)
        ensures
            match found {
                Ok(session) => session@.id == id && self@.sessions.contains(session@),
                Err(error) => !store::has_session(self@.sessions, id) && error@
                    == store::not_found_error("session"@),
            },
    {
        match self.find_session(id) {
            Some(i) => {
                let session: Session = self.sessions[i].clone();
                assert(self@.sessions[i as int] == session@);
                Ok(session)
            },
            None => Err(ApiError::not_found("session")),
        }
    }

    /// The turns of a session, in the order of their places.
    pub fn list_session_turns(&self, id: SessionId) -> (listed: Result<Vec<Turn>, ApiError>)
        ensures
            match listed {
                Ok(turns) => store::has_session(self@.sessions, id) && turns@.map_values(
                    |turn: Turn| turn@,
                ) == turns_of(self@.turns, id, self@.turns.len() as int),
                Err(error) => !store::has_session(self@.sessions, id) && error@
                    == store::not_found_error("session"@),
            },
    {
        match self.find_session(id) {
            Some(k) => {
                assert(self@.sessions[k as int].id == id);
            },
            None => {
                return Err(ApiError::not_found("session"));
            },
        }
        let mut turns: Vec<Turn> = Vec::new();
        let mut i: usize = 0;
        assert(turns@.map_values(|turn: Turn| turn@) =~= turns_of(self@.turns, id, 0));
        while i < self.turns.len()
            invariant
                i <= self.turns@.len(),
                turns@.map_values(|turn: Turn| turn@) == turns_of(self@.turns, id, i as int),
            decreases self.turns@.len() - i,
        {
            assert(self.turns@[i as int]@ == self@.turns[i as int]);
            if self.turns[i].session_id == id {
                let ghost before = turns@;
                turns.push(self.turns[i].to_turn());
                assert(turns@.map_values(|turn: Turn| turn@) =~= before.map_values(
                    |turn: Turn| turn@,
                ).push(store::turn_of(self@.turns[i as int])));
            }
            i += 1;
        }
        Ok(turns)
    }
}

/// The turns of a session among the first `n`, in order.
pub open spec fn turns_of(turns: Seq<TurnRowView>, session: SessionId, n: int) -> Seq<TurnView>
    decreases n,
{
    if n <= 0 {
        Seq::empty()
    } else {
        let rest = turns_of(turns, session, n - 1);
        if turns[n - 1].session_id == session {
            rest.push(store::turn_of(turns[n - 1]))
        } else {
            rest
        }
    }
}

/// The turns of a session are listed by their `seq`, which counts from one.
pub proof fn session_turns_count_from_one(
    turns: Seq<TurnRowView>,
    session: SessionId,
    n: int,
    k: int,
)
    requires
        store::turns_wf(turns),
        0 <= n <= turns.len(),
        0 <= k < turns_of(turns, session, n).len(),
    ensures
        turns_of(turns, session, n).len() == store::turns_before(turns, session, n),
        turns_of(turns, session, n)[k].seq == k + 1,
    decreases n,
{
    lemma_turns_of_len(turns, session, n);
    if n > 0 {
        lemma_turns_of_len(turns, session, n - 1);
        let rest = turns_of(turns, session, n - 1);
        if k < rest.len() {
            session_turns_count_from_one(turns, session, n - 1, k);
        } else {
            assert(turns[n - 1].seq == store::turns_before(turns, turns[n - 1].session_id, n - 1)
                + 1);
        }
    }
}

proof fn lemma_turns_of_len(turns: Seq<TurnRowView>, session: SessionId, n: int)
    requires
        0 <= n <= turns.len(),
    ensures
        turns_of(turns, session, n).len() == store::turns_before(turns, session, n),
    decreases n,
{
    if n > 0 {
        lemma_turns_of_len(turns, session, n - 1);
    }
}

// ---------------------------------------------------------------------------
// Creating
// ---------------------------------------------------------------------------

/// Why a session is not created, if it is not.
pub open spec fn create_refusal(
    store: StoreView,
    id: SessionId,
    request: CreateSessionView,
) -> Option<ErrorView> {
    if text::is_blank(request.title) {
        Some(store::unprocessable_error("title is required"@))
    } else if request.lane is Some && !config::offered(request.lane->0) {
        Some(config::not_offered(request.lane->0))
    } else if request.parent_id is Some && !store::has_session(
        store.sessions,
        request.parent_id->0,
    ) {
        Some(store::unprocessable_error("parent_id does not name a session"@))
    } else if store::has_session(store.sessions, id) {
        Some(store::internal_error())
    } else {
        None
    }
}

/// The session that a request asks for.
pub open spec fn requested_session(
    id: SessionId,
    request: CreateSessionView,
    now: Timestamp,
) -> SessionView {
    SessionView {
        id,
        title: request.title,
        lane: match request.lane {
            Some(lane) => lane,
            None => protocol::default_lane(),
        },
        profile: match request.profile {
            Some(profile) => profile,
            None => protocol::default_profile(),
        },
        runner_affinity: None,
        status: SessionStatus::Active,
        parent_id: request.parent_id,
        created_at: now,
        updated_at: now,
    }
}

/// What creating a session comes to: the books afterwards, with the session
/// and what is broadcast, or the refusal.
pub open spec fn create_ends(
    before: StoreView,
    id: SessionId,
    request: CreateSessionView,
    now: Timestamp,
    after: StoreView,
    outcome: Result<(SessionView, EffectsView), ErrorView>,
) -> bool {
    match outcome {
        Ok((session, effects)) => {
            &&& create_refusal(before, id, request) is None
            &&& session == requested_session(id, request, now)
            &&& after == StoreView { sessions: before.sessions.push(session), ..before }
            &&& effects == EffectsView {
                events: seq![
                    BroadcastView {
                        session_id: request.parent_id,
                        event: EventView::SessionCreated { session },
                    },
                ],
                wake: false,
            }
        },
        Err(error) => {
            &&& create_refusal(before, id, request) == Some(error)
            &&& after == before
        },
    }
}

impl Store {
    /// Creates a session under the identifier that the caller drew for it.
    pub fn create_session(
        &mut self,
        id: SessionId,
        request: CreateSessionRequest,
        now: Timestamp,
    ) -> (created: Result<(Session, Effects), ApiError>)
        requires
            store::wf(old(self)@),
        ensures
            store::wf(final(self)@),
            create_ends(
                old(self)@,
                id,
                request@,
                now,
                final(self)@,
                match created {
                    Ok((session, effects)) => Ok((session@, effects@)),
                    Err(error) => Err(error@),
                },
            ),
    {
        let ghost start = self@;
        if text::blank(&request.title) {
            return Err(ApiError::unprocessable("title is required"));
        }
        if let Err(error) = config::check_lane(&request.lane) {
            return Err(error);
        }
        if let Some(parent) = request.parent_id {
            match self.find_session(parent) {
                Some(k) => {
                    assert(self@.sessions[k as int].id == parent);
                },
                None => {
                    return Err(ApiError::unprocessable("parent_id does not name a session"));
                },
            }
        }
        if let Some(k) = self.find_session(id) {
            assert(self@.sessions[k as int].id == id);
            return Err(ApiError::internal());
        }
        let lane: Lane = match request.lane {
            Some(lane) => lane,
            None => Lane::default(),
        };
        let profile: SessionProfile = match request.profile {
            Some(profile) => profile,
            None => SessionProfile::default(),
        };
        let session: Session = Session {
            id,
            title: request.title,
            lane,
            profile,
            runner_affinity: None,
            status: SessionStatus::Active,
            parent_id: request.parent_id,
            created_at: now,
            updated_at: now,
        };
        let mut events: Vec<Broadcast> = Vec::new();
        events.push(
            Broadcast {
                session_id: session.parent_id,
                event: Event::SessionCreated { session: session.clone() },
            },
        );
        self.sessions.push(session.clone());
        proof {
            assert(self@.sessions =~= start.sessions.push(session@));
            assert(self@ =~= StoreView { sessions: start.sessions.push(session@), ..start });
            lemma_pushed_session_wf(start, session@);
            assert(store::events_view(events@) =~= seq![
                BroadcastView {
                    session_id: session.parent_id,
                    event: EventView::SessionCreated { session: session@ },
                },
            ]);
        }
        (Ok((session, Effects { events, wake: false })))
    }
}

/// A new session under a known parent keeps the books in order.
proof fn lemma_pushed_session_wf(store: StoreView, session: SessionView)
    requires
        store::wf(store),
        !store::has_session(store.sessions, session.id),
        session.parent_id is Some ==> store::has_session(store.sessions, session.parent_id->0),
    ensures
        store::wf(StoreView { sessions: store.sessions.push(session), ..store }),
{
    let after = store.sessions.push(session);
    assert forall|i: int, j: int| 0 <= i < j < after.len() implies (#[trigger] after[i]).id != (
    #[trigger] after[j]).id by {
        assert(after[i] == store.sessions[i]);
        if j < store.sessions.len() {
            assert(after[j] == store.sessions[j]);
        }
    }
    assert forall|i: int| 0 <= i < after.len() implies store::parent_comes_first(
        after,
        #[trigger] after[i],
        i,
    ) by {
        if i < store.sessions.len() {
            assert(store::parent_comes_first(store.sessions, store.sessions[i], i));
            if let Some(parent) = after[i].parent_id {
                let j = choose|j: int| 0 <= j < i && (#[trigger] store.sessions[j]).id == parent;
                assert(after[j].id == parent);
            }
        } else if let Some(parent) = session.parent_id {
            let j = choose|j: int|
                0 <= j < store.sessions.len() && (#[trigger] store.sessions[j]).id == parent;
            assert(after[j].id == parent);
        }
    }
    assert forall|i: int| 0 <= i < store.turns.len() implies store::has_session(
        after,
        (#[trigger] store.turns[i]).session_id,
    ) by {
        assert(store::has_session(store.sessions, store.turns[i].session_id));
        let k = choose|k: int|
            0 <= k < store.sessions.len() && (#[trigger] store.sessions[k]).id
                == store.turns[i].session_id;
        assert(after[k].id == store.turns[i].session_id);
    }
}

// ---------------------------------------------------------------------------
// Listing
// ---------------------------------------------------------------------------

/// The sessions that a list shows.
pub open spec fn shown(sessions: Seq<SessionView>, include_archived: bool) -> Seq<SessionView> {
    sessions.filter(
        |session: SessionView| include_archived || session.status == SessionStatus::Active,
    )
}

/// What is listed: the sessions that are shown, the one created last first.
pub open spec fn is_session_list(
    sessions: Seq<SessionView>,
    include_archived: bool,
    listed: Seq<SessionView>,
) -> bool {
    order::is_by_newest(
        shown(sessions, include_archived),
        |session: SessionView| Some(session.created_at),
        listed,
    )
}

/// What is listed of a session: itself and everything under it.
pub open spec fn tree_ends(
    sessions: Seq<SessionView>,
    root: SessionId,
    listed: Result<Seq<SessionView>, ErrorView>,
) -> bool {
    match listed {
        Ok(listed) => exists|at: int, places: Seq<int>|
            0 <= at < sessions.len() && sessions[at].id == root && #[trigger] tree::is_tree(
                sessions,
                at,
                places,
            ) && listed == order::arranged(sessions, places),
        Err(error) => !store::has_session(sessions, root) && error == store::not_found_error(
            "session"@,
        ),
    }
}

impl Store {
    /// The active sessions, or all of them, the newest first.
    pub fn list_sessions(&self, include_archived: bool) -> (listed: Vec<Session>)
        ensures
            is_session_list(self@.sessions, include_archived, store::session_rows(listed@)),
    {
        let ghost test = |session: SessionView|
            include_archived || session.status == SessionStatus::Active;
        let ghost time = |session: SessionView| Some(session.created_at);
        let mut chosen: Vec<usize> = Vec::new();
        let mut times: Vec<Option<Timestamp>> = Vec::new();
        let mut i: usize = 0;
        let ghost mut rows: Seq<SessionView> = Seq::empty();
        proof {
            reveal(Seq::filter);
            assert(self@.sessions.take(0).filter(test) =~= Seq::empty());
        }
        while i < self.sessions.len()
            invariant
                i <= self.sessions@.len(),
                test == (|session: SessionView|
                    include_archived || session.status == SessionStatus::Active),
                time == (|session: SessionView| Some(session.created_at)),
                rows == self@.sessions.take(i as int).filter(test),
                chosen@.len() == times@.len() == rows.len(),
                forall|k: int|
                    0 <= k < chosen@.len() ==> (#[trigger] chosen@[k]) < self.sessions@.len()
                        && self@.sessions[chosen@[k] as int] == rows[k],
                times@ == rows.map_values(time),
            decreases self.sessions@.len() - i,
        {
            proof {
                order::lemma_filter_take(self@.sessions, test, i as int);
            }
            if include_archived || self.sessions[i].status == SessionStatus::Active {
                chosen.push(i);
                times.push(Some(self.sessions[i].created_at));
                proof {
                    rows = rows.push(self@.sessions[i as int]);
                    assert(times@ =~= rows.map_values(time));
                }
            }
            i += 1;
        }
        proof {
            assert(self@.sessions.take(i as int) =~= self@.sessions);
        }
        let sorted: Vec<usize> = order::newest_first(&times);
        let mut listed: Vec<Session> = Vec::new();
        let mut k: usize = 0;
        while k < sorted.len()
            invariant
                k <= sorted@.len(),
                order::is_newest_first(times@, order::places(sorted@)),
                times@.len() == chosen@.len() == rows.len(),
                forall|m: int|
                    0 <= m < chosen@.len() ==> (#[trigger] chosen@[m]) < self.sessions@.len()
                        && self@.sessions[chosen@[m] as int] == rows[m],
                store::session_rows(listed@) == order::arranged(rows, order::places(sorted@)).take(
                    k as int,
                ),
            decreases sorted@.len() - k,
        {
            let ghost before = listed@;
            assert(order::places(sorted@)[k as int] == sorted@[k as int] as int);
            listed.push(self.sessions[chosen[sorted[k]]].clone());
            proof {
                let all = order::arranged(rows, order::places(sorted@));
                assert(store::session_rows(listed@) =~= store::session_rows(before).push(
                    all[k as int],
                ));
                assert(all.take(k + 1) =~= all.take(k as int).push(all[k as int]));
            }
            k += 1;
        }
        proof {
            let all = order::arranged(rows, order::places(sorted@));
            assert(all.take(k as int) =~= all);
            assert(order::is_newest_first(rows.map_values(time), order::places(sorted@)));
        }
        listed
    }

    /// The session and everything under it, parents before children.
    pub fn session_tree(&self, root: SessionId) -> (listed: Result<Vec<Session>, ApiError>)
        requires
            store::sessions_wf(self@.sessions),
        ensures
            tree_ends(
                self@.sessions,
                root,
                match listed {
                    Ok(sessions) => Ok(store::session_rows(sessions@)),
                    Err(error) => Err(error@),
                },
            ),
    {
        let at: usize = match self.find_session(root) {
            Some(at) => at,
            None => {
                return Err(ApiError::not_found("session"));
            },
        };
        let places: Vec<usize> = self.tree_places(at);
        let ghost spots = tree::places_of(places@);
        let mut listed: Vec<Session> = Vec::new();
        let mut k: usize = 0;
        while k < places.len()
            invariant
                k <= places@.len(),
                spots == tree::places_of(places@),
                tree::within(spots, self@.sessions.len() as int),
                store::session_rows(listed@) == order::arranged(self@.sessions, spots).take(
                    k as int,
                ),
            decreases places@.len() - k,
        {
            let ghost before = listed@;
            assert(spots[k as int] == places@[k as int] as int);
            listed.push(self.sessions[places[k]].clone());
            proof {
                let all = order::arranged(self@.sessions, spots);
                assert(store::session_rows(listed@) =~= store::session_rows(before).push(
                    all[k as int],
                ));
                assert(all.take(k + 1) =~= all.take(k as int).push(all[k as int]));
            }
            k += 1;
        }
        proof {
            let all = order::arranged(self@.sessions, spots);
            assert(all.take(k as int) =~= all);
            assert(tree::is_tree(self@.sessions, at as int, spots));
        }
        Ok(listed)
    }
}

} // verus!
