//! Sessions as a forest: a session and the sub-agents under it.

use vstd::prelude::*;

use crate::protocol::SessionView;
use crate::protocol::SessionId;
use crate::store;
use crate::store::Store;

verus! {

/// The session at `i` is a child of the session at `j`.
pub open spec fn is_child(sessions: Seq<SessionView>, j: int, i: int) -> bool {
    sessions[i].parent_id == Some(sessions[j].id)
}

/// Some session of identifier `child` has `parent` for its parent.
pub open spec fn child_of(
    sessions: Seq<SessionView>,
    parent: SessionId,
    child: SessionId,
) -> bool {
    exists|i: int|
        0 <= i < sessions.len() && (#[trigger] sessions[i]).id == child && sessions[i].parent_id
            == Some(parent)
}

/// Each step leads from a session to one of its children.
pub open spec fn is_path(sessions: Seq<SessionView>, path: Seq<SessionId>) -> bool {
    &&& path.len() > 0
    &&& forall|k: int|
        0 <= k < path.len() - 1 ==> child_of(sessions, #[trigger] path[k], path[k + 1])
}

/// The session `id` is `root`, or a sub-agent somewhere under it.
pub open spec fn descends(sessions: Seq<SessionView>, root: SessionId, id: SessionId) -> bool {
    exists|path: Seq<SessionId>| #[trigger]
        is_path(sessions, path) && path[0] == root && path.last() == id
}

/// The session at `i` was created before the one at `j`, or at the same
/// instant and stands before it.
pub open spec fn earlier(sessions: Seq<SessionView>, i: int, j: int) -> bool {
    sessions[i].created_at < sessions[j].created_at || (sessions[i].created_at
        == sessions[j].created_at && i < j)
}

/// Each session once.
pub open spec fn distinct(places: Seq<int>) -> bool {
    forall|a: int, b: int|
        0 <= a < b < places.len() ==> (#[trigger] places[a]) != (#[trigger] places[b])
}

/// Every place is one of `n`.
pub open spec fn within(places: Seq<int>, n: int) -> bool {
    forall|k: int| 0 <= k < places.len() ==> 0 <= (#[trigger] places[k]) < n
}

/// The parent of the session listed at `k` is listed before it.
pub open spec fn has_parent_before(
    sessions: Seq<SessionView>,
    places: Seq<int>,
    k: int,
    limit: int,
) -> bool {
    exists|j: int| 0 <= j < k && j < limit && is_child(sessions, #[trigger] places[j], places[k])
}

/// The children of the first `n` listed sessions are all listed.
pub open spec fn children_listed(sessions: Seq<SessionView>, places: Seq<int>, n: int) -> bool {
    forall|j: int, i: int|
        0 <= j < n && 0 <= i < sessions.len() && #[trigger] is_child(sessions, places[j], i)
            ==> places.contains(i)
}

/// The children of one parent come before those of a parent listed later, and
/// in the order in which they were created.
pub open spec fn breadth_first(sessions: Seq<SessionView>, places: Seq<int>) -> bool {
    forall|a: int, b: int, p: int, q: int|
        0 <= a < b < places.len() && 0 <= p < places.len() && 0 <= q < places.len()
            && #[trigger] is_child(sessions, places[p], places[a]) && #[trigger] is_child(
            sessions,
            places[q],
            places[b],
        ) ==> p < q || (p == q && earlier(sessions, places[a], places[b]))
}

/// `places` lists the session at `root` and everything under it: each once,
/// parents before children, level by level, siblings as they were created.
pub open spec fn is_tree(sessions: Seq<SessionView>, root: int, places: Seq<int>) -> bool {
    &&& places.len() > 0
    &&& places[0] == root
    &&& within(places, sessions.len() as int)
    &&& distinct(places)
    &&& forall|k: int|
        1 <= k < places.len() ==> #[trigger] has_parent_before(
            sessions,
            places,
            k,
            places.len() as int,
        )
    &&& children_listed(sessions, places, places.len() as int)
    &&& breadth_first(sessions, places)
}

/// Positions as integers.
pub open spec fn places_of(places: Seq<usize>) -> Seq<int> {
    places.map_values(|place: usize| place as int)
}

/// Distinct positions among `n` are at most `n`.
pub proof fn lemma_distinct_fit(places: Seq<int>, n: int)
    requires
        0 <= n,
        distinct(places),
        within(places, n),
    ensures
        places.len() <= n,
    decreases n,
{
    if places.len() > 0 {
        if n == 0 {
            assert(0 <= places[0] < n);
        } else if places.contains(n - 1) {
            let k = places.index_of(n - 1);
            let rest = places.remove(k);
            assert forall|m: int| 0 <= m < rest.len() implies 0 <= (#[trigger] rest[m]) < n - 1 by {
                if m < k {
                    assert(rest[m] == places[m]);
                    assert(places[m] != places[k]);
                } else {
                    assert(rest[m] == places[m + 1]);
                    assert(places[k] != places[m + 1]);
                }
            }
            assert forall|a: int, b: int| 0 <= a < b < rest.len() implies (#[trigger] rest[a]) != (
            #[trigger] rest[b]) by {
                let a2 = if a < k {
                    a
                } else {
                    a + 1
                };
                let b2 = if b < k {
                    b
                } else {
                    b + 1
                };
                assert(rest[a] == places[a2]);
                assert(rest[b] == places[b2]);
            }
            lemma_distinct_fit(rest, n - 1);
        } else {
            assert forall|m: int| 0 <= m < places.len() implies 0 <= (#[trigger] places[m]) < n
                - 1 by {
                if places[m] == n - 1 {
                    assert(places.contains(n - 1));
                }
            }
            lemma_distinct_fit(places, n - 1);
        }
    }
}

/// Among sessions with distinct identifiers a child has one parent.
proof fn lemma_one_parent(sessions: Seq<SessionView>, i: int, j: int, child: int)
    requires
        store::sessions_wf(sessions),
        0 <= i < sessions.len(),
        0 <= j < sessions.len(),
        is_child(sessions, i, child),
        is_child(sessions, j, child),
    ensures
        i == j,
{
    if i < j {
        assert(sessions[i].id != sessions[j].id);
    } else if j < i {
        assert(sessions[j].id != sessions[i].id);
    }
}

/// A parent stands before its child.
proof fn lemma_parent_stands_first(sessions: Seq<SessionView>, j: int, i: int)
    requires
        store::sessions_wf(sessions),
        0 <= i < sessions.len(),
        0 <= j < sessions.len(),
        is_child(sessions, j, i),
    ensures
        j < i,
{
    assert(store::parent_comes_first(sessions, sessions[i], i));
    let p = choose|p: int| 0 <= p < i && (#[trigger] sessions[p]).id == sessions[j].id;
    lemma_one_parent(sessions, p, j, i);
}

impl Store {
    /// The children of a session, in the order in which they were created.
    fn children(&self, parent: SessionId) -> (kids: Vec<usize>)
        ensures
            forall|k: int|
                0 <= k < kids@.len() ==> (#[trigger] kids@[k]) < self.sessions@.len()
                    && self@.sessions[kids@[k] as int].parent_id == Some(parent),
            forall|i: int|
                0 <= i < self.sessions@.len() && (#[trigger] self@.sessions[i]).parent_id == Some(
                    parent,
                ) ==> places_of(kids@).contains(i),
            forall|a: int, b: int|
                0 <= a < b < kids@.len() ==> earlier(
                    self@.sessions,
                    (#[trigger] kids@[a]) as int,
                    (#[trigger] kids@[b]) as int,
                ),
    {
        let mut kids: Vec<usize> = Vec::new();
        let mut i: usize = 0;
        while i < self.sessions.len()
            invariant
                i <= self.sessions@.len(),
                forall|k: int|
                    0 <= k < kids@.len() ==> (#[trigger] kids@[k]) < i
                        && self@.sessions[kids@[k] as int].parent_id == Some(parent),
                forall|m: int|
                    0 <= m < i && (#[trigger] self@.sessions[m]).parent_id == Some(parent)
                        ==> places_of(kids@).contains(m),
                forall|a: int, b: int|
                    0 <= a < b < kids@.len() ==> earlier(
                        self@.sessions,
                        (#[trigger] kids@[a]) as int,
                        (#[trigger] kids@[b]) as int,
                    ),
            decreases self.sessions@.len() - i,
        {
            let mine: bool = match self.sessions[i].parent_id {
                Some(id) => id == parent,
                None => false,
            };
            assert(mine == (self@.sessions[i as int].parent_id == Some(parent)));
            if mine {
                let ghost before = kids@;
                let mut pos: usize = kids.len();
                while pos > 0 && self.sessions[i].created_at < self.sessions[kids[pos
                    - 1]].created_at
                    invariant
                        pos <= kids@.len(),
                        i < self.sessions@.len(),
                        kids@ == before,
                        forall|k: int| 0 <= k < kids@.len() ==> (#[trigger] kids@[k]) < i,
                        forall|k: int|
                            pos <= k < kids@.len() ==> self@.sessions[i as int].created_at
                                < self@.sessions[(#[trigger] kids@[k]) as int].created_at,
                    decreases pos,
                {
                    pos -= 1;
                }
                kids.insert(pos, i);
                proof {
                    lemma_inserted_in_order(self@.sessions, before, kids@, pos as int, i);
                    assert forall|m: int|
                        0 <= m < i + 1 && (#[trigger] self@.sessions[m]).parent_id == Some(
                            parent,
                        ) implies places_of(kids@).contains(m) by {
                        if m == i {
                            assert(places_of(kids@)[pos as int] == i);
                        } else {
                            let k = places_of(before).index_of(m);
                            assert(places_of(before)[k] == m);
                            if k < pos {
                                assert(places_of(kids@)[k] == m);
                            } else {
                                assert(places_of(kids@)[k + 1] == m);
                            }
                        }
                    }
                }
            }
            i += 1;
        }
        kids
    }
}

/// Inserting the newest place behind all that are not later keeps the order.
proof fn lemma_inserted_in_order(
    sessions: Seq<SessionView>,
    before: Seq<usize>,
    after: Seq<usize>,
    pos: int,
    i: usize,
)
    requires
        0 <= pos <= before.len(),
        i < sessions.len(),
        after == before.insert(pos, i),
        forall|k: int| 0 <= k < before.len() ==> (#[trigger] before[k]) < i,
        forall|k: int|
            pos <= k < before.len() ==> sessions[i as int].created_at < sessions[(
            #[trigger] before[k]) as int].created_at,
        pos > 0 ==> sessions[before[pos - 1] as int].created_at <= sessions[i as int].created_at,
        forall|a: int, b: int|
            0 <= a < b < before.len() ==> earlier(
                sessions,
                (#[trigger] before[a]) as int,
                (#[trigger] before[b]) as int,
            ),
    ensures
        forall|a: int, b: int|
            0 <= a < b < after.len() ==> earlier(
                sessions,
                (#[trigger] after[a]) as int,
                (#[trigger] after[b]) as int,
            ),
        forall|k: int| 0 <= k < after.len() ==> (#[trigger] after[k]) == i || before.contains(
            after[k],
        ),
{
    assert forall|a: int, b: int| 0 <= a < b < after.len() implies earlier(
        sessions,
        (#[trigger] after[a]) as int,
        (#[trigger] after[b]) as int,
    ) by {
        let a2 = if a < pos {
            a
        } else {
            a - 1
        };
        let b2 = if b < pos {
            b
        } else {
            b - 1
        };
        if a == pos {
            assert(after[b] == before[b2]);
        } else if b == pos {
            assert(after[a] == before[a2]);
            if a2 < pos - 1 {
                assert(earlier(sessions, before[a2] as int, before[pos - 1] as int));
            }
        } else {
            assert(after[a] == before[a2]);
            assert(after[b] == before[b2]);
        }
    }
    assert forall|k: int| 0 <= k < after.len() implies (#[trigger] after[k]) == i
        || before.contains(after[k]) by {
        if k < pos {
            assert(after[k] == before[k]);
        } else if k > pos {
            assert(after[k] == before[k - 1]);
        }
    }
}

/// What holds while the children of the first `cursor` listed sessions have
/// been listed.
spec fn growing(sessions: Seq<SessionView>, root: int, places: Seq<int>, cursor: int) -> bool {
    &&& 0 <= cursor <= places.len()
    &&& places.len() > 0
    &&& places[0] == root
    &&& within(places, sessions.len() as int)
    &&& distinct(places)
    &&& forall|k: int|
        1 <= k < places.len() ==> #[trigger] has_parent_before(sessions, places, k, cursor)
    &&& forall|k: int| 0 <= k < places.len() ==> root <= #[trigger] places[k]
    &&& children_listed(sessions, places, cursor)
    &&& breadth_first(sessions, places)
}

/// Listing the children of the next session.
proof fn lemma_grow(
    sessions: Seq<SessionView>,
    root: int,
    places: Seq<int>,
    cursor: int,
    kids: Seq<int>,
)
    requires
        store::sessions_wf(sessions),
        growing(sessions, root, places, cursor),
        cursor < places.len(),
        forall|k: int|
            0 <= k < kids.len() ==> 0 <= (#[trigger] kids[k]) < sessions.len() && is_child(
                sessions,
                places[cursor],
                kids[k],
            ),
        forall|i: int|
            0 <= i < sessions.len() && #[trigger] is_child(sessions, places[cursor], i)
                ==> kids.contains(i),
        forall|a: int, b: int|
            0 <= a < b < kids.len() ==> earlier(
                sessions,
                #[trigger] kids[a],
                #[trigger] kids[b],
            ),
    ensures
        growing(sessions, root, places + kids, cursor + 1),
{
    let all = places + kids;
    let n = places.len() as int;
    assert forall|k: int| 0 <= k < all.len() implies 0 <= (#[trigger] all[k]) < sessions.len() && root <= all[k] by {
        if k < n {
            assert(all[k] == places[k]);
        } else {
            assert(all[k] == kids[k - n]);
            lemma_parent_stands_first(sessions, places[cursor], kids[k - n]);
        }
    }
    // Nothing is listed twice.
    assert forall|a: int, b: int| 0 <= a < b < all.len() implies (#[trigger] all[a]) != (
    #[trigger] all[b]) by {
        if b < n {
            assert(all[a] == places[a] && all[b] == places[b]);
        } else if a >= n {
            assert(all[a] == kids[a - n] && all[b] == kids[b - n]);
        } else {
            assert(all[a] == places[a] && all[b] == kids[b - n]);
            if places[a] == kids[b - n] {
                lemma_parent_stands_first(sessions, places[cursor], kids[b - n]);
                if a == 0 {
                    assert(root <= places[cursor]);
                } else {
                    assert(has_parent_before(sessions, places, a, cursor));
                    let j = choose|j: int|
                        0 <= j < a && j < cursor && is_child(
                            sessions,
                            #[trigger] places[j],
                            places[a],
                        );
                    lemma_one_parent(sessions, places[j], places[cursor], places[a]);
                    assert(places[j] != places[cursor]);
                }
            }
        }
    }
    assert forall|k: int| 1 <= k < all.len() implies #[trigger] has_parent_before(
        sessions,
        all,
        k,
        cursor + 1,
    ) by {
        if k < n {
            assert(has_parent_before(sessions, places, k, cursor));
            let j = choose|j: int|
                0 <= j < k && j < cursor && is_child(sessions, #[trigger] places[j], places[k]);
            assert(is_child(sessions, all[j], all[k]));
        } else {
            assert(all[k] == kids[k - n]);
            assert(is_child(sessions, all[cursor], all[k]));
        }
    }
    assert forall|j: int, i: int|
        0 <= j < cursor + 1 && 0 <= i < sessions.len() && #[trigger] is_child(
            sessions,
            all[j],
            i,
        ) implies all.contains(i) by {
        assert(all[j] == places[j]);
        if j < cursor {
            assert(is_child(sessions, places[j], i));
            let k = places.index_of(i);
            assert(all[k] == i);
        } else {
            let k = kids.index_of(i);
            assert(all[n + k] == i);
        }
    }
    assert forall|a: int, b: int, p: int, q: int|
        0 <= a < b < all.len() && 0 <= p < all.len() && 0 <= q < all.len() && #[trigger] is_child(
            sessions,
            all[p],
            all[a],
        ) && #[trigger] is_child(sessions, all[q], all[b]) implies p < q || (p == q && earlier(
        sessions,
        all[a],
        all[b],
    )) by {
        lemma_parent_place(sessions, root, places, cursor, kids, a, p);
        lemma_parent_place(sessions, root, places, cursor, kids, b, q);
        if b < n {
            assert(all[p] == places[p] && all[q] == places[q]);
            assert(is_child(sessions, places[p], places[a]));
            assert(is_child(sessions, places[q], places[b]));
        } else if a >= n {
            assert(all[a] == kids[a - n] && all[b] == kids[b - n]);
        }
    }
}

/// Among what is listed next, a session's parent is listed where its children
/// were taken from.
proof fn lemma_parent_place(
    sessions: Seq<SessionView>,
    root: int,
    places: Seq<int>,
    cursor: int,
    kids: Seq<int>,
    a: int,
    p: int,
)
    requires
        store::sessions_wf(sessions),
        growing(sessions, root, places, cursor),
        cursor < places.len(),
        distinct(places + kids),
        within(places + kids, sessions.len() as int),
        forall|k: int| 0 <= k < (places + kids).len() ==> root <= #[trigger] (places + kids)[k],
        forall|k: int| 0 <= k < kids.len() ==> is_child(sessions, places[cursor], #[trigger] kids[k]),
        0 <= a < (places + kids).len(),
        0 <= p < (places + kids).len(),
        is_child(sessions, (places + kids)[p], (places + kids)[a]),
    ensures
        a > 0,
        a < places.len() ==> p < cursor,
        a >= places.len() ==> p == cursor,
{
    let all = places + kids;
    let n = places.len() as int;
    assert(root <= all[p]);
    assert(0 <= all[p] < sessions.len());
    assert(0 <= all[a] < sessions.len());
    lemma_parent_stands_first(sessions, all[p], all[a]);
    assert(all[0] == root);
    if a < n {
        assert(has_parent_before(sessions, places, a, cursor));
        let j = choose|j: int|
            0 <= j < a && j < cursor && is_child(sessions, #[trigger] places[j], places[a]);
        assert(all[j] == places[j]);
        lemma_one_parent(sessions, all[j], all[p], all[a]);
        lemma_same_place(all, j, p);
    } else {
        assert(all[a] == kids[a - n]);
        assert(all[cursor] == places[cursor]);
        lemma_one_parent(sessions, all[cursor], all[p], all[a]);
        lemma_same_place(all, cursor, p);
    }
}

proof fn lemma_same_place(places: Seq<int>, a: int, b: int)
    requires
        distinct(places),
        0 <= a < places.len(),
        0 <= b < places.len(),
        places[a] == places[b],
    ensures
        a == b,
{
    if a < b {
        assert(places[a] != places[b]);
    } else if b < a {
        assert(places[b] != places[a]);
    }
}

impl Store {
    /// Where the session at `root` and everything under it stand.
    pub fn tree_places(&self, root: usize) -> (places: Vec<usize>)
        requires
            store::sessions_wf(self@.sessions),
            root < self.sessions@.len(),
        ensures
            is_tree(self@.sessions, root as int, places_of(places@)),
    {
        let mut places: Vec<usize> = Vec::new();
        places.push(root);
        let mut cursor: usize = 0;
        proof {
            let start = places_of(places@);
            assert(start.len() == 1 && start[0] == root);
            assert forall|a: int, b: int, p: int, q: int|
                0 <= a < b < start.len() && 0 <= p < start.len() && 0 <= q < start.len()
                    && #[trigger] is_child(self@.sessions, start[p], start[a])
                    && #[trigger] is_child(self@.sessions, start[q], start[b]) implies p < q || (p
                == q && earlier(self@.sessions, start[a], start[b])) by {}
            assert(growing(self@.sessions, root as int, start, 0));
        }
        while cursor < places.len()
            invariant
                store::sessions_wf(self@.sessions),
                growing(self@.sessions, root as int, places_of(places@), cursor as int),
            decreases self.sessions@.len() - cursor,
        {
            proof {
                lemma_distinct_fit(places_of(places@), self@.sessions.len() as int);
                assert(places_of(places@)[cursor as int] < self@.sessions.len());
            }
            let mut kids: Vec<usize> = self.children(self.sessions[places[cursor]].id);
            proof {
                let listed = places_of(places@);
                let more = places_of(kids@);
                let at = listed[cursor as int];
                assert forall|k: int| 0 <= k < more.len() implies 0 <= (#[trigger] more[k])
                    < self@.sessions.len() && is_child(self@.sessions, at, more[k]) by {
                    assert(more[k] == kids@[k] as int);
                }
                assert forall|i: int|
                    0 <= i < self@.sessions.len() && #[trigger] is_child(
                        self@.sessions,
                        at,
                        i,
                    ) implies more.contains(i) by {
                    assert(self@.sessions[i].parent_id == Some(self@.sessions[at].id));
                }
                assert forall|a: int, b: int| 0 <= a < b < more.len() implies earlier(
                    self@.sessions,
                    #[trigger] more[a],
                    #[trigger] more[b],
                ) by {
                    assert(more[a] == kids@[a] as int && more[b] == kids@[b] as int);
                }
                lemma_grow(self@.sessions, root as int, listed, cursor as int, more);
                assert(places_of(places@ + kids@) =~= listed + more);
            }
            places.append(&mut kids);
            cursor += 1;
        }
        places
    }
}

// ---------------------------------------------------------------------------
// The tree holds the descendants
// ---------------------------------------------------------------------------

/// Some listed session has this identifier.
pub open spec fn lists(sessions: Seq<SessionView>, places: Seq<int>, id: SessionId) -> bool {
    exists|k: int| 0 <= k < places.len() && sessions[#[trigger] places[k]].id == id
}

/// Everything listed is the root or somewhere under it.
proof fn lemma_listed_descends(sessions: Seq<SessionView>, root: int, places: Seq<int>, k: int)
    requires
        is_tree(sessions, root, places),
        0 <= k < places.len(),
    ensures
        descends(sessions, sessions[root].id, sessions[places[k]].id),
    decreases k,
{
    let top = sessions[root].id;
    if k == 0 {
        let path = seq![top];
        assert(is_path(sessions, path));
        assert(path.last() == top);
    } else {
        assert(has_parent_before(sessions, places, k, places.len() as int));
        let j = choose|j: int|
            0 <= j < k && j < places.len() && is_child(sessions, #[trigger] places[j], places[k]);
        lemma_listed_descends(sessions, root, places, j);
        let path = choose|path: Seq<SessionId>| #[trigger]
            is_path(sessions, path) && path[0] == top && path.last() == sessions[places[j]].id;
        let longer = path.push(sessions[places[k]].id);
        assert forall|m: int| 0 <= m < longer.len() - 1 implies child_of(
            sessions,
            #[trigger] longer[m],
            longer[m + 1],
        ) by {
            if m < path.len() - 1 {
                assert(child_of(sessions, path[m], path[m + 1]));
            } else {
                assert(0 <= places[k] < sessions.len());
                assert(sessions[places[k]].parent_id == Some(longer[m]));
            }
        }
        assert(is_path(sessions, longer));
        assert(longer.last() == sessions[places[k]].id);
    }
}

/// A path from the root stays within what is listed.
proof fn lemma_path_listed(
    sessions: Seq<SessionView>,
    root: int,
    places: Seq<int>,
    path: Seq<SessionId>,
    m: int,
)
    requires
        is_tree(sessions, root, places),
        is_path(sessions, path),
        path[0] == sessions[root].id,
        0 <= m < path.len(),
    ensures
        lists(sessions, places, path[m]),
    decreases m,
{
    if m == 0 {
        assert(sessions[places[0]].id == path[0]);
    } else {
        lemma_path_listed(sessions, root, places, path, m - 1);
        let j = choose|j: int|
            0 <= j < places.len() && sessions[#[trigger] places[j]].id == path[m - 1];
        assert(child_of(sessions, path[m - 1], path[m - 1 + 1]));
        let i = choose|i: int|
            0 <= i < sessions.len() && (#[trigger] sessions[i]).id == path[m]
                && sessions[i].parent_id == Some(path[m - 1]);
        assert(is_child(sessions, places[j], i));
        let k = places.index_of(i);
        assert(sessions[places[k]].id == path[m]);
    }
}

/// The tree of a session lists exactly the session and what descends from it.
pub proof fn tree_lists_the_descendants(
    sessions: Seq<SessionView>,
    root: int,
    places: Seq<int>,
    id: SessionId,
)
    requires
        is_tree(sessions, root, places),
    ensures
        lists(sessions, places, id) <==> descends(sessions, sessions[root].id, id),
{
    if lists(sessions, places, id) {
        let k = choose|k: int| 0 <= k < places.len() && sessions[#[trigger] places[k]].id == id;
        lemma_listed_descends(sessions, root, places, k);
    }
    if descends(sessions, sessions[root].id, id) {
        let path = choose|path: Seq<SessionId>| #[trigger]
            is_path(sessions, path) && path[0] == sessions[root].id && path.last() == id;
        lemma_path_listed(sessions, root, places, path, path.len() - 1);
    }
}

/// What descends from a child descends from its parent.
pub proof fn lemma_child_descends(
    sessions: Seq<SessionView>,
    root: SessionId,
    parent: SessionId,
    child: SessionId,
)
    requires
        descends(sessions, root, parent),
        child_of(sessions, parent, child),
    ensures
        descends(sessions, root, child),
{
    let path = choose|path: Seq<SessionId>| #[trigger]
        is_path(sessions, path) && path[0] == root && path.last() == parent;
    let longer = path.push(child);
    assert forall|m: int| 0 <= m < longer.len() - 1 implies child_of(
        sessions,
        #[trigger] longer[m],
        longer[m + 1],
    ) by {
        if m < path.len() - 1 {
            assert(child_of(sessions, path[m], path[m + 1]));
        }
    }
    assert(is_path(sessions, longer));
    assert(longer.last() == child);
}

} // verus!
