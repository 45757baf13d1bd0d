//! The in-memory repository the coordinators operate on, and the queue
//! ledger's central invariant: queue positions form a dense sequence
//! `1..N` with no gaps and no duplicates.

use vstd::prelude::*;

use crate::models::dj::{Dj, GuestRequestRecord};
use crate::models::event_session::EventSession;
use crate::models::lottery::LotteryDraw;
use crate::models::session::Session;
use crate::utils::strings::str_eq;
use crate::MAX_POOL;
use vstd::set_lib::{lemma_int_range, lemma_len_subset, lemma_map_size, set_int_range};

verus! {

/// Whether index `i` names a performer holding a queue position.
pub open spec fn queued(djs: Seq<Dj>, i: int) -> bool {
    0 <= i < djs.len() && djs[i].position_in_queue is Some
}

/// The queue position at index `i` (meaningful only where `queued`).
pub open spec fn pos_at(djs: Seq<Dj>, i: int) -> int {
    djs[i].position_in_queue->0 as int
}

/// Whether some performer holds queue position `p`.
pub open spec fn occupied(djs: Seq<Dj>, p: int) -> bool {
    exists|i: int| queued(djs, i) && pos_at(djs, i) == p
}

/// The ledger's core invariant. Positions lie in `[1, len]`, no two
/// performers share one, and below every held position every lower
/// position down to 1 is held too: together, the held positions are
/// exactly `1..N` for `N` the number of queued performers.
pub open spec fn queue_wf(djs: Seq<Dj>) -> bool {
    &&& forall|i: int| queued(djs, i) ==> 1 <= pos_at(djs, i) <= djs.len()
    &&& forall|i: int, j: int|
        queued(djs, i) && queued(djs, j) && i != j ==> pos_at(djs, i) != pos_at(djs, j)
    &&& forall|i: int|
        queued(djs, i) && pos_at(djs, i) > 1 ==> occupied(djs, pos_at(djs, i) - 1)
}

/// Every performer on the roster is well-formed.
pub open spec fn djs_wf(djs: Seq<Dj>) -> bool {
    forall|i: int| 0 <= i < djs.len() ==> (#[trigger] djs[i]).wf()
}

/// Every event row is well-formed and at most one is active - the hard
/// invariant guarded before any new event is created.
pub open spec fn events_wf(events: Seq<EventSession>) -> bool {
    &&& forall|i: int| 0 <= i < events.len() ==> (#[trigger] events[i]).wf()
    &&& forall|i: int, j: int|
        0 <= i < events.len() && 0 <= j < events.len() && (#[trigger] events[i]).spec_is_active()
            && (#[trigger] events[j]).spec_is_active() ==> i == j
}

/// Every session row is well-formed.
pub open spec fn sessions_wf(sessions: Seq<Session>) -> bool {
    forall|i: int| 0 <= i < sessions.len() ==> (#[trigger] sessions[i]).wf()
}

/// The repository behind the coordinators: performers, the append-only
/// draw log, event rows and session rows. A stand-in for the storage
/// collaborator, holding the same tables as plain vectors.
pub struct Store {
    pub djs: Vec<Dj>,
    pub draws: Vec<LotteryDraw>,
    pub events: Vec<EventSession>,
    pub sessions: Vec<Session>,
    pub guest_requests: Vec<GuestRequestRecord>,
}

impl Store {
    /// The repository's invariant.
    pub open spec fn wf(&self) -> bool {
        &&& self.djs@.len() <= MAX_POOL
        &&& djs_wf(self.djs@)
        &&& queue_wf(self.djs@)
        &&& events_wf(self.events@)
        &&& sessions_wf(self.sessions@)
    }

    /// An empty repository.
    pub fn new() -> (r: Store)
        ensures
            r.djs@.len() == 0,
            r.draws@.len() == 0,
            r.events@.len() == 0,
            r.sessions@.len() == 0,
            r.guest_requests@.len() == 0,
            r.wf(),
    {
        Store {
            djs: Vec::new(),
            draws: Vec::new(),
            events: Vec::new(),
            sessions: Vec::new(),
            guest_requests: Vec::new(),
        }
    }
}

/// Whether `k` is the first roster index whose performer carries `id`.
pub open spec fn first_dj_match(djs: Seq<Dj>, id: Seq<char>, k: int) -> bool {
    &&& 0 <= k < djs.len()
    &&& djs[k].id@ == id
    &&& forall|j: int| 0 <= j < k ==> djs[j].id@ != id
}

/// No performer on the roster carries `id`.
pub open spec fn no_dj_match(djs: Seq<Dj>, id: Seq<char>) -> bool {
    forall|j: int| 0 <= j < djs.len() ==> djs[j].id@ != id
}

/// The first roster index carrying `id`, if any.
pub fn find_dj_index(djs: &Vec<Dj>, id: &str) -> (r: Option<usize>)
    ensures
        r is Some ==> first_dj_match(djs@, id@, r->0 as int),
        r is None ==> no_dj_match(djs@, id@),
{
    let n: usize = djs.len();
    let mut i: usize = 0;
    while i < n
        invariant
            n == djs@.len(),
            0 <= i <= n,
            forall|j: int| 0 <= j < i ==> djs@[j].id@ != id@,
        decreases n - i,
    {
        if str_eq(djs[i].id.as_str(), id) {
            return Some(i);
        }
        i = i + 1;
    }
    None
}

/// The index of the performer holding queue position `p`, if any.
pub fn find_by_position(djs: &Vec<Dj>, p: i32) -> (r: Option<usize>)
    ensures
        r is Some ==> queued(djs@, r->0 as int) && pos_at(djs@, r->0 as int) == p,
        r is None ==> !occupied(djs@, p as int),
{
    let n: usize = djs.len();
    let mut i: usize = 0;
    while i < n
        invariant
            n == djs@.len(),
            0 <= i <= n,
            forall|j: int| 0 <= j < i ==> !(queued(djs@, j) && pos_at(djs@, j) == p),
        decreases n - i,
    {
        match djs[i].position_in_queue {
            Some(q) => {
                if q == p {
                    return Some(i);
                }
            },
            None => {},
        }
        i = i + 1;
    }
    None
}

/// The highest queue position on the roster, 0 where nobody is queued.
pub open spec fn spec_max_pos(djs: Seq<Dj>) -> int
    decreases djs.len(),
{
    if djs.len() == 0 {
        0
    } else {
        let rest = spec_max_pos(djs.drop_last());
        let last = djs.len() - 1;
        if queued(djs, last) && pos_at(djs, last) > rest {
            pos_at(djs, last)
        } else {
            rest
        }
    }
}

/// The highest position bounds every held position, and is itself held
/// unless it is 0.
pub proof fn lemma_max_pos_properties(djs: Seq<Dj>)
    ensures
        forall|i: int| queued(djs, i) ==> pos_at(djs, i) <= spec_max_pos(djs),
        spec_max_pos(djs) != 0 ==> occupied(djs, spec_max_pos(djs)),
        spec_max_pos(djs) >= 0,
    decreases djs.len(),
{
    if djs.len() > 0 {
        let prefix = djs.drop_last();
        lemma_max_pos_properties(prefix);
        let last = djs.len() - 1;
        assert(forall|i: int| queued(prefix, i) <==> (queued(djs, i) && i < last));
        assert(forall|i: int| queued(prefix, i) ==> pos_at(prefix, i) == pos_at(djs, i));
        if spec_max_pos(prefix) != 0 && !(queued(djs, last) && pos_at(djs, last) > spec_max_pos(
            prefix,
        )) {
            let w = choose|i: int|
                queued(prefix, i) && pos_at(prefix, i) == spec_max_pos(prefix);
            assert(queued(djs, w) && pos_at(djs, w) == spec_max_pos(djs));
        }
    }
}

/// The highest queue position on the roster.
pub fn max_queue_position(djs: &Vec<Dj>) -> (m: i32)
    ensures
        m as int == spec_max_pos(djs@),
        m >= 0,
{
    let n: usize = djs.len();
    let mut max: i32 = 0;
    let mut i: usize = 0;
    while i < n
        invariant
            n == djs@.len(),
            0 <= i <= n,
            max >= 0,
            max as int == spec_max_pos(djs@.take(i as int)),
        decreases n - i,
    {
        proof {
            lemma_max_pos_properties(djs@.take(i as int));
            assert(djs@.take(i as int + 1).drop_last() =~= djs@.take(i as int));
            assert(djs@.take(i as int + 1).last() == djs@[i as int]);
        }
        match djs[i].position_in_queue {
            Some(p) => {
                proof {
                    assert(queued(djs@.take(i as int + 1), i as int));
                    assert(pos_at(djs@.take(i as int + 1), i as int) == p as int);
                }
                if p > max {
                    max = p;
                }
            },
            None => {
                proof {
                    assert(!queued(djs@.take(i as int + 1), i as int));
                }
            },
        }
        i = i + 1;
    }
    proof {
        assert(djs@.take(n as int) =~= djs@);
    }
    max
}

/// Whether some event row is still active.
pub open spec fn has_active_event(events: Seq<EventSession>) -> bool {
    exists|i: int| 0 <= i < events.len() && (#[trigger] events[i]).spec_is_active()
}

/// The index of the active event row, if any.
pub fn find_active_event_index(events: &Vec<EventSession>) -> (r: Option<usize>)
    ensures
        r is Some ==> 0 <= r->0 < events@.len() && events@[r->0 as int].spec_is_active(),
        r is None ==> !has_active_event(events@),
{
    let n: usize = events.len();
    let mut i: usize = 0;
    while i < n
        invariant
            n == events@.len(),
            0 <= i <= n,
            forall|j: int| 0 <= j < i ==> !(#[trigger] events@[j]).spec_is_active(),
        decreases n - i,
    {
        if events[i].is_active() {
            return Some(i);
        }
        i = i + 1;
    }
    None
}

/// Every position from 1 up to any held position is held: the ledger has
/// no gaps.
pub proof fn lemma_positions_downward(djs: Seq<Dj>, p: int, q: int)
    requires
        queue_wf(djs),
        occupied(djs, p),
        1 <= q <= p,
    ensures
        occupied(djs, q),
    decreases p - q,
{
    if q < p {
        let i = choose|i: int| queued(djs, i) && pos_at(djs, i) == p;
        assert(occupied(djs, p - 1));
        lemma_positions_downward(djs, p - 1, q);
    }
}

/// Pigeonhole headroom: while some performer is unqueued, every held
/// position lies strictly below the roster's size, so appending at
/// `max + 1` stays in range.
pub proof fn lemma_unqueued_headroom(djs: Seq<Dj>, k: int)
    requires
        queue_wf(djs),
        0 <= k < djs.len(),
        djs[k].position_in_queue is None,
    ensures
        forall|p: int| occupied(djs, p) ==> p < djs.len(),
{
    let len = djs.len() as int;
    assert forall|p: int| occupied(djs, p) implies p < len by {
        let i0 = choose|i: int| queued(djs, i) && pos_at(djs, i) == p;
        assert(p <= len);
        if p == len {
            // Positions 1..=len are all held, yet index k holds none:
            // an injection from len positions into len - 1 indices.
            lemma_positions_downward(djs, len, 1);
            assert(forall|q: int| 1 <= q <= len ==> occupied(djs, q)) by {
                assert forall|q: int| 1 <= q <= len implies occupied(djs, q) by {
                    lemma_positions_downward(djs, len, q);
                }
            }
            let positions = set_int_range(1, len + 1);
            let witness = |q: int| choose|i: int| queued(djs, i) && pos_at(djs, i) == q;
            let indices = positions.map(witness);
            lemma_int_range(1, len + 1);
            assert(vstd::relations::injective_on(witness, positions)) by {
                assert forall|a: int, b: int|
                    positions.contains(a) && positions.contains(b) && #[trigger] witness(a)
                        == #[trigger] witness(b) implies a == b by {
                    assert(occupied(djs, a));
                    assert(occupied(djs, b));
                    assert(queued(djs, witness(a)) && pos_at(djs, witness(a)) == a);
                    assert(queued(djs, witness(b)) && pos_at(djs, witness(b)) == b);
                }
            }
            lemma_map_size(positions, indices, witness);
            let holes = set_int_range(0, len).remove(k);
            assert(indices.subset_of(holes)) by {
                assert forall|x: int| indices.contains(x) implies holes.contains(x) by {
                    let q = choose|q: int| positions.contains(q) && witness(q) == x;
                    assert(occupied(djs, q));
                    assert(queued(djs, witness(q)) && pos_at(djs, witness(q)) == q);
                }
            }
            lemma_int_range(0, len);
            assert(holes.len() == len - 1);
            lemma_len_subset(indices, holes);
            assert(false);
        }
    }
}

} // verus!
