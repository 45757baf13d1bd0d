//! The lottery coordinator and the queue ledger: drawing the next
//! performer, and assigning, shifting and renumbering the dense queue
//! positions.

use vstd::prelude::*;

use crate::errors::DjSystemError;
use crate::models::dj::{spec_dj_response, Dj, DjResponse};
use crate::models::event_session::EventSession;
use crate::models::lottery::{
    draw_like, participants_wf, winner_among, LotteryDraw, LotteryStatistics,
};
use crate::services::store::{
    find_active_event_index, find_by_position, find_dj_index, first_dj_match,
    lemma_max_pos_properties, lemma_positions_downward, lemma_unqueued_headroom,
    max_queue_position, no_dj_match, occupied, pos_at, queue_wf, queued, spec_max_pos, Store,
};

verus! {

/// One roster entry after a removal at position `p`: the removed
/// performer loses their position, every higher position drops by one,
/// everything else stays.
pub open spec fn remove_entry(d: Dj, is_removed: bool, p: int) -> Dj {
    if is_removed {
        Dj { position_in_queue: None, ..d }
    } else if d.position_in_queue is Some && d.position_in_queue->0 > p {
        Dj { position_in_queue: Some((d.position_in_queue->0 - 1) as i32), ..d }
    } else {
        d
    }
}

/// The roster after clearing the position of the performer at index `k`
/// (who held position `p`) and pulling every higher position down by one:
/// the renumbering that keeps the ledger dense.
pub open spec fn remove_shift(djs: Seq<Dj>, k: int, p: int) -> Seq<Dj> {
    djs.map(|i: int, d: Dj| remove_entry(d, i == k, p))
}

/// Clearing a held position and renumbering keeps the ledger dense.
#[verifier::rlimit(50)]
pub proof fn lemma_remove_preserves_queue_wf(djs: Seq<Dj>, k: int, p: int)
    requires
        queue_wf(djs),
        queued(djs, k),
        pos_at(djs, k) == p,
    ensures
        queue_wf(remove_shift(djs, k, p)),
{
    let shifted = remove_shift(djs, k, p);
    assert(shifted.len() == djs.len());
    assert(forall|i: int|
        0 <= i < djs.len() ==> #[trigger] shifted[i] == remove_entry(djs[i], i == k, p));

    // Bounds.
    assert forall|i: int| queued(shifted, i) implies 1 <= pos_at(shifted, i) <= shifted.len() by {
        assert(shifted[i] == remove_entry(djs[i], i == k, p));
        assert(queued(djs, i));
    }

    // Injectivity: the renumbering is strictly monotone on the surviving
    // positions.
    assert forall|i: int, j: int|
        queued(shifted, i) && queued(shifted, j) && i != j implies pos_at(shifted, i) != pos_at(
        shifted,
        j,
    ) by {
        assert(shifted[i] == remove_entry(djs[i], i == k, p));
        assert(shifted[j] == remove_entry(djs[j], j == k, p));
        assert(queued(djs, i) && queued(djs, j));
        assert(pos_at(djs, i) != pos_at(djs, j));
        assert(pos_at(djs, i) == p ==> i == k);
        assert(pos_at(djs, j) == p ==> j == k);
    }

    // No gaps: below every held position of the renumbered roster, the
    // next one down is still held.
    assert forall|i: int|
        queued(shifted, i) && pos_at(shifted, i) > 1 implies occupied(
        shifted,
        pos_at(shifted, i) - 1,
    ) by {
        assert(shifted[i] == remove_entry(djs[i], i == k, p));
        assert(queued(djs, i) && i != k);
        let r = pos_at(shifted, i);
        let q = pos_at(djs, i);
        if q < p {
            // Untouched entry: its old predecessor is untouched too.
            assert(occupied(djs, q - 1));
            let j = choose|j: int| queued(djs, j) && pos_at(djs, j) == q - 1;
            assert(shifted[j] == remove_entry(djs[j], j == k, p));
            assert(j != k);
            assert(queued(shifted, j) && pos_at(shifted, j) == r - 1);
        } else {
            // Shifted entry, old position q == r + 1 > p.
            assert(q > p && r == q - 1);
            if r == p {
                // Its new predecessor is the old predecessor of the
                // removed performer.
                assert(queued(djs, k) && pos_at(djs, k) == p && p > 1);
                assert(occupied(djs, p - 1));
                let j = choose|j: int| queued(djs, j) && pos_at(djs, j) == p - 1;
                assert(shifted[j] == remove_entry(djs[j], j == k, p));
                assert(j != k);
                assert(queued(shifted, j) && pos_at(shifted, j) == r - 1);
            } else {
                // r > p: the old holder of r moves down to r - 1.
                assert(occupied(djs, q - 1));
                let j = choose|j: int| queued(djs, j) && pos_at(djs, j) == q - 1;
                assert(shifted[j] == remove_entry(djs[j], j == k, p));
                assert(j != k);
                assert(queued(shifted, j) && pos_at(shifted, j) == r - 1);
            }
        }
    }
}

/// One roster entry after a move from `cur` to `new_pos`: the moved
/// performer takes `new_pos`, the block between the two positions shifts
/// by one toward the vacated end, everything else stays.
pub open spec fn move_entry(d: Dj, is_moved: bool, cur: int, new_pos: int) -> Dj {
    if is_moved {
        Dj { position_in_queue: Some(new_pos as i32), ..d }
    } else if d.position_in_queue is Some && new_pos < cur && new_pos <= d.position_in_queue->0
        < cur {
        Dj { position_in_queue: Some((d.position_in_queue->0 + 1) as i32), ..d }
    } else if d.position_in_queue is Some && new_pos > cur && cur < d.position_in_queue->0
        <= new_pos {
        Dj { position_in_queue: Some((d.position_in_queue->0 - 1) as i32), ..d }
    } else {
        d
    }
}

/// The roster after moving the performer at index `k` from position `cur`
/// to position `new_pos`.
pub open spec fn move_shift(djs: Seq<Dj>, k: int, cur: int, new_pos: int) -> Seq<Dj> {
    djs.map(|i: int, d: Dj| move_entry(d, i == k, cur, new_pos))
}

/// Moving a performer within `[1, N]` permutes the held positions: the
/// ledger stays dense.
#[verifier::rlimit(50)]
pub proof fn lemma_move_preserves_queue_wf(djs: Seq<Dj>, k: int, cur: int, new_pos: int)
    requires
        queue_wf(djs),
        queued(djs, k),
        pos_at(djs, k) == cur,
        1 <= new_pos <= spec_max_pos(djs),
    ensures
        queue_wf(move_shift(djs, k, cur, new_pos)),
{
    let shifted = move_shift(djs, k, cur, new_pos);
    let max = spec_max_pos(djs);
    lemma_max_pos_properties(djs);
    assert(occupied(djs, max));
    assert(max <= djs.len()) by {
        let w = choose|i: int| queued(djs, i) && pos_at(djs, i) == max;
    }
    assert(shifted.len() == djs.len());
    assert(forall|i: int|
        0 <= i < djs.len() ==> #[trigger] shifted[i] == move_entry(djs[i], i == k, cur, new_pos));

    // Every new position stays within [1, max].
    assert forall|i: int| queued(shifted, i) implies 1 <= pos_at(shifted, i) <= max by {
        assert(shifted[i] == move_entry(djs[i], i == k, cur, new_pos));
        assert(queued(djs, i));
    }

    // Injectivity.
    assert forall|i: int, j: int|
        queued(shifted, i) && queued(shifted, j) && i != j implies pos_at(shifted, i) != pos_at(
        shifted,
        j,
    ) by {
        assert(shifted[i] == move_entry(djs[i], i == k, cur, new_pos));
        assert(shifted[j] == move_entry(djs[j], j == k, cur, new_pos));
        assert(queued(djs, i) && queued(djs, j));
        assert(pos_at(djs, i) != pos_at(djs, j));
        assert(pos_at(djs, i) == cur ==> i == k);
        assert(pos_at(djs, j) == cur ==> j == k);
    }

    // Every position in [1, max] is still held: the held set is a
    // permutation of the old one, so it remains gapless.
    assert forall|v: int| 1 <= v <= max implies occupied(shifted, v) by {
        if v == new_pos {
            assert(shifted[k] == move_entry(djs[k], true, cur, new_pos));
            assert(queued(shifted, k) && pos_at(shifted, k) == v);
        } else if new_pos < cur && new_pos <= v <= cur {
            // Block shifted up: v is covered by the old holder of v - 1.
            assert(occupied(djs, v - 1)) by {
                lemma_positions_downward(djs, max, v - 1);
            }
            let j = choose|j: int| queued(djs, j) && pos_at(djs, j) == v - 1;
            assert(shifted[j] == move_entry(djs[j], j == k, cur, new_pos));
            assert(j != k);
            assert(queued(shifted, j) && pos_at(shifted, j) == v);
        } else if new_pos > cur && cur <= v < new_pos {
            // Block shifted down: v is covered by the old holder of v + 1.
            assert(occupied(djs, v + 1)) by {
                lemma_positions_downward(djs, max, v + 1);
            }
            let j = choose|j: int| queued(djs, j) && pos_at(djs, j) == v + 1;
            assert(shifted[j] == move_entry(djs[j], j == k, cur, new_pos));
            assert(j != k);
            assert(queued(shifted, j) && pos_at(shifted, j) == v);
        } else {
            // Outside the block: the old holder keeps v.
            assert(occupied(djs, v)) by {
                lemma_positions_downward(djs, max, v);
            }
            let j = choose|j: int| queued(djs, j) && pos_at(djs, j) == v;
            assert(shifted[j] == move_entry(djs[j], j == k, cur, new_pos));
            assert(j != k);
            assert(queued(shifted, j) && pos_at(shifted, j) == v);
        }
    }

    assert forall|i: int|
        queued(shifted, i) && pos_at(shifted, i) > 1 implies occupied(
        shifted,
        pos_at(shifted, i) - 1,
    ) by {
        assert(1 <= pos_at(shifted, i) - 1 <= max);
    }
}

/// Two rosters that agree position-for-position have the same highest
/// position.
pub proof fn lemma_max_pos_same(a: Seq<Dj>, b: Seq<Dj>)
    requires
        a.len() == b.len(),
        forall|i: int|
            0 <= i < a.len() ==> (#[trigger] a[i]).position_in_queue == b[i].position_in_queue,
    ensures
        spec_max_pos(a) == spec_max_pos(b),
    decreases a.len(),
{
    if a.len() > 0 {
        lemma_max_pos_same(a.drop_last(), b.drop_last());
        assert(a.drop_last().len() == a.len() - 1);
        assert(forall|i: int|
            0 <= i < a.len() - 1 ==> (#[trigger] a.drop_last()[i]).position_in_queue
                == b.drop_last()[i].position_in_queue);
    }
}

/// Dropping an unqueued entry from the roster keeps the ledger dense:
/// the held positions are untouched and the roster only shrinks.
pub proof fn lemma_remove_unqueued_entry(djs: Seq<Dj>, k: int)
    requires
        queue_wf(djs),
        0 <= k < djs.len(),
        djs[k].position_in_queue is None,
    ensures
        queue_wf(djs.remove(k)),
{
    let out = djs.remove(k);
    lemma_unqueued_headroom(djs, k);
    assert(out.len() == djs.len() - 1);
    assert(forall|i: int| 0 <= i < k ==> #[trigger] out[i] == djs[i]);
    assert(forall|i: int| k <= i < out.len() ==> #[trigger] out[i] == djs[i + 1]);
    let back = |i: int| if i < k { i } else { i + 1 };
    assert forall|i: int| queued(out, i) implies 1 <= pos_at(out, i) <= out.len() by {
        assert(queued(djs, back(i)) && pos_at(djs, back(i)) == pos_at(out, i));
        assert(occupied(djs, pos_at(djs, back(i))));
    }
    assert forall|i: int, j: int|
        queued(out, i) && queued(out, j) && i != j implies pos_at(out, i) != pos_at(out, j) by {
        assert(queued(djs, back(i)) && pos_at(djs, back(i)) == pos_at(out, i));
        assert(queued(djs, back(j)) && pos_at(djs, back(j)) == pos_at(out, j));
    }
    assert forall|i: int|
        queued(out, i) && pos_at(out, i) > 1 implies occupied(out, pos_at(out, i) - 1) by {
        assert(queued(djs, back(i)) && pos_at(djs, back(i)) == pos_at(out, i));
        assert(occupied(djs, pos_at(out, i) - 1));
        let w = choose|w: int| queued(djs, w) && pos_at(djs, w) == pos_at(out, i) - 1;
        assert(w != k);
        if w < k {
            assert(queued(out, w) && pos_at(out, w) == pos_at(out, i) - 1);
        } else {
            assert(out[w - 1] == djs[w]);
            assert(queued(out, w - 1) && pos_at(out, w - 1) == pos_at(out, i) - 1);
        }
    }
}

/// One roster entry with its queue position cleared.
pub open spec fn cleared_entry(d: Dj) -> Dj {
    Dj { position_in_queue: None, ..d }
}

/// The roster with every queue position cleared.
pub open spec fn all_cleared(djs: Seq<Dj>) -> Seq<Dj> {
    djs.map(|i: int, d: Dj| cleared_entry(d))
}

/// Everything in the repository but the roster is untouched.
pub open spec fn same_except_djs(a: Store, b: Store) -> bool {
    &&& a.draws@ == b.draws@
    &&& a.events@ == b.events@
    &&& a.sessions@ == b.sessions@
    &&& a.guest_requests@ == b.guest_requests@
}

/// Whether a performer can enter the next draw: active and not yet
/// holding a queue position.
pub open spec fn spec_eligible(d: Dj) -> bool {
    d.is_active && d.position_in_queue is None
}

/// The eligible pool in roster order (which is registration order, since
/// performers are appended as they register).
pub open spec fn eligible_seq(djs: Seq<Dj>) -> Seq<Dj> {
    djs.filter(|d: Dj| spec_eligible(d))
}

/// The active event row, if any; unique by the repository invariant.
pub open spec fn spec_active_event(events: Seq<EventSession>) -> Option<EventSession> {
    if crate::services::store::has_active_event(events) {
        Some(
            events[choose|i: int| 0 <= i < events.len() && (#[trigger] events[i]).spec_is_active()],
        )
    } else {
        None
    }
}

/// Wherever some index matches an identifier, a first such index exists.
pub proof fn lemma_first_match_exists(djs: Seq<Dj>, id: Seq<char>, j: int)
    requires
        0 <= j < djs.len(),
        djs[j].id@ == id,
    ensures
        exists|k: int| first_dj_match(djs, id, k),
    decreases j,
{
    if forall|i: int| 0 <= i < j ==> (#[trigger] djs[i].id@) != id {
        assert(first_dj_match(djs, id, j));
    } else {
        let i = choose|i: int| 0 <= i < j && (#[trigger] djs[i].id@) == id;
        lemma_first_match_exists(djs, id, i);
    }
}

/// The number of distinct winners across the draw log.
pub open spec fn spec_unique_winners(draws: Seq<LotteryDraw>) -> int
    decreases draws.len(),
{
    if draws.len() == 0 {
        0
    } else {
        spec_unique_winners(draws.drop_last()) + if exists|j: int|
            0 <= j < draws.len() - 1 && (#[trigger] draws[j].winner.id@)
                == draws.last().winner.id@ {
            0int
        } else {
            1int
        }
    }
}

/// The number of active performers on the roster.
pub open spec fn spec_active_count(djs: Seq<Dj>) -> int
    decreases djs.len(),
{
    if djs.len() == 0 {
        0
    } else {
        spec_active_count(djs.drop_last()) + if djs.last().is_active {
            1int
        } else {
            0int
        }
    }
}

/// The summed base weight of the active performers, in micro-units.
pub open spec fn spec_active_weight_sum(djs: Seq<Dj>) -> int
    decreases djs.len(),
{
    if djs.len() == 0 {
        0
    } else {
        spec_active_weight_sum(djs.drop_last()) + if djs.last().is_active {
            djs.last().weight as int
        } else {
            0int
        }
    }
}

/// A response agreeing with the performer holding position `p`.
pub open spec fn resp_at_pos(djs: Seq<Dj>, r: crate::models::dj::DjResponse, p: int) -> bool {
    exists|i: int|
        queued(djs, i) && pos_at(djs, i) == p && r == crate::models::dj::spec_dj_response(
            #[trigger] djs[i],
        )
}

/// The lottery coordinator: holds the engine and runs draws and ledger
/// operations against the repository.
pub struct LotteryService {
    pub engine: crate::models::lottery::LotteryEngine,
}

impl LotteryService {
    /// A coordinator drawing with the given configuration.
    pub fn new(config: crate::models::lottery::LotteryConfig) -> (r: LotteryService)
        ensures
            r.engine.config == config,
    {
        LotteryService { engine: crate::models::lottery::LotteryEngine::new(config) }
    }

    /// Appends the winner at the end of the queue: position
    /// `max(existing positions) + 1`, or 1 on an empty queue. Fails with
    /// `AlreadyQueued` if the performer already holds a position; an
    /// unknown identifier is a no-op, and an inactive performer is left
    /// unqueued (a queued performer must be active).
    pub fn assign_next_position(&self, store: &mut Store, dj_id: &str) -> (r: Result<
        (),
        DjSystemError,
    >)
        requires
            old(store).wf(),
        ensures
            final(store).wf(),
            same_except_djs(*final(store), *old(store)),
            no_dj_match(old(store).djs@, dj_id@) ==> r is Ok && final(store).djs@ == old(
                store,
            ).djs@,
            forall|k: int|
                #[trigger] first_dj_match(old(store).djs@, dj_id@, k) && old(
                    store,
                ).djs@[k].position_in_queue is Some ==> r is Err && r->Err_0
                    == DjSystemError::AlreadyQueued && final(store).djs@ == old(store).djs@,
            forall|k: int|
                #[trigger] first_dj_match(old(store).djs@, dj_id@, k) && old(
                    store,
                ).djs@[k].position_in_queue is None && !old(store).djs@[k].is_active ==> r is Ok
                    && final(store).djs@ == old(store).djs@,
            forall|k: int|
                #[trigger] first_dj_match(old(store).djs@, dj_id@, k) && old(
                    store,
                ).djs@[k].position_in_queue is None && old(store).djs@[k].is_active ==> r is Ok
                    && final(store).djs@ == old(store).djs@.update(
                    k,
                    (Dj {
                        position_in_queue: Some((spec_max_pos(old(store).djs@) + 1) as i32),
                        ..old(store).djs@[k]
                    }),
                ) && spec_max_pos(final(store).djs@) == spec_max_pos(old(store).djs@) + 1,
    {
        match find_dj_index(&store.djs, dj_id) {
            None => Ok(()),
            Some(k) => {
                if store.djs[k].position_in_queue.is_some() {
                    return Err(DjSystemError::AlreadyQueued);
                }
                if !store.djs[k].is_active {
                    return Ok(());
                }
                let max: i32 = max_queue_position(&store.djs);
                proof {
                    lemma_unqueued_headroom(store.djs@, k as int);
                    lemma_max_pos_properties(store.djs@);
                    if spec_max_pos(store.djs@) != 0 {
                        assert(occupied(store.djs@, spec_max_pos(store.djs@)));
                        let w = choose|i: int|
                            queued(store.djs@, i) && pos_at(store.djs@, i) == spec_max_pos(
                                store.djs@,
                            );
                        assert(spec_max_pos(store.djs@) < store.djs@.len());
                    }
                }
                let next: i32 = max + 1;
                let ghost prior = store.djs@;
                store.djs[k].position_in_queue = Some(next);
                proof {
                    let updated = prior.update(
                        k as int,
                        (Dj { position_in_queue: Some(next), ..prior[k as int] }),
                    );
                    assert(store.djs@ =~= updated);
                    assert forall|i: int| queued(updated, i) implies 1 <= pos_at(updated, i)
                        <= updated.len() by {
                        if i != k {
                            assert(queued(prior, i));
                        }
                    }
                    assert forall|i: int, j: int|
                        queued(updated, i) && queued(updated, j) && i != j implies pos_at(
                        updated,
                        i,
                    ) != pos_at(updated, j) by {
                        if i != k && j != k {
                            assert(queued(prior, i) && queued(prior, j));
                        } else if i == k {
                            assert(queued(prior, j));
                            assert(pos_at(prior, j) <= spec_max_pos(prior));
                        } else {
                            assert(queued(prior, i));
                            assert(pos_at(prior, i) <= spec_max_pos(prior));
                        }
                    }
                    assert forall|i: int|
                        queued(updated, i) && pos_at(updated, i) > 1 implies occupied(
                        updated,
                        pos_at(updated, i) - 1,
                    ) by {
                        if i == k {
                            assert(occupied(prior, next - 1));
                            let w = choose|j: int|
                                queued(prior, j) && pos_at(prior, j) == next - 1;
                            assert(queued(updated, w) && pos_at(updated, w) == next - 1);
                        } else {
                            assert(queued(prior, i));
                            assert(occupied(prior, pos_at(prior, i) - 1));
                            let w = choose|j: int|
                                queued(prior, j) && pos_at(prior, j) == pos_at(prior, i) - 1;
                            assert(queued(updated, w) && pos_at(updated, w) == pos_at(updated, i)
                                - 1);
                        }
                    }
                    // The appended position is the new highest one.
                    lemma_max_pos_properties(updated);
                    assert(queued(updated, k as int) && pos_at(updated, k as int) == next as int);
                    assert(spec_max_pos(updated) >= next);
                    assert(occupied(updated, spec_max_pos(updated)));
                    let top = choose|i: int|
                        queued(updated, i) && pos_at(updated, i) == spec_max_pos(updated);
                    if top != k {
                        assert(queued(prior, top));
                        assert(pos_at(prior, top) <= spec_max_pos(prior));
                    }
                    assert(spec_max_pos(updated) == next);
                }
                Ok(())
            },
        }
    }

    /// Clears the performer's position; every performer with a strictly
    /// greater position moves down by one, so the ledger stays dense. A
    /// no-op, not an error, if the performer holds no position or is
    /// unknown.
    #[verifier::rlimit(100)]
    pub fn remove_from_queue(&self, store: &mut Store, dj_id: &str) -> (r: Result<
        (),
        DjSystemError,
    >)
        requires
            old(store).wf(),
        ensures
            final(store).wf(),
            r is Ok,
            same_except_djs(*final(store), *old(store)),
            no_dj_match(old(store).djs@, dj_id@) ==> final(store).djs@ == old(store).djs@,
            forall|k: int|
                #[trigger] first_dj_match(old(store).djs@, dj_id@, k) && old(
                    store,
                ).djs@[k].position_in_queue is None ==> final(store).djs@ == old(store).djs@,
            forall|k: int|
                #[trigger] first_dj_match(old(store).djs@, dj_id@, k) && old(
                    store,
                ).djs@[k].position_in_queue is Some ==> final(store).djs@ == remove_shift(
                    old(store).djs@,
                    k,
                    pos_at(old(store).djs@, k),
                ),
    {
        let k: usize = match find_dj_index(&store.djs, dj_id) {
            None => {
                return Ok(());
            },
            Some(k) => k,
        };
        let p: i32 = match store.djs[k].position_in_queue {
            None => {
                return Ok(());
            },
            Some(p) => p,
        };
        let ghost prior = store.djs@;
        let n: usize = store.djs.len();
        let mut i: usize = 0;
        while i < n
            invariant
                n == store.djs@.len(),
                prior.len() == n,
                0 <= i <= n,
                k < n,
                queued(prior, k as int),
                pos_at(prior, k as int) == p as int,
                queue_wf(prior),
                crate::services::store::djs_wf(prior),
                forall|j: int|
                    0 <= j < i ==> #[trigger] store.djs@[j] == remove_entry(
                        prior[j],
                        j == k,
                        p as int,
                    ),
                forall|j: int| i <= j < n ==> #[trigger] store.djs@[j] == prior[j],
                same_except_djs(*store, *old(store)),
            decreases n - i,
        {
            if i == k {
                store.djs[i].position_in_queue = None;
            } else {
                match store.djs[i].position_in_queue {
                    Some(q) => {
                        if q > p {
                            proof {
                                assert(store.djs@[i as int] == prior[i as int]);
                                assert(queued(prior, i as int));
                            }
                            store.djs[i].position_in_queue = Some(q - 1);
                        }
                    },
                    None => {},
                }
            }
            i = i + 1;
        }
        proof {
            assert(store.djs@ =~= remove_shift(prior, k as int, p as int));
            lemma_remove_preserves_queue_wf(prior, k as int, p as int);
            assert forall|j: int| 0 <= j < n implies (#[trigger] store.djs@[j]).wf() by {
                assert(store.djs@[j] == remove_entry(prior[j], j == k, p as int));
                assert(prior[j].wf());
                assert(queue_wf(prior));
                if j != k && prior[j].position_in_queue is Some && prior[j].position_in_queue->0
                    > p {
                    assert(queued(prior, j));
                    assert(pos_at(prior, j) >= 1);
                }
            }
        }
        Ok(())
    }

    /// Moves a performer to `new_position`, shifting the block of
    /// performers between the old and new position by one toward the
    /// vacated end. Fails with `NotQueued` if the performer is unknown or
    /// holds no position, and with `OutOfRange` if `new_position` lies
    /// outside `[1, N]`.
    #[verifier::rlimit(100)]
    pub fn move_dj_position(&self, store: &mut Store, dj_id: &str, new_position: i32) -> (r:
        Result<(), DjSystemError>)
        requires
            old(store).wf(),
        ensures
            final(store).wf(),
            same_except_djs(*final(store), *old(store)),
            r is Err ==> final(store).djs@ == old(store).djs@,
            no_dj_match(old(store).djs@, dj_id@) ==> r is Err && r->Err_0
                == DjSystemError::NotQueued,
            forall|k: int|
                #[trigger] first_dj_match(old(store).djs@, dj_id@, k) && old(
                    store,
                ).djs@[k].position_in_queue is None ==> r is Err && r->Err_0
                    == DjSystemError::NotQueued,
            forall|k: int|
                #[trigger] first_dj_match(old(store).djs@, dj_id@, k) && old(
                    store,
                ).djs@[k].position_in_queue is Some && !(1 <= new_position <= spec_max_pos(
                    old(store).djs@,
                )) ==> r is Err && r->Err_0 == DjSystemError::OutOfRange,
            forall|k: int|
                #[trigger] first_dj_match(old(store).djs@, dj_id@, k) && old(
                    store,
                ).djs@[k].position_in_queue is Some && 1 <= new_position <= spec_max_pos(
                    old(store).djs@,
                ) ==> r is Ok && final(store).djs@ == move_shift(
                    old(store).djs@,
                    k,
                    pos_at(old(store).djs@, k),
                    new_position as int,
                ),
    {
        let k: usize = match find_dj_index(&store.djs, dj_id) {
            None => {
                return Err(DjSystemError::NotQueued);
            },
            Some(k) => k,
        };
        let cur: i32 = match store.djs[k].position_in_queue {
            None => {
                return Err(DjSystemError::NotQueued);
            },
            Some(p) => p,
        };
        let max: i32 = max_queue_position(&store.djs);
        if new_position < 1 || new_position > max {
            return Err(DjSystemError::OutOfRange);
        }
        let ghost prior = store.djs@;
        proof {
            lemma_max_pos_properties(prior);
            let w = choose|i: int| queued(prior, i) && pos_at(prior, i) == spec_max_pos(prior);
            assert(spec_max_pos(prior) <= prior.len());
        }
        let n: usize = store.djs.len();
        let mut i: usize = 0;
        while i < n
            invariant
                n == store.djs@.len(),
                prior.len() == n,
                0 <= i <= n,
                k < n,
                queued(prior, k as int),
                pos_at(prior, k as int) == cur as int,
                1 <= new_position as int <= spec_max_pos(prior),
                spec_max_pos(prior) <= prior.len(),
                queue_wf(prior),
                crate::services::store::djs_wf(prior),
                forall|j: int|
                    0 <= j < i ==> #[trigger] store.djs@[j] == move_entry(
                        prior[j],
                        j == k,
                        cur as int,
                        new_position as int,
                    ),
                forall|j: int| i <= j < n ==> #[trigger] store.djs@[j] == prior[j],
                same_except_djs(*store, *old(store)),
            decreases n - i,
        {
            if i == k {
                store.djs[i].position_in_queue = Some(new_position);
            } else {
                match store.djs[i].position_in_queue {
                    Some(q) => {
                        if new_position < cur && new_position <= q && q < cur {
                            store.djs[i].position_in_queue = Some(q + 1);
                        } else if new_position > cur && cur < q && q <= new_position {
                            store.djs[i].position_in_queue = Some(q - 1);
                        }
                    },
                    None => {},
                }
            }
            i = i + 1;
        }
        proof {
            assert(store.djs@ =~= move_shift(prior, k as int, cur as int, new_position as int));
            lemma_move_preserves_queue_wf(prior, k as int, cur as int, new_position as int);
            assert forall|j: int| 0 <= j < n implies (#[trigger] store.djs@[j]).wf() by {
                assert(store.djs@[j] == move_entry(prior[j], j == k, cur as int, new_position as int));
                assert(prior[j].wf());
                if j != k && prior[j].position_in_queue is Some {
                    assert(queued(prior, j));
                    assert(pos_at(prior, j) >= 1);
                }
                if j == k {
                    assert(queued(prior, j));
                }
            }
        }
        Ok(())
    }

    /// Clears every performer's queue position.
    pub fn reset_lottery(&self, store: &mut Store) -> (r: Result<(), DjSystemError>)
        requires
            old(store).wf(),
        ensures
            final(store).wf(),
            r is Ok,
            same_except_djs(*final(store), *old(store)),
            final(store).djs@ == all_cleared(old(store).djs@),
    {
        let ghost prior = store.djs@;
        let n: usize = store.djs.len();
        let mut i: usize = 0;
        while i < n
            invariant
                n == store.djs@.len(),
                prior.len() == n,
                0 <= i <= n,
                crate::services::store::djs_wf(prior),
                forall|j: int| 0 <= j < i ==> #[trigger] store.djs@[j] == cleared_entry(prior[j]),
                forall|j: int| i <= j < n ==> #[trigger] store.djs@[j] == prior[j],
                same_except_djs(*store, *old(store)),
            decreases n - i,
        {
            store.djs[i].position_in_queue = None;
            i = i + 1;
        }
        proof {
            assert(store.djs@ =~= all_cleared(prior));
            assert forall|j: int| 0 <= j < n implies (#[trigger] store.djs@[j]).wf() by {
                assert(store.djs@[j] == cleared_entry(prior[j]));
                assert(prior[j].wf());
            }
        }
        Ok(())
    }

    /// The eligible pool: active performers with no queue position, in
    /// roster (registration) order.
    pub fn get_eligible_djs(&self, store: &Store) -> (r: Vec<Dj>)
        ensures
            r@ == eligible_seq(store.djs@),
            r@.len() <= store.djs@.len(),
            forall|i: int| 0 <= i < r@.len() ==> store.djs@.contains(#[trigger] r@[i]),
    {
        let n: usize = store.djs.len();
        let mut out: Vec<Dj> = Vec::new();
        let mut i: usize = 0;
        while i < n
            invariant
                n == store.djs@.len(),
                0 <= i <= n,
                out@ == eligible_seq(store.djs@.take(i as int)),
                out@.len() <= i,
                forall|m: int| 0 <= m < out@.len() ==> store.djs@.contains(#[trigger] out@[m]),
            decreases n - i,
        {
            proof {
                reveal(Seq::filter);
                assert(store.djs@.take(i as int + 1).drop_last() =~= store.djs@.take(i as int));
                assert(store.djs@.take(i as int + 1).last() == store.djs@[i as int]);
            }
            let dj = &store.djs[i];
            if dj.is_active && dj.position_in_queue.is_none() {
                let copy: Dj = dj.clone();
                out.push(copy);
                proof {
                    assert(store.djs@[i as int] == out@.last());
                    assert(store.djs@.contains(out@.last()));
                }
            }
            i = i + 1;
        }
        proof {
            assert(store.djs@.take(n as int) =~= store.djs@);
        }
        out
    }

    /// Appends a draw record to the append-only log.
    pub fn save_lottery_draw(&self, store: &mut Store, draw: &LotteryDraw) -> (r: Result<
        (),
        DjSystemError,
    >)
        requires
            old(store).wf(),
        ensures
            r is Ok,
            final(store).wf(),
            final(store).djs@ == old(store).djs@,
            final(store).events@ == old(store).events@,
            final(store).sessions@ == old(store).sessions@,
            final(store).guest_requests@ == old(store).guest_requests@,
            final(store).draws@.len() == old(store).draws@.len() + 1,
            final(store).draws@.take(old(store).draws@.len() as int) == old(store).draws@,
            draw_like(final(store).draws@.last(), *draw),
    {
        let copy: LotteryDraw = draw.clone();
        store.draws.push(copy);
        proof {
            assert(store.draws@.take(old(store).draws@.len() as int) =~= old(store).draws@);
        }
        Ok(())
    }

    /// One full draw: computes the eligible pool, asks the engine for a
    /// winner, records the draw, and appends the winner to the queue.
    /// An empty pool yields `Ok(None)` - an expected steady state, not an
    /// error. A winner already holding a position (only possible under
    /// identifier reuse) leaves the ledger unchanged rather than failing
    /// the draw.
    pub fn draw_next_dj(&self, store: &mut Store, now: i64) -> (r: Result<
        Option<LotteryDraw>,
        DjSystemError,
    >)
        requires
            old(store).wf(),
            crate::valid_timestamp(now),
            self.engine.config.wf(),
        ensures
            r is Ok,
            final(store).wf(),
            (r->Ok_0 is None) <==> eligible_seq(old(store).djs@).len() == 0,
            r->Ok_0 is None ==> final(store).djs@ == old(store).djs@ && final(store).draws@ == old(
                store,
            ).draws@,
            final(store).events@ == old(store).events@,
            final(store).sessions@ == old(store).sessions@,
            final(store).guest_requests@ == old(store).guest_requests@,
            r->Ok_0 is Some ==> participants_wf(
                r->Ok_0->0.participants@,
                eligible_seq(old(store).djs@),
                now,
                spec_active_event(old(store).events@),
                self.engine.config,
            ),
            r->Ok_0 is Some ==> winner_among(r->Ok_0->0) && r->Ok_0->0.drawn_at == now
                && r->Ok_0->0.algorithm_used@ == "weighted_random"@,
            r->Ok_0 is Some ==> final(store).draws@.len() == old(store).draws@.len() + 1
                && final(store).draws@.take(old(store).draws@.len() as int) == old(store).draws@
                && draw_like(final(store).draws@.last(), r->Ok_0->0),
            r->Ok_0 is Some ==> final(store).djs@ == old(store).djs@ || exists|k: int|
                #[trigger] first_dj_match(old(store).djs@, r->Ok_0->0.winner.id@, k)
                    && final(store).djs@ == old(store).djs@.update(
                    k,
                    (Dj {
                        position_in_queue: Some((spec_max_pos(old(store).djs@) + 1) as i32),
                        ..old(store).djs@[k]
                    }),
                ),
    {
        let eligible: Vec<Dj> = self.get_eligible_djs(store);
        if eligible.len() == 0 {
            return Ok(None);
        }
        proof {
            assert forall|i: int| 0 <= i < eligible@.len() implies (#[trigger] eligible@[i]).wf()
                by {
                assert(store.djs@.contains(eligible@[i]));
                let j = choose|j: int| 0 <= j < store.djs@.len() && store.djs@[j] == eligible@[i];
                assert(store.djs@[j].wf());
            }
        }
        let draw_opt: Option<LotteryDraw> = match find_active_event_index(&store.events) {
            Some(ei) => {
                proof {
                    let c = choose|i: int|
                        0 <= i < store.events@.len() && (
                        #[trigger] store.events@[i]).spec_is_active();
                    assert(c == ei as int);
                }
                self.engine.draw_winner(&eligible, now, Some(&store.events[ei]))
            },
            None => self.engine.draw_winner(&eligible, now, None),
        };
        let draw: LotteryDraw = match draw_opt {
            Some(d) => d,
            None => {
                proof {
                    assert(false);
                }
                return Ok(None);
            },
        };
        match self.save_lottery_draw(store, &draw) {
            Ok(()) => {},
            Err(e) => {
                return Err(e);
            },
        }
        match self.assign_next_position(store, draw.winner.id.as_str()) {
            Ok(()) => {},
            Err(_) => {},
        }
        proof {
            if !no_dj_match(old(store).djs@, draw.winner.id@) {
                let j = choose|j: int|
                    0 <= j < old(store).djs@.len() && (#[trigger] old(store).djs@[j].id@)
                        == draw.winner.id@;
                lemma_first_match_exists(old(store).djs@, draw.winner.id@, j);
            }
        }
        Ok(Some(draw))
    }

    /// The queue as displayed: the performers holding positions, ascending
    /// by position, 1 up to N.
    pub fn get_current_queue(&self, store: &Store) -> (r: Vec<DjResponse>)
        requires
            store.wf(),
        ensures
            r@.len() == spec_max_pos(store.djs@),
            forall|idx: int| 0 <= idx < r@.len() ==> resp_at_pos(store.djs@, #[trigger] r@[idx], idx + 1),
    {
        let max: i32 = max_queue_position(&store.djs);
        proof {
            lemma_max_pos_properties(store.djs@);
        }
        let mut out: Vec<DjResponse> = Vec::new();
        let mut p: i32 = 1;
        while p <= max
            invariant
                store.wf(),
                max as int == spec_max_pos(store.djs@),
                1 <= p <= max + 1,
                out@.len() == p - 1,
                forall|idx: int|
                    0 <= idx < out@.len() ==> resp_at_pos(store.djs@, #[trigger] out@[idx], idx + 1),
                spec_max_pos(store.djs@) != 0 ==> occupied(store.djs@, spec_max_pos(store.djs@)),
            decreases max - p + 1,
        {
            match find_by_position(&store.djs, p) {
                Some(i) => {
                    let resp: DjResponse = DjResponse::from(store.djs[i].clone());
                    proof {
                        assert(resp_at_pos(store.djs@, resp, p as int));
                    }
                    out.push(resp);
                },
                None => {
                    proof {
                        lemma_positions_downward(store.djs@, max as int, p as int);
                        assert(false);
                    }
                },
            }
            p = p + 1;
        }
        out
    }

    /// The performer at the head of the queue, if anyone is queued.
    pub fn get_next_dj(&self, store: &Store) -> (r: Option<DjResponse>)
        requires
            store.wf(),
        ensures
            r is Some <==> occupied(store.djs@, 1),
            r is Some ==> resp_at_pos(store.djs@, r->0, 1),
    {
        match find_by_position(&store.djs, 1) {
            Some(i) => {
                let resp: DjResponse = DjResponse::from(store.djs[i].clone());
                proof {
                    assert(resp_at_pos(store.djs@, resp, 1));
                }
                Some(resp)
            },
            None => None,
        }
    }

    /// Aggregate draw statistics: the draw count, the distinct winners,
    /// the mean base weight of the active performers (micro-units, rounded
    /// down), and the ratio of distinct winners to draws in parts per
    /// million (one million while no draw has happened).
    pub fn get_lottery_statistics(&self, store: &Store) -> (r: LotteryStatistics)
        requires
            store.wf(),
        ensures
            r.total_draws == store.draws@.len(),
            r.unique_winners == spec_unique_winners(store.draws@),
            spec_active_count(store.djs@) == 0 ==> r.average_weight == 0,
            spec_active_count(store.djs@) != 0 ==> r.average_weight == spec_active_weight_sum(
                store.djs@,
            ) / spec_active_count(store.djs@),
            store.draws@.len() == 0 ==> r.fairness_score == crate::WEIGHT_SCALE,
            store.draws@.len() != 0 ==> r.fairness_score == spec_unique_winners(store.draws@)
                * crate::WEIGHT_SCALE / (store.draws@.len() as int),
    {
        let total_draws: usize = store.draws.len();

        let mut unique: usize = 0;
        let mut i: usize = 0;
        while i < total_draws
            invariant
                total_draws == store.draws@.len(),
                0 <= i <= total_draws,
                unique == spec_unique_winners(store.draws@.take(i as int)),
                unique <= i,
            decreases total_draws - i,
        {
            proof {
                assert(store.draws@.take(i as int + 1).drop_last() =~= store.draws@.take(i as int));
                assert(store.draws@.take(i as int + 1).last() == store.draws@[i as int]);
            }
            let mut seen: bool = false;
            let mut j: usize = 0;
            while j < i
                invariant
                    total_draws == store.draws@.len(),
                    0 <= j <= i,
                    i < total_draws,
                    seen <==> exists|m: int|
                        0 <= m < j && (#[trigger] store.draws@[m].winner.id@)
                            == store.draws@[i as int].winner.id@,
                decreases i - j,
            {
                if crate::utils::strings::str_eq(
                    store.draws[j].winner.id.as_str(),
                    store.draws[i].winner.id.as_str(),
                ) {
                    proof {
                        assert(store.draws@[j as int].winner.id@
                            == store.draws@[i as int].winner.id@);
                    }
                    seen = true;
                }
                j = j + 1;
            }
            proof {
                assert(forall|m: int|
                    0 <= m < i ==> store.draws@.take(i as int + 1)[m] == store.draws@[m]);
            }
            if !seen {
                unique = unique + 1;
            }
            i = i + 1;
        }
        proof {
            assert(store.draws@.take(total_draws as int) =~= store.draws@);
        }

        let n: usize = store.djs.len();
        let mut active_count: u64 = 0;
        let mut weight_sum: u64 = 0;
        let mut k: usize = 0;
        while k < n
            invariant
                n == store.djs@.len(),
                store.wf(),
                0 <= k <= n,
                active_count == spec_active_count(store.djs@.take(k as int)),
                active_count <= k,
                weight_sum == spec_active_weight_sum(store.djs@.take(k as int)),
                weight_sum <= k * crate::MAX_WEIGHT_MICROS,
            decreases n - k,
        {
            proof {
                assert(store.djs@.take(k as int + 1).drop_last() =~= store.djs@.take(k as int));
                assert(store.djs@.take(k as int + 1).last() == store.djs@[k as int]);
                assert(store.djs@[k as int].wf());
                assert(k * crate::MAX_WEIGHT_MICROS + crate::MAX_WEIGHT_MICROS == (k + 1)
                    * crate::MAX_WEIGHT_MICROS) by (nonlinear_arith);
                assert((k + 1) * crate::MAX_WEIGHT_MICROS <= crate::MAX_POOL
                    * crate::MAX_WEIGHT_MICROS) by (nonlinear_arith)
                    requires
                        k + 1 <= crate::MAX_POOL,
                ;
            }
            if store.djs[k].is_active {
                active_count = active_count + 1;
                weight_sum = weight_sum + store.djs[k].weight;
            }
            k = k + 1;
        }
        proof {
            assert(store.djs@.take(n as int) =~= store.djs@);
        }
        let average_weight: u64 = if active_count == 0 {
            0
        } else {
            weight_sum / active_count
        };

        let fairness_score: u64 = if total_draws == 0 {
            crate::WEIGHT_SCALE
        } else {
            let scaled: u128 = (unique as u128) * (crate::WEIGHT_SCALE as u128);
            let ratio: u128 = scaled / (total_draws as u128);
            proof {
                assert(ratio <= u64::MAX) by (nonlinear_arith)
                    requires
                        ratio == scaled / (total_draws as u128),
                        scaled == (unique as u128) * (crate::WEIGHT_SCALE as u128),
                        unique <= total_draws,
                        total_draws >= 1,
                ;
                assert(ratio == spec_unique_winners(store.draws@) * crate::WEIGHT_SCALE / (
                store.draws@.len() as int)) by (nonlinear_arith)
                    requires
                        ratio == scaled / (total_draws as u128),
                        scaled == (unique as u128) * (crate::WEIGHT_SCALE as u128),
                        unique == spec_unique_winners(store.draws@),
                        total_draws == store.draws@.len(),
                        total_draws >= 1,
                ;
            }
            ratio as u64
        };

        LotteryStatistics { total_draws, unique_winners: unique, average_weight, fairness_score }
    }
}

} // verus!
