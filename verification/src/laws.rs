//! The system's cross-cutting guarantees, proved once and for all: queue
//! density, probability conservation, determinism of the weight
//! calculation, and the at-most-once due trigger.

use vstd::prelude::*;

use crate::models::dj::Dj;
use crate::models::event_session::EventSession;
use crate::models::lottery::{
    lemma_prob_sum_bracket, spec_weight, sum_calc, sum_prob, LotteryConfig, LotteryParticipant,
};
use crate::services::event_service::spec_check_due;
use crate::services::store::{
    lemma_max_pos_properties, lemma_positions_downward, occupied, pos_at, queue_wf, queued,
    spec_max_pos,
};
use crate::WEIGHT_SCALE;
use vstd::arithmetic::div_mod::lemma_fundamental_div_mod;
use vstd::relations::injective_on;
use vstd::set_lib::{lemma_int_range, lemma_len_subset, lemma_map_size, set_int_range};

verus! {

/// Queue density: under the ledger invariant the held positions are
/// exactly `1..N` - no gaps, no duplicates - where `N`, the highest
/// position, equals the number of queued performers. Every ledger
/// operation preserves the invariant, so this holds after any sequence
/// of inserts, removals and moves.
pub proof fn lemma_queue_density(djs: Seq<Dj>)
    requires
        queue_wf(djs),
    ensures
        forall|p: int| 1 <= p <= spec_max_pos(djs) ==> occupied(djs, p),
        forall|p: int| occupied(djs, p) ==> 1 <= p <= spec_max_pos(djs),
        forall|i: int, j: int|
            queued(djs, i) && queued(djs, j) && i != j ==> pos_at(djs, i) != pos_at(djs, j),
        Set::new(|i: int| queued(djs, i)).finite(),
        Set::new(|i: int| queued(djs, i)).len() == spec_max_pos(djs),
{
    lemma_max_pos_properties(djs);
    let max = spec_max_pos(djs);

    // No gaps: everything from 1 up to the highest held position is held.
    assert forall|p: int| 1 <= p <= max implies occupied(djs, p) by {
        lemma_positions_downward(djs, max, p);
    }

    // The queued performers, counted.
    let queued_set = Set::new(|i: int| queued(djs, i));
    let positions = set_int_range(1, max + 1);
    lemma_int_range(1, max + 1);

    let index_range = set_int_range(0, djs.len() as int);
    lemma_int_range(0, djs.len() as int);
    assert(queued_set.subset_of(index_range));
    lemma_len_subset(queued_set, index_range);

    let to_position = |i: int| pos_at(djs, i);
    assert(injective_on(to_position, queued_set)) by {
        assert forall|a: int, b: int|
            queued_set.contains(a) && queued_set.contains(b) && #[trigger] to_position(a)
                == #[trigger] to_position(b) implies a == b by {}
    }
    let image = queued_set.map(to_position);
    assert(image =~= positions) by {
        assert forall|v: int| image.contains(v) implies positions.contains(v) by {
            let i = choose|i: int| queued_set.contains(i) && to_position(i) == v;
            assert(occupied(djs, v));
        }
        assert forall|v: int| positions.contains(v) implies image.contains(v) by {
            assert(occupied(djs, v));
            let i = choose|i: int| queued(djs, i) && pos_at(djs, i) == v;
            assert(queued_set.contains(i) && to_position(i) == v);
        }
    }
    lemma_map_size(queued_set, positions, to_position);
}

/// Probability conservation: in any participant snapshot shaped as the
/// draw builds it - every share but the last rounded down from the total
/// weight, the last absorbing the rounding remainder - the shares sum to
/// exactly one (one million parts per million), and the last share stays
/// within its exact proportional value and one rounding unit per
/// participant above it.
pub proof fn lemma_probability_conservation(parts: Seq<LotteryParticipant>)
    requires
        parts.len() >= 1,
        sum_calc(parts) > 0,
        forall|i: int|
            0 <= i < parts.len() - 1 ==> (#[trigger] parts[i].selection_probability) == parts[i].calculated_weight
                * WEIGHT_SCALE / sum_calc(parts),
        parts.last().selection_probability == WEIGHT_SCALE - sum_prob(parts.drop_last()),
    ensures
        sum_prob(parts) == WEIGHT_SCALE,
        parts.last().selection_probability >= parts.last().calculated_weight * WEIGHT_SCALE
            / sum_calc(parts),
        parts.last().selection_probability < parts.last().calculated_weight * WEIGHT_SCALE
            / sum_calc(parts) + parts.len(),
{
    let total = sum_calc(parts);
    let prefix = parts.drop_last();
    let n = parts.len() as int;
    assert(forall|i: int| 0 <= i < prefix.len() ==> (#[trigger] prefix[i]) == parts[i]);
    lemma_prob_sum_bracket(prefix, total);
    let w = parts.last().calculated_weight as int;
    let q = w * WEIGHT_SCALE / total;
    lemma_fundamental_div_mod(w * WEIGHT_SCALE, total);
    assert(total * q == w * WEIGHT_SCALE - (w * WEIGHT_SCALE) % total);
    assert(0 <= (w * WEIGHT_SCALE) % total < total);
    assert(sum_calc(prefix) + w == total);
    let p = sum_prob(prefix);
    assert(total * (p + q) <= total * WEIGHT_SCALE) by (nonlinear_arith)
        requires
            total * p <= sum_calc(prefix) * WEIGHT_SCALE,
            total * q <= w * WEIGHT_SCALE,
            sum_calc(prefix) + w == total,
    ;
    assert(p + q <= WEIGHT_SCALE) by (nonlinear_arith)
        requires
            total > 0,
            total * (p + q) <= total * WEIGHT_SCALE,
    ;
    assert(total * (p + q) > total * WEIGHT_SCALE - n * total) by (nonlinear_arith)
        requires
            total * p >= sum_calc(prefix) * WEIGHT_SCALE - (n - 1) * total + (n - 1),
            total * q > w * WEIGHT_SCALE - total,
            sum_calc(prefix) + w == total,
            n >= 1,
    ;
    assert(p + q > WEIGHT_SCALE - n) by (nonlinear_arith)
        requires
            total > 0,
            total * (p + q) > total * WEIGHT_SCALE - n * total,
    ;
}

/// Determinism of the weight calculation: any two results obtained for
/// the same candidate, time and configuration agree, because both equal
/// the one value of the weight specification.
pub proof fn lemma_weight_deterministic(
    dj: Dj,
    now: i64,
    event: Option<EventSession>,
    config: LotteryConfig,
    w1: u64,
    w2: u64,
)
    requires
        w1 == spec_weight(dj, now, event, config),
        w2 == spec_weight(dj, now, event, config),
    ensures
        w1 == w2,
{
}

/// At-most-once due trigger: however the clock reads, two consecutive
/// due-checks with no intervening slot start report "due" at most once,
/// because the first check that reports it clears the deadline in the
/// same step.
pub proof fn lemma_check_due_at_most_once(e: EventSession, now1: i64, now2: i64)
    ensures
        !(spec_check_due(e, now1).1 && spec_check_due(spec_check_due(e, now1).0, now2).1),
{
}

} // verus!
