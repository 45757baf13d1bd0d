//! The weighted lottery: the weight calculation, the roulette-wheel draw
//! and the audit records a draw leaves behind.

use vstd::prelude::*;

use crate::models::dj::{resp_matches, Dj, DjResponse};
use crate::models::event_session::EventSession;
use crate::external::random_below;
use crate::{
    valid_timestamp, HOUR_BONUS_MICROS, MAX_BONUS_MICROS, MAX_POOL, MAX_WEIGHT_MICROS,
    MIN_WEIGHT_MICROS, WEIGHT_SCALE,
};

verus! {

/// Largest weight the calculation can produce, in micro-units: the maximal
/// base product boosted by the full waiting bonus.
pub const MAX_CALC_WEIGHT_MICROS: u64 = 1_200_000_000_000;

/// The lottery's tunables. `base_weight` is the global multiplier and
/// `late_arrival_penalty` the late-arrival fraction, both in micro-units;
/// `time_block_hours` is kept for callers that configure the cutoff at
/// event start; `enable_time_blocking` switches the penalty on.
#[derive(Debug)]
pub struct LotteryConfig {
    pub base_weight: u64,
    pub late_arrival_penalty: u64,
    pub time_block_hours: u32,
    pub enable_time_blocking: bool,
}

impl LotteryConfig {
    /// Well-formedness: a positive bounded multiplier, and a penalty that
    /// is a fraction in (0, 1].
    pub open spec fn wf(&self) -> bool {
        &&& 1 <= self.base_weight <= MAX_WEIGHT_MICROS
        &&& 1 <= self.late_arrival_penalty <= WEIGHT_SCALE
    }
}

impl Clone for LotteryConfig {
    fn clone(&self) -> (r: LotteryConfig)
        ensures
            r == *self,
    {
        LotteryConfig {
            base_weight: self.base_weight,
            late_arrival_penalty: self.late_arrival_penalty,
            time_block_hours: self.time_block_hours,
            enable_time_blocking: self.enable_time_blocking,
        }
    }
}

impl Default for LotteryConfig {
    /// The defaults: multiplier 1.0, penalty 0.5, cutoff 2 hours,
    /// penalty enabled.
    fn default() -> (r: LotteryConfig)
        ensures
            r.base_weight == WEIGHT_SCALE,
            r.late_arrival_penalty == WEIGHT_SCALE / 2,
            r.time_block_hours == 2,
            r.enable_time_blocking,
            r.wf(),
    {
        LotteryConfig {
            base_weight: 1_000_000,
            late_arrival_penalty: 500_000,
            time_block_hours: 2,
            enable_time_blocking: true,
        }
    }
}

/// One candidate's stake in a draw: the performer, the weight the
/// calculation assigned (micro-units), and the share of the total weight
/// in parts per million. All but the last participant carry their share
/// rounded down; the last absorbs the rounding remainder, so a draw's
/// shares sum to exactly one million.
#[derive(Debug)]
pub struct LotteryParticipant {
    pub dj: DjResponse,
    pub calculated_weight: u64,
    pub selection_probability: u64,
}

/// The immutable record of one draw: the winner, the full participant
/// snapshot for auditability, the draw time and the algorithm tag.
#[derive(Debug)]
pub struct LotteryDraw {
    pub winner: DjResponse,
    pub participants: Vec<LotteryParticipant>,
    pub drawn_at: i64,
    pub algorithm_used: String,
}

impl Clone for LotteryParticipant {
    fn clone(&self) -> (r: LotteryParticipant)
        ensures
            r == *self,
    {
        LotteryParticipant {
            dj: self.dj.clone(),
            calculated_weight: self.calculated_weight,
            selection_probability: self.selection_probability,
        }
    }
}

/// Field-by-field agreement of two draw records (their participant
/// vectors agree element for element).
pub open spec fn draw_like(a: LotteryDraw, b: LotteryDraw) -> bool {
    &&& a.winner == b.winner
    &&& a.participants@ == b.participants@
    &&& a.drawn_at == b.drawn_at
    &&& a.algorithm_used@ == b.algorithm_used@
}

impl Clone for LotteryDraw {
    fn clone(&self) -> (r: LotteryDraw)
        ensures
            draw_like(r, *self),
    {
        let mut participants: Vec<LotteryParticipant> = Vec::new();
        let n: usize = self.participants.len();
        let mut i: usize = 0;
        while i < n
            invariant
                n == self.participants@.len(),
                0 <= i <= n,
                participants@ =~= self.participants@.take(i as int),
            decreases n - i,
        {
            participants.push(self.participants[i].clone());
            proof {
                assert(participants@ =~= self.participants@.take(i as int + 1));
            }
            i = i + 1;
        }
        proof {
            assert(participants@ =~= self.participants@);
        }
        LotteryDraw {
            winner: self.winner.clone(),
            participants,
            drawn_at: self.drawn_at,
            algorithm_used: self.algorithm_used.clone(),
        }
    }
}

/// Aggregate numbers over the draw history: `average_weight` is in
/// micro-units, `fairness_score` in parts per million (one million is
/// perfectly fair).
#[derive(Debug)]
pub struct LotteryStatistics {
    pub total_draws: usize,
    pub unique_winners: usize,
    pub average_weight: u64,
    pub fairness_score: u64,
}

/// Whole hours since the candidate registered, never negative.
pub open spec fn spec_hours_registered(dj: Dj, now: i64) -> int {
    if now > dj.registered_at {
        (now - dj.registered_at) / 3600
    } else {
        0
    }
}

/// Whether the late-arrival penalty applies: penalties are enabled, an
/// active event is at hand, and the candidate registered strictly more
/// than the event's cutoff after its start. With no active event no
/// penalty applies - the lottery can run pre-event.
pub open spec fn spec_late_penalty_applies(
    dj: Dj,
    event: Option<EventSession>,
    config: LotteryConfig,
) -> bool {
    &&& config.enable_time_blocking
    &&& match event {
        Some(e) => e.spec_should_apply_late_penalty(dj.registered_at),
        None => false,
    }
}

/// The weight calculation of one candidate, exactly as the draw uses it:
/// base weight times the configured multiplier, the late-arrival penalty
/// where it applies, a waiting bonus of +10% per whole hour since
/// registration capped at +20%, and a floor of 0.1 so nobody's chance
/// collapses to zero. All in micro-units; divisions round down.
pub open spec fn spec_weight(dj: Dj, now: i64, event: Option<EventSession>, config: LotteryConfig) -> int {
    let base = dj.weight * config.base_weight / (WEIGHT_SCALE as int);
    let after_penalty = if spec_late_penalty_applies(dj, event, config) {
        base * config.late_arrival_penalty / (WEIGHT_SCALE as int)
    } else {
        base
    };
    let hours = spec_hours_registered(dj, now);
    let bonus = if hours * HOUR_BONUS_MICROS < MAX_BONUS_MICROS {
        hours * HOUR_BONUS_MICROS
    } else {
        MAX_BONUS_MICROS as int
    };
    let boosted = if hours > 0 {
        after_penalty * (WEIGHT_SCALE + bonus) / (WEIGHT_SCALE as int)
    } else {
        after_penalty
    };
    if boosted < MIN_WEIGHT_MICROS {
        MIN_WEIGHT_MICROS as int
    } else {
        boosted
    }
}

/// The weight calculation stays between the floor and the maximal boosted
/// product whenever its inputs are well-formed.
pub proof fn lemma_weight_bounds(dj: Dj, now: i64, event: Option<EventSession>, config: LotteryConfig)
    requires
        dj.wf(),
        config.wf(),
    ensures
        MIN_WEIGHT_MICROS <= spec_weight(dj, now, event, config) <= MAX_CALC_WEIGHT_MICROS,
{
    let base = dj.weight * config.base_weight / (WEIGHT_SCALE as int);
    assert(dj.weight * config.base_weight <= MAX_WEIGHT_MICROS * MAX_WEIGHT_MICROS) by (nonlinear_arith)
        requires
            1 <= dj.weight <= MAX_WEIGHT_MICROS,
            1 <= config.base_weight <= MAX_WEIGHT_MICROS,
    ;
    assert(0 <= base <= 1_000_000_000_000int) by (nonlinear_arith)
        requires
            0 <= dj.weight * config.base_weight <= MAX_WEIGHT_MICROS * MAX_WEIGHT_MICROS,
            base == dj.weight * config.base_weight / (WEIGHT_SCALE as int),
    ;
    let after_penalty = if spec_late_penalty_applies(dj, event, config) {
        base * config.late_arrival_penalty / (WEIGHT_SCALE as int)
    } else {
        base
    };
    assert(0 <= after_penalty <= 1_000_000_000_000int) by (nonlinear_arith)
        requires
            0 <= base <= 1_000_000_000_000int,
            1 <= config.late_arrival_penalty <= WEIGHT_SCALE,
            after_penalty == if spec_late_penalty_applies(dj, event, config) {
                base * config.late_arrival_penalty / (WEIGHT_SCALE as int)
            } else {
                base
            },
    ;
    let hours = spec_hours_registered(dj, now);
    let bonus = if hours * HOUR_BONUS_MICROS < MAX_BONUS_MICROS {
        hours * HOUR_BONUS_MICROS
    } else {
        MAX_BONUS_MICROS as int
    };
    assert(0 <= bonus <= MAX_BONUS_MICROS) by (nonlinear_arith)
        requires
            hours >= 0,
            bonus == if hours * HOUR_BONUS_MICROS < MAX_BONUS_MICROS {
                hours * HOUR_BONUS_MICROS
            } else {
                MAX_BONUS_MICROS as int
            },
    ;
    let boosted = if hours > 0 {
        after_penalty * (WEIGHT_SCALE + bonus) / (WEIGHT_SCALE as int)
    } else {
        after_penalty
    };
    assert(0 <= boosted <= MAX_CALC_WEIGHT_MICROS) by (nonlinear_arith)
        requires
            0 <= after_penalty <= 1_000_000_000_000int,
            0 <= bonus <= MAX_BONUS_MICROS,
            boosted == if hours > 0 {
                after_penalty * (WEIGHT_SCALE + bonus) / (WEIGHT_SCALE as int)
            } else {
                after_penalty
            },
    ;
}

/// The sum of the calculated weights of a participant snapshot.
pub open spec fn sum_calc(parts: Seq<LotteryParticipant>) -> int
    decreases parts.len(),
{
    if parts.len() == 0 {
        0
    } else {
        sum_calc(parts.drop_last()) + parts.last().calculated_weight
    }
}

/// The sum of the stored selection probabilities of a participant
/// snapshot, in parts per million.
pub open spec fn sum_prob(parts: Seq<LotteryParticipant>) -> int
    decreases parts.len(),
{
    if parts.len() == 0 {
        0
    } else {
        sum_prob(parts.drop_last()) + parts.last().selection_probability
    }
}

/// Extending a prefix by one element adds that element's weight.
pub proof fn lemma_sum_calc_take_succ(parts: Seq<LotteryParticipant>, i: int)
    requires
        0 <= i < parts.len(),
    ensures
        sum_calc(parts.take(i + 1)) == sum_calc(parts.take(i)) + parts[i].calculated_weight,
{
    assert(parts.take(i + 1).drop_last() =~= parts.take(i));
    assert(parts.take(i + 1).last() == parts[i]);
}

/// A prefix never outweighs the whole sequence.
pub proof fn lemma_sum_calc_take_le(parts: Seq<LotteryParticipant>, i: int)
    requires
        0 <= i <= parts.len(),
    ensures
        sum_calc(parts.take(i)) <= sum_calc(parts),
    decreases parts.len() - i,
{
    if i == parts.len() {
        assert(parts.take(i) =~= parts);
    } else {
        lemma_sum_calc_take_succ(parts, i);
        lemma_sum_calc_take_le(parts, i + 1);
    }
}

/// A snapshot whose weights all reach the floor has a sum of at least the
/// floor per participant.
pub proof fn lemma_sum_calc_lower(parts: Seq<LotteryParticipant>)
    requires
        forall|i: int| 0 <= i < parts.len() ==> parts[i].calculated_weight >= MIN_WEIGHT_MICROS,
    ensures
        sum_calc(parts) >= parts.len() * MIN_WEIGHT_MICROS,
    decreases parts.len(),
{
    if parts.len() > 0 {
        lemma_sum_calc_lower(parts.drop_last());
        assert((parts.len() - 1) * MIN_WEIGHT_MICROS + MIN_WEIGHT_MICROS == parts.len()
            * MIN_WEIGHT_MICROS) by (nonlinear_arith);
    }
}

/// The participant snapshot an engine with config `config` computes for
/// the pool `djs` at time `now`: one entry per candidate in input order,
/// the weight from the weight calculation, and the probability as the
/// weight's rounded-down share of `total` parts per million.
pub open spec fn participants_wf(
    parts: Seq<LotteryParticipant>,
    djs: Seq<Dj>,
    now: i64,
    event: Option<EventSession>,
    config: LotteryConfig,
) -> bool {
    let total = sum_calc(parts);
    &&& parts.len() == djs.len()
    &&& forall|i: int|
        0 <= i < parts.len() ==> resp_matches(djs[i], #[trigger] parts[i].dj)
    &&& forall|i: int|
        0 <= i < parts.len() ==> (#[trigger] parts[i].calculated_weight) == spec_weight(
            djs[i],
            now,
            event,
            config,
        )
    &&& forall|i: int|
        0 <= i < parts.len() - 1 ==> (#[trigger] parts[i].selection_probability) == parts[i].calculated_weight
            * WEIGHT_SCALE / total
    &&& parts.len() > 0 ==> parts.last().selection_probability == WEIGHT_SCALE - sum_prob(
        parts.drop_last(),
    )
}

/// The view of an optional borrowed event.
pub open spec fn opt_event(event: Option<&EventSession>) -> Option<EventSession> {
    match event {
        Some(e) => Some(*e),
        None => None,
    }
}

/// Inputs a draw admits: a bounded pool of well-formed candidates, a
/// well-formed config, an in-range time and a well-formed event if any.
pub open spec fn pool_wf(
    djs: Seq<Dj>,
    now: i64,
    event: Option<EventSession>,
    config: LotteryConfig,
) -> bool {
    &&& djs.len() <= MAX_POOL
    &&& forall|i: int| 0 <= i < djs.len() ==> (#[trigger] djs[i]).wf()
    &&& valid_timestamp(now)
    &&& config.wf()
    &&& event is Some ==> event->0.wf()
}

/// The lottery engine: a weight calculation plus the roulette-wheel draw,
/// stateless apart from its configuration.
pub struct LotteryEngine {
    pub config: LotteryConfig,
}

impl LotteryEngine {
    /// An engine with the given configuration.
    pub fn new(config: LotteryConfig) -> (r: LotteryEngine)
        ensures
            r.config == config,
    {
        LotteryEngine { config }
    }

    /// The weight of one candidate at `now` under the active event, per
    /// the weight calculation. Pure: the result is a function of the
    /// arguments alone, so repeated calls with equal inputs agree.
    pub fn calculate_individual_weight(
        &self,
        dj: &Dj,
        now: i64,
        event: Option<&EventSession>,
    ) -> (w: u64)
        requires
            dj.wf(),
            self.config.wf(),
            valid_timestamp(now),
            event is Some ==> event->0.wf(),
        ensures
            w == spec_weight(*dj, now, opt_event(event), self.config),
            MIN_WEIGHT_MICROS <= w <= MAX_CALC_WEIGHT_MICROS,
    {
        proof {
            lemma_weight_bounds(*dj, now, opt_event(event), self.config);
        }
        assert(dj.weight * self.config.base_weight <= MAX_WEIGHT_MICROS * MAX_WEIGHT_MICROS)
            by (nonlinear_arith)
            requires
                1 <= dj.weight <= MAX_WEIGHT_MICROS,
                1 <= self.config.base_weight <= MAX_WEIGHT_MICROS,
        ;
        let base: u64 = dj.weight * self.config.base_weight / WEIGHT_SCALE;
        assert(base <= 1_000_000_000_000u64) by (nonlinear_arith)
            requires
                dj.weight * self.config.base_weight <= MAX_WEIGHT_MICROS * MAX_WEIGHT_MICROS,
                base == dj.weight * self.config.base_weight / (WEIGHT_SCALE as int),
        ;

        let late = match event {
            Some(e) => self.config.enable_time_blocking && e.should_apply_late_penalty(
                dj.registered_at,
            ),
            None => false,
        };
        assert(base * self.config.late_arrival_penalty <= 1_000_000_000_000u64 * WEIGHT_SCALE)
            by (nonlinear_arith)
            requires
                base <= 1_000_000_000_000u64,
                self.config.late_arrival_penalty <= WEIGHT_SCALE,
        ;
        let after_penalty: u64 = if late {
            base * self.config.late_arrival_penalty / WEIGHT_SCALE
        } else {
            base
        };
        assert(after_penalty <= 1_000_000_000_000u64) by (nonlinear_arith)
            requires
                base <= 1_000_000_000_000u64,
                self.config.late_arrival_penalty <= WEIGHT_SCALE,
                after_penalty == base * self.config.late_arrival_penalty / (WEIGHT_SCALE as int)
                    || after_penalty == base,
        ;

        let hours: i64 = if now > dj.registered_at {
            (now - dj.registered_at) / 3600
        } else {
            0
        };
        let bonus: u64 = if hours < 2 {
            if hours <= 0 {
                0
            } else {
                HOUR_BONUS_MICROS
            }
        } else {
            MAX_BONUS_MICROS
        };
        assert(bonus == if spec_hours_registered(*dj, now) * HOUR_BONUS_MICROS < MAX_BONUS_MICROS {
            spec_hours_registered(*dj, now) * HOUR_BONUS_MICROS
        } else {
            MAX_BONUS_MICROS as int
        }) by (nonlinear_arith)
            requires
                hours == spec_hours_registered(*dj, now),
                hours >= 0,
                bonus == if hours < 2 {
                    if hours <= 0 {
                        0u64
                    } else {
                        HOUR_BONUS_MICROS
                    }
                } else {
                    MAX_BONUS_MICROS
                },
        ;

        assert(after_penalty * (WEIGHT_SCALE + bonus) <= 1_200_000_000_000_000_000u64)
            by (nonlinear_arith)
            requires
                after_penalty <= 1_000_000_000_000u64,
                bonus <= MAX_BONUS_MICROS,
        ;
        let boosted: u64 = if hours > 0 {
            after_penalty * (WEIGHT_SCALE + bonus) / WEIGHT_SCALE
        } else {
            after_penalty
        };

        if boosted < MIN_WEIGHT_MICROS {
            MIN_WEIGHT_MICROS
        } else {
            boosted
        }
    }

    /// The full participant snapshot for a pool: weights for every
    /// candidate in input order, probabilities as rounded-down shares of
    /// the total.
    pub fn calculate_weights(
        &self,
        djs: &Vec<Dj>,
        now: i64,
        event: Option<&EventSession>,
    ) -> (parts: Vec<LotteryParticipant>)
        requires
            pool_wf(djs@, now, opt_event(event), self.config),
        ensures
            participants_wf(parts@, djs@, now, opt_event(event), self.config),
            forall|i: int|
                0 <= i < parts@.len() ==> MIN_WEIGHT_MICROS <= (
                #[trigger] parts@[i].calculated_weight) <= MAX_CALC_WEIGHT_MICROS,
            sum_calc(parts@) >= parts@.len() * MIN_WEIGHT_MICROS,
            sum_calc(parts@) <= parts@.len() * MAX_CALC_WEIGHT_MICROS,
    {
        let ghost gev = opt_event(event);
        let n: usize = djs.len();
        let mut weights: Vec<u64> = Vec::new();
        let mut total: u64 = 0;
        let mut i: usize = 0;
        while i < n
            invariant
                n == djs@.len(),
                pool_wf(djs@, now, gev, self.config),
                gev == opt_event(event),
                0 <= i <= n,
                weights@.len() == i,
                forall|j: int|
                    0 <= j < i ==> (#[trigger] weights@[j]) == spec_weight(
                        djs@[j],
                        now,
                        gev,
                        self.config,
                    ),
                forall|j: int|
                    0 <= j < i ==> MIN_WEIGHT_MICROS <= (#[trigger] weights@[j])
                        <= MAX_CALC_WEIGHT_MICROS,
                total == sum_u64(weights@),
                total <= i * MAX_CALC_WEIGHT_MICROS,
            decreases n - i,
        {
            let w: u64 = self.calculate_individual_weight(&djs[i], now, event);
            proof {
                lemma_sum_u64_push(weights@, w);
                assert(i * MAX_CALC_WEIGHT_MICROS + MAX_CALC_WEIGHT_MICROS == (i + 1)
                    * MAX_CALC_WEIGHT_MICROS) by (nonlinear_arith);
                assert((i + 1) * MAX_CALC_WEIGHT_MICROS <= MAX_POOL * MAX_CALC_WEIGHT_MICROS)
                    by (nonlinear_arith)
                    requires
                        i + 1 <= MAX_POOL,
                ;
            }
            weights.push(w);
            total = total + w;
            i = i + 1;
        }

        proof {
            lemma_sum_u64_lower(weights@, MIN_WEIGHT_MICROS);
            assert(n > 0 ==> (n as int) * MIN_WEIGHT_MICROS >= 1 * MIN_WEIGHT_MICROS)
                by (nonlinear_arith)
                requires
                    n > 0 ==> n >= 1,
            ;
        }
        let mut parts: Vec<LotteryParticipant> = Vec::new();
        let mut prob_sum: u64 = 0;
        let mut k: usize = 0;
        while k < n
            invariant
                n == djs@.len(),
                pool_wf(djs@, now, gev, self.config),
                gev == opt_event(event),
                0 <= k <= n,
                weights@.len() == n,
                forall|j: int|
                    0 <= j < n ==> (#[trigger] weights@[j]) == spec_weight(
                        djs@[j],
                        now,
                        gev,
                        self.config,
                    ),
                forall|j: int|
                    0 <= j < n ==> MIN_WEIGHT_MICROS <= (#[trigger] weights@[j])
                        <= MAX_CALC_WEIGHT_MICROS,
                total == sum_u64(weights@),
                total <= n * MAX_CALC_WEIGHT_MICROS,
                n > 0 ==> total >= MIN_WEIGHT_MICROS,
                parts@.len() == k,
                forall|j: int|
                    0 <= j < k ==> resp_matches(djs@[j], (#[trigger] parts@[j]).dj),
                forall|j: int|
                    0 <= j < k ==> (#[trigger] parts@[j]).calculated_weight == weights@[j],
                forall|j: int|
                    0 <= j < k && j < n - 1 ==> (#[trigger] parts@[j]).selection_probability
                        == weights@[j] * WEIGHT_SCALE / (total as int),
                k < n ==> prob_sum == sum_prob(parts@),
                k == n && n > 0 ==> prob_sum == sum_prob(parts@.take(n - 1)),
                k == n && n > 0 ==> parts@.last().selection_probability == WEIGHT_SCALE
                    - sum_prob(parts@.take(n - 1)),
                prob_sum <= WEIGHT_SCALE,
            decreases n - k,
        {
            let w: u64 = weights[k];
            proof {
                assert(w * WEIGHT_SCALE <= MAX_CALC_WEIGHT_MICROS * WEIGHT_SCALE)
                    by (nonlinear_arith)
                    requires
                        w <= MAX_CALC_WEIGHT_MICROS,
                ;
                lemma_sum_u64_member_le(weights@, k as int);
            }
            let probability: u64 = if k + 1 < n {
                // All but the last share round down.
                w * WEIGHT_SCALE / total
            } else {
                // The last share absorbs the rounding remainder, so the
                // shares sum to exactly one.
                WEIGHT_SCALE - prob_sum
            };
            let ghost prior_parts = parts@;
            let dj_snapshot: DjResponse = DjResponse::from(djs[k].clone());
            parts.push(
                LotteryParticipant {
                    dj: dj_snapshot,
                    calculated_weight: w,
                    selection_probability: probability,
                },
            );
            proof {
                assert(parts@.drop_last() =~= prior_parts);
                if k + 1 < n {
                    // The summed rounded-down shares stay within one whole.
                    lemma_sum_calc_matches_weights(parts@, weights@.take(k as int + 1));
                    lemma_sum_u64_take_le(weights@, k as int + 1);
                    lemma_prob_sum_le_scale(parts@, total as int);
                } else if n > 0 {
                    assert(parts@.take(n - 1) =~= prior_parts);
                }
            }
            if k + 1 < n {
                prob_sum = prob_sum + probability;
            }
            k = k + 1;
        }
        proof {
            lemma_sum_calc_matches_weights(parts@, weights@);
            lemma_sum_calc_lower(parts@);
            if n > 0 {
                assert(parts@.take(n - 1) =~= parts@.drop_last());
            }
        }
        parts
    }

    /// The roulette-wheel draw. `None` exactly on an empty pool; on a
    /// non-empty pool the winner is a participant of the snapshot, picked
    /// by walking the snapshot in input order against a uniformly drawn
    /// value below the total weight.
    pub fn draw_winner(
        &self,
        djs: &Vec<Dj>,
        now: i64,
        event: Option<&EventSession>,
    ) -> (r: Option<LotteryDraw>)
        requires
            pool_wf(djs@, now, opt_event(event), self.config),
        ensures
            r is None <==> djs@.len() == 0,
            r is Some ==> participants_wf(
                r->0.participants@,
                djs@,
                now,
                opt_event(event),
                self.config,
            ),
            r is Some ==> r->0.drawn_at == now,
            r is Some ==> r->0.algorithm_used@ == "weighted_random"@,
            r is Some ==> winner_among(r->0),
    {
        if djs.len() == 0 {
            return None;
        }

        let participants: Vec<LotteryParticipant> = self.calculate_weights(djs, now, event);

        let mut total: u64 = 0;
        let mut i: usize = 0;
        let n: usize = participants.len();
        while i < n
            invariant
                n == participants@.len(),
                0 <= i <= n,
                forall|j: int|
                    0 <= j < n ==> MIN_WEIGHT_MICROS <= (
                    #[trigger] participants@[j].calculated_weight) <= MAX_CALC_WEIGHT_MICROS,
                sum_calc(participants@) <= n * MAX_CALC_WEIGHT_MICROS,
                n <= MAX_POOL,
                total == sum_calc(participants@.take(i as int)),
            decreases n - i,
        {
            proof {
                lemma_sum_calc_take_succ(participants@, i as int);
                lemma_sum_calc_take_le(participants@, i as int + 1);
                assert(n * MAX_CALC_WEIGHT_MICROS <= MAX_POOL * MAX_CALC_WEIGHT_MICROS)
                    by (nonlinear_arith)
                    requires
                        n <= MAX_POOL,
                ;
            }
            total = total + participants[i].calculated_weight;
            i = i + 1;
        }
        proof {
            assert(participants@.take(n as int) =~= participants@);
            lemma_sum_calc_lower(participants@);
            assert(participants@.len() * MIN_WEIGHT_MICROS >= 1 * MIN_WEIGHT_MICROS)
                by (nonlinear_arith)
                requires
                    participants@.len() >= 1,
            ;
        }

        if total == 0 {
            // Defensive: unreachable, since the weight floor keeps every
            // candidate's weight positive.
            return None;
        }

        let value: u64 = random_below(total);
        let winner_index: usize = select_winner_index(&participants, value);
        let winner: DjResponse = participants[winner_index].dj.clone();
        let draw = LotteryDraw {
            winner,
            participants,
            drawn_at: now,
            algorithm_used: "weighted_random".to_owned(),
        };
        proof {
            assert(draw.winner == draw.participants@[winner_index as int].dj);
            assert(winner_among(draw));
        }
        Some(draw)
    }
}

/// The winner of a draw is one of its recorded participants.
pub open spec fn winner_among(d: LotteryDraw) -> bool {
    exists|k: int| 0 <= k < d.participants@.len() && d.winner == d.participants@[k].dj
}

/// The sum of a sequence of weights.
pub open spec fn sum_u64(s: Seq<u64>) -> int
    decreases s.len(),
{
    if s.len() == 0 {
        0
    } else {
        sum_u64(s.drop_last()) + s.last()
    }
}

/// Pushing a weight adds it to the sum.
pub proof fn lemma_sum_u64_push(s: Seq<u64>, w: u64)
    ensures
        sum_u64(s.push(w)) == sum_u64(s) + w,
{
    assert(s.push(w).drop_last() =~= s);
}

/// Every member of a weight sequence is at most the sum.
pub proof fn lemma_sum_u64_member_le(s: Seq<u64>, i: int)
    requires
        0 <= i < s.len(),
    ensures
        s[i] <= sum_u64(s),
    decreases s.len(),
{
    if i == s.len() - 1 {
        lemma_sum_u64_nonneg(s.drop_last());
    } else {
        lemma_sum_u64_member_le(s.drop_last(), i);
    }
}

/// A sum of unsigned weights is never negative.
pub proof fn lemma_sum_u64_nonneg(s: Seq<u64>)
    ensures
        sum_u64(s) >= 0,
    decreases s.len(),
{
    if s.len() > 0 {
        lemma_sum_u64_nonneg(s.drop_last());
    }
}

/// A participant snapshot whose weights mirror a weight sequence has the
/// same sum.
pub proof fn lemma_sum_calc_matches_weights(parts: Seq<LotteryParticipant>, weights: Seq<u64>)
    requires
        parts.len() == weights.len(),
        forall|j: int|
            0 <= j < parts.len() ==> (#[trigger] parts[j]).calculated_weight == weights[j],
    ensures
        sum_calc(parts) == sum_u64(weights),
    decreases parts.len(),
{
    if parts.len() > 0 {
        lemma_sum_calc_matches_weights(parts.drop_last(), weights.drop_last());
    }
}

/// A sequence of weights each at least `bound` sums to at least `bound`
/// per entry.
pub proof fn lemma_sum_u64_lower(s: Seq<u64>, bound: u64)
    requires
        forall|j: int| 0 <= j < s.len() ==> (#[trigger] s[j]) >= bound,
    ensures
        sum_u64(s) >= s.len() * bound,
    decreases s.len(),
{
    if s.len() > 0 {
        lemma_sum_u64_lower(s.drop_last(), bound);
        assert((s.len() - 1) * bound + bound == s.len() * bound) by (nonlinear_arith);
    }
}

/// A weight prefix never outweighs the whole sequence.
pub proof fn lemma_sum_u64_take_le(s: Seq<u64>, i: int)
    requires
        0 <= i <= s.len(),
    ensures
        sum_u64(s.take(i)) <= sum_u64(s),
    decreases s.len() - i,
{
    if i == s.len() {
        assert(s.take(i) =~= s);
    } else {
        assert(s.take(i + 1).drop_last() =~= s.take(i));
        lemma_sum_u64_take_le(s, i + 1);
    }
}

/// Multiplying a snapshot's summed rounded-down shares by the total
/// brackets them: never above the exact proportional shares, and at most
/// one rounding unit below each.
pub proof fn lemma_prob_sum_bracket(parts: Seq<LotteryParticipant>, total: int)
    requires
        total > 0,
        forall|i: int|
            0 <= i < parts.len() ==> (#[trigger] parts[i].selection_probability) == parts[i].calculated_weight
                * WEIGHT_SCALE / total,
    ensures
        total * sum_prob(parts) <= sum_calc(parts) * WEIGHT_SCALE,
        total * sum_prob(parts) >= sum_calc(parts) * WEIGHT_SCALE - parts.len() * total
            + parts.len(),
    decreases parts.len(),
{
    if parts.len() == 0 {
        assert(total * 0 == 0) by (nonlinear_arith);
    } else {
        let prefix = parts.drop_last();
        lemma_prob_sum_bracket(prefix, total);
        let w = parts.last().calculated_weight as int;
        let q = parts.last().selection_probability as int;
        vstd::arithmetic::div_mod::lemma_fundamental_div_mod(w * WEIGHT_SCALE, total);
        let r = (w * WEIGHT_SCALE) % total;
        assert(q == (w * WEIGHT_SCALE) / total);
        assert(total * q == w * WEIGHT_SCALE - r);
        assert(0 <= r < total);
        assert(total * sum_prob(parts) == total * sum_prob(prefix) + total * q)
            by (nonlinear_arith)
            requires
                sum_prob(parts) == sum_prob(prefix) + q,
        ;
        assert(sum_calc(parts) * WEIGHT_SCALE == sum_calc(prefix) * WEIGHT_SCALE + w
            * WEIGHT_SCALE) by (nonlinear_arith)
            requires
                sum_calc(parts) == sum_calc(prefix) + w,
        ;
        assert((parts.len() as int) * total == (prefix.len() as int) * total + total)
            by (nonlinear_arith)
            requires
                parts.len() == prefix.len() + 1,
        ;
    }
}

/// A snapshot whose shares are all rounded down sums to at most one
/// million parts per million, provided its weights sum to at most the
/// share total.
pub proof fn lemma_prob_sum_le_scale(parts: Seq<LotteryParticipant>, total: int)
    requires
        total > 0,
        sum_calc(parts) <= total,
        forall|i: int|
            0 <= i < parts.len() ==> (#[trigger] parts[i].selection_probability) == parts[i].calculated_weight
                * WEIGHT_SCALE / total,
    ensures
        0 <= sum_prob(parts) <= WEIGHT_SCALE,
{
    lemma_prob_sum_bracket(parts, total);
    assert(sum_calc(parts) * WEIGHT_SCALE <= total * WEIGHT_SCALE) by (nonlinear_arith)
        requires
            sum_calc(parts) <= total,
    ;
    assert(sum_prob(parts) <= WEIGHT_SCALE) by (nonlinear_arith)
        requires
            total > 0,
            total * sum_prob(parts) <= total * WEIGHT_SCALE,
    ;
    lemma_sum_prob_nonneg(parts);
}

/// A sum of unsigned shares is never negative.
pub proof fn lemma_sum_prob_nonneg(parts: Seq<LotteryParticipant>)
    ensures
        sum_prob(parts) >= 0,
    decreases parts.len(),
{
    if parts.len() > 0 {
        lemma_sum_prob_nonneg(parts.drop_last());
    }
}

/// The index the roulette walk selects for `value`: the first participant
/// whose cumulative weight exceeds `value`. Stated by the two prefix sums
/// around the index, which pin it uniquely because prefix sums grow
/// monotonically.
pub fn select_winner_index(participants: &Vec<LotteryParticipant>, value: u64) -> (idx: usize)
    requires
        participants@.len() >= 1,
        (value as int) < sum_calc(participants@),
        sum_calc(participants@) <= u64::MAX,
    ensures
        idx < participants@.len(),
        sum_calc(participants@.take(idx as int)) <= value < sum_calc(
            participants@.take(idx as int + 1),
        ),
{
    let n: usize = participants.len();
    let mut cumulative: u64 = 0;
    let mut k: usize = 0;
    loop
        invariant
            n == participants@.len(),
            n >= 1,
            (value as int) < sum_calc(participants@),
            sum_calc(participants@) <= u64::MAX,
            0 <= k <= n,
            cumulative == sum_calc(participants@.take(k as int)),
            value >= cumulative,
        decreases n - k,
    {
        if k >= n {
            proof {
                assert(participants@.take(n as int) =~= participants@);
            }
            // Unreachable: the walk's cumulative weight reaches the total,
            // and `value` lies strictly below it.
            assert(false);
        }
        proof {
            lemma_sum_calc_take_succ(participants@, k as int);
            lemma_sum_calc_take_le(participants@, k as int + 1);
        }
        let w: u64 = participants[k].calculated_weight;
        cumulative = cumulative + w;
        if value < cumulative {
            return k;
        }
        k = k + 1;
    }
}

} // verus!
