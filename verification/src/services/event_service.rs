//! The event coordinator: starting and ending the single active event,
//! advancing the clock when a performer's slot begins, and the
//! at-most-once "draw due" check the background trigger polls.

use vstd::prelude::*;

use crate::errors::DjSystemError;
use crate::models::dj::{opt_string_view, Dj};
use crate::models::event_session::{
    EventSession, EventSessionResponse, StartEventRequest, Timetable, TimetableEntry,
    TimetableEntryStatus, MAX_CUTOFF_HOURS, MAX_SLOT_MINUTES,
};
use crate::models::lottery::{draw_like, participants_wf, winner_among};
use crate::models::session::Session;
use crate::services::lottery_service::{eligible_seq, spec_active_event, LotteryService};
use crate::services::store::{
    find_active_event_index, find_dj_index, first_dj_match, has_active_event, no_dj_match,
    spec_max_pos, Store,
};
use crate::valid_timestamp;

verus! {

impl Clone for EventSession {
    fn clone(&self) -> (r: EventSession)
        ensures
            r == *self,
    {
        EventSession {
            id: self.id.clone(),
            started_at: self.started_at,
            ended_at: self.ended_at,
            slot_duration_minutes: self.slot_duration_minutes,
            late_arrival_cutoff_hours: self.late_arrival_cutoff_hours,
            is_active: self.is_active,
            current_dj_id: match &self.current_dj_id {
                Some(id) => Some(id.clone()),
                None => None,
            },
            current_slot_started_at: self.current_slot_started_at,
            next_draw_at: self.next_draw_at,
        }
    }
}

/// Agreement of an event row and its outward response at time `now`,
/// with the occupant's name joined in from the roster.
pub open spec fn event_resp_matches(
    e: EventSession,
    r: EventSessionResponse,
    djs: Seq<crate::models::dj::Dj>,
    now: i64,
) -> bool {
    &&& r.id@ == e.id@
    &&& r.started_at == e.started_at
    &&& r.ended_at == e.ended_at
    &&& r.slot_duration_minutes == e.slot_duration_minutes
    &&& r.late_arrival_cutoff_hours == e.late_arrival_cutoff_hours
    &&& r.is_active == e.spec_is_active()
    &&& opt_string_view(r.current_dj_id) == opt_string_view(e.current_dj_id)
    &&& r.current_slot_started_at == e.current_slot_started_at
    &&& r.next_draw_at == e.next_draw_at
    &&& r.elapsed_minutes == e.spec_elapsed_minutes(now)
    &&& r.current_slot_progress_percent == e.spec_slot_progress_percent(now)
    &&& match e.current_dj_id {
        None => r.current_dj_name is None,
        Some(id) => {
            &&& (no_dj_match(djs, id@) ==> r.current_dj_name is None)
            &&& forall|k: int|
                #[trigger] first_dj_match(djs, id@, k) ==> r.current_dj_name is Some
                    && r.current_dj_name->0@ == djs[k].name@
        },
    }
}

/// The outcome of one due-check at time `now`: the event afterwards, and
/// whether a draw fell due. A due deadline is cleared in the same step,
/// which is what makes the trigger fire at most once per deadline.
pub open spec fn spec_check_due(e: EventSession, now: i64) -> (EventSession, bool) {
    if e.spec_should_draw_next(now) {
        (EventSession { next_draw_at: None, ..e }, true)
    } else {
        (e, false)
    }
}

/// Whether index `m` names the most recent session of performer `dj_id`
/// that started within the event (at or after its start).
pub open spec fn is_latest_session(
    sessions: Seq<Session>,
    dj_id: Seq<char>,
    event_start: i64,
    m: int,
) -> bool {
    &&& 0 <= m < sessions.len()
    &&& sessions[m].dj_id@ == dj_id
    &&& sessions[m].started_at >= event_start
    &&& forall|j: int|
        0 <= j < sessions.len() && (#[trigger] sessions[j]).dj_id@ == dj_id
            && sessions[j].started_at >= event_start ==> sessions[j].started_at
            <= sessions[m].started_at
}

/// Whether the performer has any session within the event.
pub open spec fn has_session_for(
    sessions: Seq<Session>,
    dj_id: Seq<char>,
    event_start: i64,
) -> bool {
    exists|j: int|
        0 <= j < sessions.len() && (#[trigger] sessions[j]).dj_id@ == dj_id
            && sessions[j].started_at >= event_start
}

/// The index of the performer's most recent session within the event,
/// if any.
pub fn find_latest_session(sessions: &Vec<Session>, dj_id: &str, event_start: i64) -> (r: Option<
    usize,
>)
    ensures
        r is Some ==> is_latest_session(sessions@, dj_id@, event_start, r->0 as int),
        r is None ==> !has_session_for(sessions@, dj_id@, event_start),
{
    let n: usize = sessions.len();
    let mut best: Option<usize> = None;
    let mut i: usize = 0;
    while i < n
        invariant
            n == sessions@.len(),
            0 <= i <= n,
            best is Some ==> best->0 < i && sessions@[best->0 as int].dj_id@ == dj_id@
                && sessions@[best->0 as int].started_at >= event_start,
            best is Some ==> forall|j: int|
                0 <= j < i && (#[trigger] sessions@[j]).dj_id@ == dj_id@
                    && sessions@[j].started_at >= event_start ==> sessions@[j].started_at
                    <= sessions@[best->0 as int].started_at,
            best is None ==> forall|j: int|
                0 <= j < i ==> !((#[trigger] sessions@[j]).dj_id@ == dj_id@
                    && sessions@[j].started_at >= event_start),
        decreases n - i,
    {
        if crate::utils::strings::str_eq(sessions[i].dj_id.as_str(), dj_id)
            && sessions[i].started_at >= event_start {
            match best {
                Some(b) => {
                    if sessions[i].started_at > sessions[b].started_at {
                        best = Some(i);
                    }
                },
                None => {
                    best = Some(i);
                },
            }
        }
        i = i + 1;
    }
    best
}

/// The number of completed rows in a timetable.
pub open spec fn spec_completed_count(entries: Seq<TimetableEntry>) -> int
    decreases entries.len(),
{
    if entries.len() == 0 {
        0
    } else {
        spec_completed_count(entries.drop_last()) + if entries.last().status
            == TimetableEntryStatus::Completed {
            1int
        } else {
            0int
        }
    }
}

/// Agreement of one timetable row with the repository: the row describes
/// the performer holding queue position `p`, joined with their most
/// recent session within the event, or marked upcoming with the event's
/// start where no session exists yet.
pub open spec fn timetable_entry_matches(
    entry: TimetableEntry,
    djs: Seq<crate::models::dj::Dj>,
    sessions: Seq<Session>,
    event: EventSession,
    p: int,
) -> bool {
    exists|i: int|
        #![trigger djs[i]]
        {
            &&& crate::services::store::queued(djs, i)
            &&& crate::services::store::pos_at(djs, i) == p
            &&& entry.position == p
            &&& entry.dj_id@ == djs[i].id@
            &&& entry.dj_name@ == djs[i].name@
            &&& if has_session_for(sessions, djs[i].id@, event.started_at) {
                exists|m: int|
                    #![trigger sessions[m]]
                    {
                        &&& is_latest_session(sessions, djs[i].id@, event.started_at, m)
                        &&& entry.started_at == sessions[m].started_at
                        &&& entry.ended_at == sessions[m].ended_at
                        &&& entry.duration_minutes == sessions[m].duration_minutes
                        &&& entry.status == (if sessions[m].ended_at is Some {
                            TimetableEntryStatus::Completed
                        } else if event.current_dj_id is Some && event.current_dj_id->0@
                            == djs[i].id@ {
                            TimetableEntryStatus::InProgress
                        } else {
                            TimetableEntryStatus::Upcoming
                        })
                    }
            } else {
                &&& entry.started_at == event.started_at
                &&& entry.ended_at is None
                &&& entry.duration_minutes is None
                &&& entry.status == TimetableEntryStatus::Upcoming
            }
        }
}

/// The event coordinator, carrying the defaults a start request may omit.
pub struct EventService {
    pub default_slot_duration: i32,
    pub default_late_arrival_cutoff: i32,
}

impl EventService {
    /// A coordinator with the given defaults.
    pub fn new(default_slot_duration: i32, default_late_arrival_cutoff: i32) -> (r: EventService)
        requires
            1 <= default_slot_duration <= MAX_SLOT_MINUTES,
            0 <= default_late_arrival_cutoff <= MAX_CUTOFF_HOURS,
        ensures
            r.default_slot_duration == default_slot_duration,
            r.default_late_arrival_cutoff == default_late_arrival_cutoff,
            r.wf(),
    {
        EventService { default_slot_duration, default_late_arrival_cutoff }
    }

    /// The defaults lie within the admissible ranges.
    pub open spec fn wf(&self) -> bool {
        &&& 1 <= self.default_slot_duration <= MAX_SLOT_MINUTES
        &&& 0 <= self.default_late_arrival_cutoff <= MAX_CUTOFF_HOURS
    }

    /// The active event row, if any.
    pub fn get_active_event(&self, store: &Store) -> (r: Option<EventSession>)
        requires
            store.wf(),
        ensures
            r == crate::services::lottery_service::spec_active_event(store.events@),
    {
        match find_active_event_index(&store.events) {
            Some(i) => {
                proof {
                    let c = choose|j: int|
                        0 <= j < store.events@.len() && (
                        #[trigger] store.events@[j]).spec_is_active();
                    assert(c == i as int);
                }
                Some(store.events[i].clone())
            },
            None => None,
        }
    }

    /// The outward shape of an event row at time `now`, with the
    /// occupant's display name joined in from the roster.
    pub fn to_response(&self, store: &Store, event: &EventSession, now: i64) -> (r:
        EventSessionResponse)
        requires
            event.wf(),
            valid_timestamp(now),
            -0x8000_0000 <= event.spec_elapsed_minutes(now) < 0x8000_0000,
        ensures
            event_resp_matches(*event, r, store.djs@, now),
    {
        let current_dj_name: Option<String> = match &event.current_dj_id {
            Some(dj_id) => {
                match find_dj_index(&store.djs, dj_id.as_str()) {
                    Some(k) => Some(store.djs[k].name.clone()),
                    None => None,
                }
            },
            None => None,
        };
        EventSessionResponse {
            id: event.id.clone(),
            started_at: event.started_at,
            ended_at: event.ended_at,
            slot_duration_minutes: event.slot_duration_minutes,
            late_arrival_cutoff_hours: event.late_arrival_cutoff_hours,
            is_active: event.is_active(),
            current_dj_id: match &event.current_dj_id {
                Some(id) => Some(id.clone()),
                None => None,
            },
            current_dj_name,
            current_slot_started_at: event.current_slot_started_at,
            next_draw_at: event.next_draw_at,
            elapsed_minutes: event.elapsed_minutes(now),
            current_slot_progress_percent: event.current_slot_progress_percent(now),
        }
    }

    /// The outward shape of the active event, if any.
    pub fn get_active_event_response(&self, store: &Store, now: i64) -> (r: Option<
        EventSessionResponse,
    >)
        requires
            store.wf(),
            valid_timestamp(now),
            forall|i: int|
                0 <= i < store.events@.len() ==> -0x8000_0000 <= (
                #[trigger] store.events@[i]).spec_elapsed_minutes(now) < 0x8000_0000,
        ensures
            r is Some <==> has_active_event(store.events@),
            r is Some ==> exists|i: int|
                0 <= i < store.events@.len() && (#[trigger] store.events@[i]).spec_is_active()
                    && event_resp_matches(store.events@[i], r->0, store.djs@, now),
    {
        match find_active_event_index(&store.events) {
            Some(i) => {
                let event: EventSession = store.events[i].clone();
                let resp: EventSessionResponse = self.to_response(store, &event, now);
                proof {
                    assert(store.events@[i as int].spec_is_active() && event_resp_matches(
                        store.events@[i as int],
                        resp,
                        store.djs@,
                        now,
                    ));
                }
                Some(resp)
            },
            None => None,
        }
    }

    /// Starts the event: fails with `EventAlreadyActive` while one is
    /// running; otherwise creates an active event from the request (or
    /// the defaults) and immediately runs one convenience draw, which on
    /// an empty pool is a no-op, not an error.
    pub fn start_event(
        &self,
        store: &mut Store,
        lottery: &LotteryService,
        request: StartEventRequest,
        now: i64,
    ) -> (r: Result<EventSessionResponse, DjSystemError>)
        requires
            old(store).wf(),
            self.wf(),
            lottery.engine.config.wf(),
            valid_timestamp(now),
            request.slot_duration_minutes is Some ==> 1 <= request.slot_duration_minutes->0
                <= MAX_SLOT_MINUTES,
            request.late_arrival_cutoff_hours is Some ==> 0 <= request.late_arrival_cutoff_hours->0
                <= MAX_CUTOFF_HOURS,
            request.started_at is Some ==> valid_timestamp(request.started_at->0)
                && -0x8000_0000 * 60 < now - request.started_at->0 < 0x8000_0000 * 60,
        ensures
            final(store).wf(),
            has_active_event(old(store).events@) ==> r is Err && r->Err_0
                == DjSystemError::EventAlreadyActive && final(store).events@ == old(store).events@
                && final(store).djs@ == old(store).djs@ && final(store).draws@ == old(
                store,
            ).draws@,
            final(store).sessions@ == old(store).sessions@,
            final(store).guest_requests@ == old(store).guest_requests@,
            !has_active_event(old(store).events@) ==> r is Ok && final(store).events@.len() == old(
                store,
            ).events@.len() + 1 && final(store).events@.take(old(store).events@.len() as int)
                == old(store).events@,
            !has_active_event(old(store).events@) ==> {
                let e = final(store).events@.last();
                &&& e.started_at == (if request.started_at is Some {
                    request.started_at->0
                } else {
                    now
                })
                &&& e.slot_duration_minutes == (if request.slot_duration_minutes is Some {
                    request.slot_duration_minutes->0
                } else {
                    self.default_slot_duration
                })
                &&& e.late_arrival_cutoff_hours == (if request.late_arrival_cutoff_hours is Some {
                    request.late_arrival_cutoff_hours->0
                } else {
                    self.default_late_arrival_cutoff
                })
                &&& e.is_active
                &&& e.ended_at is None
                &&& e.current_dj_id is None
                &&& e.current_slot_started_at is None
                &&& e.next_draw_at is None
            },
            !has_active_event(old(store).events@) ==> event_resp_matches(
                final(store).events@.last(),
                r->Ok_0,
                final(store).djs@,
                now,
            ),
            !has_active_event(old(store).events@) && eligible_seq(old(store).djs@).len() == 0
                ==> final(store).djs@ == old(store).djs@ && final(store).draws@ == old(
                store,
            ).draws@,
            !has_active_event(old(store).events@) && eligible_seq(old(store).djs@).len() > 0 ==> {
                &&& final(store).draws@.len() == old(store).draws@.len() + 1
                &&& participants_wf(
                    final(store).draws@.last().participants@,
                    eligible_seq(old(store).djs@),
                    now,
                    Some(final(store).events@.last()),
                    lottery.engine.config,
                )
                &&& winner_among(final(store).draws@.last())
                &&& final(store).draws@.last().drawn_at == now
                &&& (final(store).djs@ == old(store).djs@ || exists|k: int|
                    #[trigger] first_dj_match(
                        old(store).djs@,
                        final(store).draws@.last().winner.id@,
                        k,
                    ) && final(store).djs@ == old(store).djs@.update(
                        k,
                        (Dj {
                            position_in_queue: Some((spec_max_pos(old(store).djs@) + 1) as i32),
                            ..old(store).djs@[k]
                        }),
                    ))
            },
            final(store).draws@.len() <= old(store).draws@.len() + 1,
            final(store).draws@.take(old(store).draws@.len() as int) == old(store).draws@,
    {
        if let Some(_i) = find_active_event_index(&store.events) {
            return Err(DjSystemError::EventAlreadyActive);
        }
        let slot_duration: i32 = match request.slot_duration_minutes {
            Some(d) => d,
            None => self.default_slot_duration,
        };
        let late_arrival_cutoff: i32 = match request.late_arrival_cutoff_hours {
            Some(c) => c,
            None => self.default_late_arrival_cutoff,
        };
        let event: EventSession = EventSession::new(
            slot_duration,
            late_arrival_cutoff,
            request.started_at,
            now,
        );
        let event_copy: EventSession = event.clone();
        store.events.push(event);
        proof {
            assert(store.events@.take(old(store).events@.len() as int) =~= old(store).events@);
            assert forall|i: int, j: int|
                0 <= i < store.events@.len() && 0 <= j < store.events@.len() && (
                #[trigger] store.events@[i]).spec_is_active() && (
                #[trigger] store.events@[j]).spec_is_active() implies i == j by {
                if i < old(store).events@.len() {
                    assert(old(store).events@[i].spec_is_active());
                }
                if j < old(store).events@.len() {
                    assert(old(store).events@[j].spec_is_active());
                }
            }
        }

        // The convenience draw: drawing into an empty pool is a no-op.
        let ghost pre_draw = *store;
        let drawn = lottery.draw_next_dj(store, now);
        proof {
            assert(store.draws@.take(old(store).draws@.len() as int) =~= old(store).draws@);
            if eligible_seq(old(store).djs@).len() > 0 {
                // The event just created is the active one the draw saw.
                assert(pre_draw.events@[pre_draw.events@.len() - 1].spec_is_active());
                assert(crate::services::store::has_active_event(pre_draw.events@));
                let c = choose|i: int|
                    0 <= i < pre_draw.events@.len() && (
                    #[trigger] pre_draw.events@[i]).spec_is_active();
                assert(c == pre_draw.events@.len() - 1);
                assert(spec_active_event(pre_draw.events@) == Some(pre_draw.events@.last()));
                // Carry the draw's record over to the appended log entry.
                let d = drawn->Ok_0->0;
                assert(draw_like(store.draws@.last(), d));
                let k = choose|k: int|
                    0 <= k < d.participants@.len() && d.winner == d.participants@[k].dj;
                assert(store.draws@.last().winner == store.draws@.last().participants@[k].dj);
                assert(winner_among(store.draws@.last()));
            }
        }
        match drawn {
            Ok(_) => {},
            Err(_) => {},
        }
        let resp: EventSessionResponse = self.to_response(store, &event_copy, now);
        Ok(resp)
    }

    /// Ends the active event: marks it inactive and records the end time,
    /// keeping the row as history. Fails with `NoActiveEvent` if none is
    /// running - a second end must fail cleanly, never double-record.
    pub fn end_event(&self, store: &mut Store, now: i64) -> (r: Result<
        EventSessionResponse,
        DjSystemError,
    >)
        requires
            old(store).wf(),
            valid_timestamp(now),
            forall|i: int|
                0 <= i < old(store).events@.len() ==> -0x8000_0000 <= (
                #[trigger] old(store).events@[i]).spec_elapsed_minutes(now) < 0x8000_0000,
        ensures
            final(store).wf(),
            final(store).djs@ == old(store).djs@,
            final(store).draws@ == old(store).draws@,
            final(store).sessions@ == old(store).sessions@,
            final(store).guest_requests@ == old(store).guest_requests@,
            !has_active_event(old(store).events@) ==> r is Err && r->Err_0
                == DjSystemError::NoActiveEvent && final(store).events@ == old(store).events@,
            forall|i: int|
                0 <= i < old(store).events@.len() && (#[trigger] old(
                    store,
                ).events@[i]).spec_is_active() ==> r is Ok && final(store).events@ == old(
                    store,
                ).events@.update(
                    i,
                    (EventSession {
                        ended_at: Some(now),
                        is_active: false,
                        ..old(store).events@[i]
                    }),
                ) && event_resp_matches(
                    final(store).events@[i],
                    r->Ok_0,
                    old(store).djs@,
                    now,
                ),
    {
        let i: usize = match find_active_event_index(&store.events) {
            Some(i) => i,
            None => {
                return Err(DjSystemError::NoActiveEvent);
            },
        };
        store.events[i].ended_at = Some(now);
        store.events[i].is_active = false;
        let ended: EventSession = store.events[i].clone();
        proof {
            assert forall|a: int, b: int|
                0 <= a < store.events@.len() && 0 <= b < store.events@.len() && (
                #[trigger] store.events@[a]).spec_is_active() && (
                #[trigger] store.events@[b]).spec_is_active() implies a == b by {
                assert(old(store).events@[a].spec_is_active());
                assert(old(store).events@[b].spec_is_active());
            }
            assert forall|j: int|
                0 <= j < old(store).events@.len() && (#[trigger] old(
                    store,
                ).events@[j]).spec_is_active() implies j == i as int by {}
        }
        let resp: EventSessionResponse = self.to_response(store, &ended, now);
        Ok(resp)
    }

    /// Begins a performer's slot: records the occupant and the slot start,
    /// and sets the next draw due at the slot's halfway point, so the
    /// following performer is always drawn "on deck". Fails with
    /// `NoActiveEvent` if no event is running.
    pub fn start_next_dj_slot(&self, store: &mut Store, dj_id: String, now: i64) -> (r: Result<
        EventSessionResponse,
        DjSystemError,
    >)
        requires
            old(store).wf(),
            valid_timestamp(now),
            forall|i: int|
                0 <= i < old(store).events@.len() ==> -0x8000_0000 <= (
                #[trigger] old(store).events@[i]).spec_elapsed_minutes(now) < 0x8000_0000,
        ensures
            final(store).wf(),
            final(store).djs@ == old(store).djs@,
            final(store).draws@ == old(store).draws@,
            final(store).sessions@ == old(store).sessions@,
            final(store).guest_requests@ == old(store).guest_requests@,
            !has_active_event(old(store).events@) ==> r is Err && r->Err_0
                == DjSystemError::NoActiveEvent && final(store).events@ == old(store).events@,
            forall|i: int|
                0 <= i < old(store).events@.len() && (#[trigger] old(
                    store,
                ).events@[i]).spec_is_active() ==> r is Ok && final(store).events@ == old(
                    store,
                ).events@.update(
                    i,
                    (EventSession {
                        current_dj_id: Some(dj_id),
                        current_slot_started_at: Some(now),
                        next_draw_at: Some(
                            (old(store).events@[i].spec_next_draw_time(now)) as i64,
                        ),
                        ..old(store).events@[i]
                    }),
                ) && event_resp_matches(
                    final(store).events@[i],
                    r->Ok_0,
                    old(store).djs@,
                    now,
                ),
    {
        let i: usize = match find_active_event_index(&store.events) {
            Some(i) => i,
            None => {
                return Err(DjSystemError::NoActiveEvent);
            },
        };
        let next_draw: i64 = store.events[i].calculate_next_draw_time(now);
        store.events[i].current_dj_id = Some(dj_id);
        store.events[i].current_slot_started_at = Some(now);
        store.events[i].next_draw_at = Some(next_draw);
        let updated: EventSession = store.events[i].clone();
        proof {
            assert forall|a: int, b: int|
                0 <= a < store.events@.len() && 0 <= b < store.events@.len() && (
                #[trigger] store.events@[a]).spec_is_active() && (
                #[trigger] store.events@[b]).spec_is_active() implies a == b by {
                assert(old(store).events@[a].spec_is_active());
                assert(old(store).events@[b].spec_is_active());
            }
            assert forall|j: int|
                0 <= j < old(store).events@.len() && (#[trigger] old(
                    store,
                ).events@[j]).spec_is_active() implies j == i as int by {}
        }
        let resp: EventSessionResponse = self.to_response(store, &updated, now);
        Ok(resp)
    }

    /// The background trigger's poll: reports whether a draw is due and,
    /// in the same atomic step, clears the deadline, so repeated polling
    /// fires at most once per deadline. `false` with no active event.
    pub fn check_and_trigger_auto_draw(&self, store: &mut Store, now: i64) -> (r: Result<
        bool,
        DjSystemError,
    >)
        requires
            old(store).wf(),
        ensures
            final(store).wf(),
            r is Ok,
            final(store).djs@ == old(store).djs@,
            final(store).draws@ == old(store).draws@,
            final(store).sessions@ == old(store).sessions@,
            final(store).guest_requests@ == old(store).guest_requests@,
            !has_active_event(old(store).events@) ==> r->Ok_0 == false && final(store).events@
                == old(store).events@,
            forall|i: int|
                0 <= i < old(store).events@.len() && (#[trigger] old(
                    store,
                ).events@[i]).spec_is_active() ==> r->Ok_0 == spec_check_due(
                    old(store).events@[i],
                    now,
                ).1 && final(store).events@ == old(store).events@.update(
                    i,
                    spec_check_due(old(store).events@[i], now).0,
                ),
    {
        let i: usize = match find_active_event_index(&store.events) {
            Some(i) => i,
            None => {
                return Ok(false);
            },
        };
        proof {
            assert forall|j: int|
                0 <= j < old(store).events@.len() && (#[trigger] old(
                    store,
                ).events@[j]).spec_is_active() implies j == i as int by {}
        }
        if store.events[i].should_draw_next(now) {
            store.events[i].next_draw_at = None;
            proof {
                assert forall|a: int, b: int|
                    0 <= a < store.events@.len() && 0 <= b < store.events@.len() && (
                    #[trigger] store.events@[a]).spec_is_active() && (
                    #[trigger] store.events@[b]).spec_is_active() implies a == b by {
                    assert(old(store).events@[a].spec_is_active());
                    assert(old(store).events@[b].spec_is_active());
                }
            }
            Ok(true)
        } else {
            proof {
                assert(store.events@ =~= old(store).events@.update(
                    i as int,
                    spec_check_due(old(store).events@[i as int], now).0,
                ));
            }
            Ok(false)
        }
    }

    /// The derived timetable of the active event, or `None` while no
    /// event runs: one row per queued performer in queue order, each
    /// joined with their most recent session within the event.
    pub fn get_timetable(&self, store: &Store) -> (r: Option<Timetable>)
        requires
            store.wf(),
        ensures
            r is Some <==> has_active_event(store.events@),
            r is Some ==> forall|ei: int|
                0 <= ei < store.events@.len() && (#[trigger] store.events@[ei]).spec_is_active()
                    ==> {
                    let t = r->0;
                    &&& t.event_id@ == store.events@[ei].id@
                    &&& t.event_started_at == store.events@[ei].started_at
                    &&& t.entries@.len() == crate::services::store::spec_max_pos(store.djs@)
                    &&& t.total_djs == t.entries@.len()
                    &&& t.completed_sets == spec_completed_count(t.entries@)
                    &&& forall|idx: int|
                        0 <= idx < t.entries@.len() ==> timetable_entry_matches(
                            #[trigger] t.entries@[idx],
                            store.djs@,
                            store.sessions@,
                            store.events@[ei],
                            idx + 1,
                        )
                },
    {
        let ei: usize = match find_active_event_index(&store.events) {
            Some(i) => i,
            None => {
                return None;
            },
        };
        proof {
            assert forall|j: int|
                0 <= j < store.events@.len() && (#[trigger] store.events@[j]).spec_is_active()
                    implies j == ei as int by {}
        }
        let event: EventSession = store.events[ei].clone();

        let max: i32 = crate::services::store::max_queue_position(&store.djs);
        proof {
            crate::services::store::lemma_max_pos_properties(store.djs@);
        }
        let mut entries: Vec<TimetableEntry> = Vec::new();
        let mut completed_sets: usize = 0;
        let mut p: i32 = 1;
        while p <= max
            invariant
                store.wf(),
                event == store.events@[ei as int],
                ei < store.events@.len(),
                event.wf(),
                max as int == crate::services::store::spec_max_pos(store.djs@),
                crate::services::store::spec_max_pos(store.djs@) != 0
                    ==> crate::services::store::occupied(
                    store.djs@,
                    crate::services::store::spec_max_pos(store.djs@),
                ),
                1 <= p <= max + 1,
                entries@.len() == p - 1,
                completed_sets == spec_completed_count(entries@),
                completed_sets <= entries@.len(),
                forall|idx: int|
                    0 <= idx < entries@.len() ==> timetable_entry_matches(
                        #[trigger] entries@[idx],
                        store.djs@,
                        store.sessions@,
                        event,
                        idx + 1,
                    ),
            decreases max - p + 1,
        {
            let di: usize = match crate::services::store::find_by_position(&store.djs, p) {
                Some(i) => i,
                None => {
                    proof {
                        crate::services::store::lemma_positions_downward(
                            store.djs@,
                            max as int,
                            p as int,
                        );
                        assert(false);
                    }
                    return None;
                },
            };
            let dj_id: String = store.djs[di].id.clone();
            let dj_name: String = store.djs[di].name.clone();

            let entry: TimetableEntry = match find_latest_session(
                &store.sessions,
                dj_id.as_str(),
                event.started_at,
            ) {
                Some(m) => {
                    let session_ended: Option<i64> = store.sessions[m].ended_at;
                    let status: TimetableEntryStatus = if session_ended.is_some() {
                        completed_sets = completed_sets + 1;
                        TimetableEntryStatus::Completed
                    } else {
                        let playing_now: bool = match &event.current_dj_id {
                            Some(cid) => crate::utils::strings::str_eq(
                                cid.as_str(),
                                dj_id.as_str(),
                            ),
                            None => false,
                        };
                        if playing_now {
                            TimetableEntryStatus::InProgress
                        } else {
                            TimetableEntryStatus::Upcoming
                        }
                    };
                    TimetableEntry {
                        position: p,
                        dj_id,
                        dj_name,
                        started_at: store.sessions[m].started_at,
                        ended_at: session_ended,
                        duration_minutes: store.sessions[m].duration_minutes,
                        status,
                    }
                },
                None => {
                    TimetableEntry {
                        position: p,
                        dj_id,
                        dj_name,
                        started_at: event.started_at,
                        ended_at: None,
                        duration_minutes: None,
                        status: TimetableEntryStatus::Upcoming,
                    }
                },
            };
            proof {
                assert(timetable_entry_matches(entry, store.djs@, store.sessions@, event, p as int));
                assert(entries@.push(entry).drop_last() =~= entries@);
            }
            entries.push(entry);
            p = p + 1;
        }

        let total_djs: usize = entries.len();
        Some(
            Timetable {
                event_id: event.id,
                event_started_at: event.started_at,
                entries,
                total_djs,
                completed_sets,
            },
        )
    }
}

} // verus!
