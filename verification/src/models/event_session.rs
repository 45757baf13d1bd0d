//! The event session: the single running night's timing state. It owns the
//! start time, the per-slot duration, the late-arrival cutoff and the
//! "next draw due" deadline that the background trigger polls.

use vstd::prelude::*;

use crate::external::fresh_id;
use crate::{valid_timestamp, MAX_TIMESTAMP};

verus! {

/// Largest admissible slot duration, in minutes.
pub const MAX_SLOT_MINUTES: i32 = 1_000_000;

/// Largest admissible late-arrival cutoff, in hours.
pub const MAX_CUTOFF_HOURS: i32 = 1_000_000;

/// A derived deadline (such as "next draw due") may land past the last
/// admissible start time by half a maximal slot.
pub open spec fn valid_deadline(t: i64) -> bool {
    0 <= t <= MAX_TIMESTAMP + 30_000_000
}

/// The whole event (the running night), as opposed to one performer's
/// session. All times are unix seconds; `slot_duration_minutes` is the
/// length of one performer's slot.
#[derive(Debug)]
pub struct EventSession {
    pub id: String,
    pub started_at: i64,
    pub ended_at: Option<i64>,
    pub slot_duration_minutes: i32,
    pub late_arrival_cutoff_hours: i32,
    pub is_active: bool,
    pub current_dj_id: Option<String>,
    pub current_slot_started_at: Option<i64>,
    pub next_draw_at: Option<i64>,
}

/// A request to start the night; missing values fall back to the
/// coordinator's defaults, and a missing start time means "now".
#[derive(Debug)]
pub struct StartEventRequest {
    pub slot_duration_minutes: Option<i32>,
    pub late_arrival_cutoff_hours: Option<i32>,
    pub started_at: Option<i64>,
}

impl EventSession {
    /// Well-formedness: in-range times, a positive bounded slot duration,
    /// a non-negative bounded cutoff, and an event still marked active has
    /// no end time.
    pub open spec fn wf(&self) -> bool {
        &&& valid_timestamp(self.started_at)
        &&& (self.ended_at is Some ==> valid_timestamp(self.ended_at->0))
        &&& 1 <= self.slot_duration_minutes <= MAX_SLOT_MINUTES
        &&& 0 <= self.late_arrival_cutoff_hours <= MAX_CUTOFF_HOURS
        &&& (self.current_slot_started_at is Some ==> valid_timestamp(
            self.current_slot_started_at->0,
        ))
        &&& (self.next_draw_at is Some ==> valid_deadline(self.next_draw_at->0))
        &&& (self.is_active ==> self.ended_at is None)
    }

    /// A fresh, active event with no occupant and no pending draw
    /// deadline; it starts at the supplied time, or at `now`.
    pub fn new(
        slot_duration_minutes: i32,
        late_arrival_cutoff_hours: i32,
        started_at: Option<i64>,
        now: i64,
    ) -> (r: EventSession)
        requires
            valid_timestamp(now),
            1 <= slot_duration_minutes <= MAX_SLOT_MINUTES,
            0 <= late_arrival_cutoff_hours <= MAX_CUTOFF_HOURS,
            started_at is Some ==> valid_timestamp(started_at->0),
        ensures
            r.id@.len() == 36,
            r.started_at == (if started_at is Some {
                started_at->0
            } else {
                now
            }),
            r.ended_at is None,
            r.slot_duration_minutes == slot_duration_minutes,
            r.late_arrival_cutoff_hours == late_arrival_cutoff_hours,
            r.is_active,
            r.current_dj_id is None,
            r.current_slot_started_at is None,
            r.next_draw_at is None,
            r.wf(),
    {
        EventSession {
            id: fresh_id(),
            started_at: match started_at {
                Some(t) => t,
                None => now,
            },
            ended_at: None,
            slot_duration_minutes,
            late_arrival_cutoff_hours,
            is_active: true,
            current_dj_id: None,
            current_slot_started_at: None,
            next_draw_at: None,
        }
    }

    /// Whether the event is still running: marked active and not yet ended.
    pub open spec fn spec_is_active(&self) -> bool {
        self.is_active && self.ended_at is None
    }

    /// Whether the event is still running.
    pub fn is_active(&self) -> (r: bool)
        ensures
            r == self.spec_is_active(),
    {
        self.is_active && self.ended_at.is_none()
    }

    /// Minutes elapsed since the event started, truncated toward zero
    /// (negative while the start time still lies in the future).
    pub open spec fn spec_elapsed_minutes(&self, now: i64) -> int {
        if now >= self.started_at {
            (now - self.started_at) / 60
        } else {
            -((self.started_at - now) / 60)
        }
    }

    /// Minutes elapsed since the event started.
    pub fn elapsed_minutes(&self, now: i64) -> (r: i32)
        requires
            self.wf(),
            valid_timestamp(now),
            -0x8000_0000 <= self.spec_elapsed_minutes(now) < 0x8000_0000,
        ensures
            r == self.spec_elapsed_minutes(now),
    {
        let minutes: i64 = if now >= self.started_at {
            (now - self.started_at) / 60
        } else {
            -((self.started_at - now) / 60)
        };
        minutes as i32
    }

    /// Whether a candidate registered at `registration_time` counts as a
    /// late arrival: strictly more than `late_arrival_cutoff_hours` after
    /// the event's start, by any margin.
    pub open spec fn spec_should_apply_late_penalty(&self, registration_time: i64) -> bool {
        registration_time > self.started_at && registration_time - self.started_at
            > (self.late_arrival_cutoff_hours as int) * 3600
    }

    /// Whether the late-arrival weight penalty applies to a candidate
    /// registered at `registration_time`.
    pub fn should_apply_late_penalty(&self, registration_time: i64) -> (r: bool)
        requires
            self.wf(),
            valid_timestamp(registration_time),
        ensures
            r == self.spec_should_apply_late_penalty(registration_time),
    {
        if registration_time > self.started_at {
            registration_time - self.started_at > (self.late_arrival_cutoff_hours as i64) * 3600
        } else {
            false
        }
    }

    /// How far the current slot has progressed, as a whole percentage
    /// clamped to `[0, 100]`; absent while no slot is in progress.
    pub open spec fn spec_slot_progress_percent(&self, now: i64) -> Option<u32> {
        match self.current_slot_started_at {
            Some(slot_start) => {
                if now <= slot_start {
                    Some(0u32)
                } else {
                    let elapsed_minutes = (now - slot_start) / 60;
                    let percent = elapsed_minutes * 100 / (self.slot_duration_minutes as int);
                    if percent >= 100 {
                        Some(100u32)
                    } else {
                        Some(percent as u32)
                    }
                }
            },
            None => None,
        }
    }

    /// How far the current slot has progressed, as a whole percentage.
    pub fn current_slot_progress_percent(&self, now: i64) -> (r: Option<u32>)
        requires
            self.wf(),
            valid_timestamp(now),
        ensures
            r == self.spec_slot_progress_percent(now),
    {
        match self.current_slot_started_at {
            Some(slot_start) => {
                if now <= slot_start {
                    Some(0)
                } else {
                    let elapsed_minutes: i64 = (now - slot_start) / 60;
                    let percent: i64 = elapsed_minutes * 100 / (self.slot_duration_minutes as i64);
                    if percent >= 100 {
                        Some(100)
                    } else {
                        Some(percent as u32)
                    }
                }
            },
            None => None,
        }
    }

    /// Whether the pending draw deadline has arrived.
    pub open spec fn spec_should_draw_next(&self, now: i64) -> bool {
        self.next_draw_at is Some && now >= self.next_draw_at->0
    }

    /// Whether the pending draw deadline has arrived.
    pub fn should_draw_next(&self, now: i64) -> (r: bool)
        ensures
            r == self.spec_should_draw_next(now),
    {
        match self.next_draw_at {
            Some(next_draw) => now >= next_draw,
            None => false,
        }
    }

    /// The moment the next draw falls due for a slot starting at
    /// `slot_start`: halfway through the slot. The half-slot rule is a
    /// fixed design constant, not configurable.
    pub open spec fn spec_next_draw_time(&self, slot_start: i64) -> int {
        slot_start + ((self.slot_duration_minutes as int) / 2) * 60
    }

    /// The moment the next draw falls due for a slot starting at
    /// `slot_start`.
    pub fn calculate_next_draw_time(&self, slot_start: i64) -> (r: i64)
        requires
            self.wf(),
            valid_timestamp(slot_start),
        ensures
            r == self.spec_next_draw_time(slot_start),
            valid_deadline(r),
    {
        let half_duration_secs: i64 = ((self.slot_duration_minutes as i64) / 2) * 60;
        slot_start + half_duration_secs
    }
}

/// The outward shape of the event, with the derived clock readings filled
/// in: elapsed minutes and the current slot's progress.
#[derive(Debug)]
pub struct EventSessionResponse {
    pub id: String,
    pub started_at: i64,
    pub ended_at: Option<i64>,
    pub slot_duration_minutes: i32,
    pub late_arrival_cutoff_hours: i32,
    pub is_active: bool,
    pub current_dj_id: Option<String>,
    pub current_dj_name: Option<String>,
    pub current_slot_started_at: Option<i64>,
    pub next_draw_at: Option<i64>,
    pub elapsed_minutes: i32,
    pub current_slot_progress_percent: Option<u32>,
}

/// One row of the derived timetable: a queued performer together with the
/// most recent session they hold inside the active event.
#[derive(Debug)]
pub struct TimetableEntry {
    pub position: i32,
    pub dj_id: String,
    pub dj_name: String,
    pub started_at: i64,
    pub ended_at: Option<i64>,
    pub duration_minutes: Option<i32>,
    pub status: TimetableEntryStatus,
}

/// Where a timetable row stands: already played, playing now, or still
/// waiting.
#[derive(Clone, Copy, Debug, PartialEq, Eq, Structural)]
pub enum TimetableEntryStatus {
    Completed,
    InProgress,
    Upcoming,
}

/// The derived timetable of the active event: one entry per queued
/// performer, in queue order. A projection, never stored.
#[derive(Debug)]
pub struct Timetable {
    pub event_id: String,
    pub event_started_at: i64,
    pub entries: Vec<TimetableEntry>,
    pub total_djs: usize,
    pub completed_sets: usize,
}

} // verus!
