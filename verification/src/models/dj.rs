//! Performers ("DJs"): the registered candidates of the lottery, each with
//! an optional position in the upcoming queue.

use vstd::prelude::*;

use crate::external::fresh_id;
use crate::{valid_timestamp, MAX_WEIGHT_MICROS, WEIGHT_SCALE};

verus! {

/// The view of an optional string: `None`, or the character sequence.
pub open spec fn opt_string_view(o: Option<String>) -> Option<Seq<char>> {
    match o {
        Some(s) => Some(s@),
        None => None,
    }
}

/// A registered performer. `weight` is the base lottery weight in
/// micro-units (`WEIGHT_SCALE` micro-units equal a real weight of 1.0);
/// `registered_at` is a unix-second timestamp; `position_in_queue` is the
/// candidate's place in the upcoming queue, or `None` while undrawn.
#[derive(Debug)]
pub struct Dj {
    pub id: String,
    pub name: String,
    pub email: Option<String>,
    pub registered_at: i64,
    pub weight: u64,
    pub is_active: bool,
    pub position_in_queue: Option<i32>,
}

impl Dj {
    /// Well-formedness of a single performer: a positive, bounded weight,
    /// an in-range registration time, and - the model's hard invariant -
    /// a candidate holding a queue position is active, and positions start
    /// at 1.
    pub open spec fn wf(&self) -> bool {
        &&& 1 <= self.weight <= MAX_WEIGHT_MICROS
        &&& valid_timestamp(self.registered_at)
        &&& self.position_in_queue is Some ==> self.is_active
        &&& self.position_in_queue is Some ==> self.position_in_queue->0 >= 1
    }

    /// A fresh registration: random identifier, default weight 1.0, active,
    /// not yet queued.
    pub fn new(name: String, email: Option<String>, now: i64) -> (r: Dj)
        requires
            valid_timestamp(now),
        ensures
            r.id@.len() == 36,
            r.name == name,
            opt_string_view(r.email) == opt_string_view(email),
            r.registered_at == now,
            r.weight == WEIGHT_SCALE,
            r.is_active,
            r.position_in_queue is None,
            r.wf(),
    {
        Dj {
            id: fresh_id(),
            name,
            email,
            registered_at: now,
            weight: WEIGHT_SCALE,
            is_active: true,
            position_in_queue: None,
        }
    }
}

impl Clone for Dj {
    fn clone(&self) -> (r: Dj)
        ensures
            r == *self,
    {
        Dj {
            id: self.id.clone(),
            name: self.name.clone(),
            email: match &self.email {
                Some(e) => Some(e.clone()),
                None => None,
            },
            registered_at: self.registered_at,
            weight: self.weight,
            is_active: self.is_active,
            position_in_queue: self.position_in_queue,
        }
    }
}

/// A registration request: the only data a new performer supplies.
#[derive(Debug)]
pub struct CreateDjRequest {
    pub name: String,
    pub email: Option<String>,
}

/// A partial update to a performer; `None` fields are left untouched.
/// `weight` is in micro-units.
#[derive(Debug)]
pub struct UpdateDjRequest {
    pub name: Option<String>,
    pub email: Option<String>,
    pub weight: Option<u64>,
    pub is_active: Option<bool>,
    pub position_in_queue: Option<i32>,
}

/// The outward shape of a performer, as handed to presentation callers.
/// `estimated_time` is a unix-second estimate of the performer's slot,
/// filled in only where a caller computes it from the current queue.
#[derive(Debug)]
pub struct DjResponse {
    pub id: String,
    pub name: String,
    pub email: Option<String>,
    pub registered_at: i64,
    pub weight: u64,
    pub is_active: bool,
    pub position_in_queue: Option<i32>,
    pub estimated_time: Option<i64>,
}

/// The response a performer maps to: every stored field carried over,
/// `estimated_time` left empty.
pub open spec fn spec_dj_response(d: Dj) -> DjResponse {
    DjResponse {
        id: d.id,
        name: d.name,
        email: d.email,
        registered_at: d.registered_at,
        weight: d.weight,
        is_active: d.is_active,
        position_in_queue: d.position_in_queue,
        estimated_time: None,
    }
}

/// Field-by-field agreement of a stored performer and a response, with
/// strings compared by their characters.
pub open spec fn resp_matches(d: Dj, r: DjResponse) -> bool {
    &&& r.id@ == d.id@
    &&& r.name@ == d.name@
    &&& opt_string_view(r.email) == opt_string_view(d.email)
    &&& r.registered_at == d.registered_at
    &&& r.weight == d.weight
    &&& r.is_active == d.is_active
    &&& r.position_in_queue == d.position_in_queue
    &&& r.estimated_time is None
}

impl From<Dj> for DjResponse {
    fn from(dj: Dj) -> (r: DjResponse)
        ensures
            r == spec_dj_response(dj),
    {
        DjResponse {
            id: dj.id,
            name: dj.name,
            email: dj.email,
            registered_at: dj.registered_at,
            weight: dj.weight,
            is_active: dj.is_active,
            position_in_queue: dj.position_in_queue,
            estimated_time: None,
        }
    }
}

impl vstd::std_specs::convert::FromSpecImpl<Dj> for DjResponse {
    open spec fn obeys_from_spec() -> bool {
        true
    }

    open spec fn from_spec(dj: Dj) -> DjResponse {
        spec_dj_response(dj)
    }
}

impl Clone for DjResponse {
    fn clone(&self) -> (r: DjResponse)
        ensures
            r == *self,
    {
        DjResponse {
            id: self.id.clone(),
            name: self.name.clone(),
            email: match &self.email {
                Some(e) => Some(e.clone()),
                None => None,
            },
            registered_at: self.registered_at,
            weight: self.weight,
            is_active: self.is_active,
            position_in_queue: self.position_in_queue,
            estimated_time: self.estimated_time,
        }
    }
}

/// The pool summary handed to presentation callers: all active performers,
/// whoever is playing now, whoever is next in the queue, and the active
/// head count.
#[derive(Debug)]
pub struct DjPool {
    pub active_djs: Vec<DjResponse>,
    pub current_dj: Option<DjResponse>,
    pub next_dj: Option<DjResponse>,
    pub total_count: usize,
}

/// A guest's set request aimed at one performer.
#[derive(Debug)]
pub struct GuestRequest {
    pub guest_name: String,
    pub guest_email: String,
    pub message: Option<String>,
    pub target_dj_id: String,
}

impl Clone for GuestRequest {
    fn clone(&self) -> (r: GuestRequest)
        ensures
            r == *self,
    {
        GuestRequest {
            guest_name: self.guest_name.clone(),
            guest_email: self.guest_email.clone(),
            message: match &self.message {
                Some(m) => Some(m.clone()),
                None => None,
            },
            target_dj_id: self.target_dj_id.clone(),
        }
    }
}

/// Where a stored guest request stands.
#[derive(Clone, Copy, Debug, PartialEq, Eq, Structural)]
pub enum GuestRequestStatus {
    Pending,
    Approved,
    Rejected,
}

/// A guest request as the store keeps it: the request, its identifier and
/// its review status.
#[derive(Debug)]
pub struct GuestRequestRecord {
    pub id: String,
    pub request: GuestRequest,
    pub status: GuestRequestStatus,
}

} // verus!
