//! Pool maintenance: registering performers, reading and updating the
//! roster, and guest set requests.

use vstd::prelude::*;

use crate::errors::DjSystemError;
use crate::external::fresh_id;
use crate::models::dj::{
    opt_string_view, spec_dj_response, CreateDjRequest, Dj, DjPool, DjResponse, GuestRequest,
    GuestRequestRecord, GuestRequestStatus, UpdateDjRequest,
};
use crate::models::session::Session;
use crate::services::lottery_service::spec_active_count;
use crate::services::store::{
    find_dj_index, first_dj_match, no_dj_match, occupied, pos_at, queue_wf, queued, Store,
};
use crate::{valid_timestamp, MAX_POOL, WEIGHT_SCALE};

verus! {

/// The responses of the active performers, in roster (registration)
/// order.
pub open spec fn active_responses(djs: Seq<Dj>) -> Seq<DjResponse> {
    djs.filter(|d: Dj| d.is_active).map_values(|d: Dj| spec_dj_response(d))
}

/// The pending guest requests aimed at one performer, in arrival order.
pub open spec fn pending_requests_for(
    records: Seq<GuestRequestRecord>,
    dj_id: Seq<char>,
) -> Seq<GuestRequest> {
    records.filter(
        |rec: GuestRequestRecord|
            rec.status == GuestRequestStatus::Pending && rec.request.target_dj_id@ == dj_id,
    ).map_values(|rec: GuestRequestRecord| rec.request)
}

/// Whether `k` is the first stored guest request carrying `id`.
pub open spec fn first_request_match(
    records: Seq<GuestRequestRecord>,
    id: Seq<char>,
    k: int,
) -> bool {
    &&& 0 <= k < records.len()
    &&& records[k].id@ == id
    &&& forall|j: int| 0 <= j < k ==> (#[trigger] records[j]).id@ != id
}

/// No stored guest request carries `id`.
pub open spec fn no_request_match(records: Seq<GuestRequestRecord>, id: Seq<char>) -> bool {
    forall|j: int| 0 <= j < records.len() ==> (#[trigger] records[j]).id@ != id
}

/// Pool maintenance over the repository.
pub struct DjService {}

impl DjService {
    /// A pool-maintenance handle.
    pub fn new() -> (r: DjService) {
        DjService {}
    }

    /// Registers a performer: a fresh identifier, default weight 1.0,
    /// active, unqueued, appended to the roster.
    pub fn register_dj(&self, store: &mut Store, request: CreateDjRequest, now: i64) -> (r:
        DjResponse)
        requires
            old(store).wf(),
            valid_timestamp(now),
            old(store).djs@.len() < MAX_POOL,
        ensures
            final(store).wf(),
            final(store).djs@.len() == old(store).djs@.len() + 1,
            final(store).djs@.take(old(store).djs@.len() as int) == old(store).djs@,
            final(store).draws@ == old(store).draws@,
            final(store).events@ == old(store).events@,
            final(store).sessions@ == old(store).sessions@,
            final(store).guest_requests@ == old(store).guest_requests@,
            r == spec_dj_response(final(store).djs@.last()),
            final(store).djs@.last().name@ == request.name@,
            opt_string_view(final(store).djs@.last().email) == opt_string_view(request.email),
            final(store).djs@.last().registered_at == now,
            final(store).djs@.last().weight == WEIGHT_SCALE,
            final(store).djs@.last().is_active,
            final(store).djs@.last().position_in_queue is None,
            r.id@.len() == 36,
    {
        let dj: Dj = Dj::new(request.name, request.email, now);
        let response: DjResponse = DjResponse::from(dj.clone());
        let ghost prior = store.djs@;
        store.djs.push(dj);
        proof {
            assert(store.djs@.take(prior.len() as int) =~= prior);
            let djs = store.djs@;
            assert forall|i: int| queued(djs, i) implies 1 <= pos_at(djs, i) <= djs.len() by {
                assert(queued(prior, i));
            }
            assert forall|i: int, j: int|
                queued(djs, i) && queued(djs, j) && i != j implies pos_at(djs, i) != pos_at(
                djs,
                j,
            ) by {
                assert(queued(prior, i) && queued(prior, j));
            }
            assert forall|i: int|
                queued(djs, i) && pos_at(djs, i) > 1 implies occupied(djs, pos_at(djs, i) - 1) by {
                assert(queued(prior, i));
                assert(occupied(prior, pos_at(prior, i) - 1));
                let w = choose|w: int| queued(prior, w) && pos_at(prior, w) == pos_at(prior, i) - 1;
                assert(queued(djs, w) && pos_at(djs, w) == pos_at(djs, i) - 1);
            }
        }
        response
    }

    /// Every performer on the roster, in roster (registration) order.
    pub fn get_all_djs(&self, store: &Store) -> (r: Vec<DjResponse>)
        ensures
            r@.len() == store.djs@.len(),
            forall|i: int|
                0 <= i < r@.len() ==> (#[trigger] r@[i]) == spec_dj_response(store.djs@[i]),
    {
        let n: usize = store.djs.len();
        let mut out: Vec<DjResponse> = Vec::new();
        let mut i: usize = 0;
        while i < n
            invariant
                n == store.djs@.len(),
                0 <= i <= n,
                out@.len() == i,
                forall|j: int|
                    0 <= j < i ==> (#[trigger] out@[j]) == spec_dj_response(store.djs@[j]),
            decreases n - i,
        {
            out.push(DjResponse::from(store.djs[i].clone()));
            i = i + 1;
        }
        out
    }

    /// The active performers, in roster (registration) order.
    pub fn get_active_djs(&self, store: &Store) -> (r: Vec<DjResponse>)
        ensures
            r@ == active_responses(store.djs@),
    {
        let n: usize = store.djs.len();
        let mut out: Vec<DjResponse> = Vec::new();
        let mut i: usize = 0;
        while i < n
            invariant
                n == store.djs@.len(),
                0 <= i <= n,
                out@ == active_responses(store.djs@.take(i as int)),
            decreases n - i,
        {
            proof {
                reveal(Seq::filter);
                assert(store.djs@.take(i as int + 1).drop_last() =~= store.djs@.take(i as int));
                assert(store.djs@.take(i as int + 1).last() == store.djs@[i as int]);
                if store.djs@[i as int].is_active {
                    let kept = store.djs@.take(i as int + 1).filter(|d: Dj| d.is_active);
                    assert(kept =~= store.djs@.take(i as int).filter(|d: Dj| d.is_active).push(
                        store.djs@[i as int],
                    ));
                    assert(active_responses(store.djs@.take(i as int + 1)) =~= active_responses(
                        store.djs@.take(i as int),
                    ).push(spec_dj_response(store.djs@[i as int])));
                } else {
                    assert(active_responses(store.djs@.take(i as int + 1)) =~= active_responses(
                        store.djs@.take(i as int),
                    ));
                }
            }
            if store.djs[i].is_active {
                out.push(DjResponse::from(store.djs[i].clone()));
            }
            i = i + 1;
        }
        proof {
            assert(store.djs@.take(n as int) =~= store.djs@);
        }
        out
    }

    /// One performer by identifier, or `None` if unknown.
    pub fn get_dj_by_id(&self, store: &Store, id: &str) -> (r: Option<DjResponse>)
        ensures
            r is Some <==> !no_dj_match(store.djs@, id@),
            forall|k: int|
                #[trigger] first_dj_match(store.djs@, id@, k) ==> r == Some(
                    spec_dj_response(store.djs@[k]),
                ),
    {
        match find_dj_index(&store.djs, id) {
            Some(k) => {
                proof {
                    assert(!no_dj_match(store.djs@, id@));
                }
                Some(DjResponse::from(store.djs[k].clone()))
            },
            None => None,
        }
    }

    /// The number of active performers.
    pub fn count_active_djs(&self, store: &Store) -> (r: usize)
        ensures
            r == spec_active_count(store.djs@),
    {
        let n: usize = store.djs.len();
        let mut count: usize = 0;
        let mut i: usize = 0;
        while i < n
            invariant
                n == store.djs@.len(),
                0 <= i <= n,
                count == spec_active_count(store.djs@.take(i as int)),
                count <= i,
            decreases n - i,
        {
            proof {
                assert(store.djs@.take(i as int + 1).drop_last() =~= store.djs@.take(i as int));
                assert(store.djs@.take(i as int + 1).last() == store.djs@[i as int]);
            }
            if store.djs[i].is_active {
                count = count + 1;
            }
            i = i + 1;
        }
        proof {
            assert(store.djs@.take(n as int) =~= store.djs@);
        }
        count
    }

    /// Files a guest's set request for one performer, pending review.
    pub fn submit_guest_request(&self, store: &mut Store, dj_id: String, request: GuestRequest)
        requires
            old(store).wf(),
        ensures
            final(store).wf(),
            final(store).djs@ == old(store).djs@,
            final(store).draws@ == old(store).draws@,
            final(store).events@ == old(store).events@,
            final(store).sessions@ == old(store).sessions@,
            final(store).guest_requests@.len() == old(store).guest_requests@.len() + 1,
            final(store).guest_requests@.take(old(store).guest_requests@.len() as int) == old(
                store,
            ).guest_requests@,
            final(store).guest_requests@.last().status == GuestRequestStatus::Pending,
            final(store).guest_requests@.last().id@.len() == 36,
            final(store).guest_requests@.last().request.guest_name@ == request.guest_name@,
            final(store).guest_requests@.last().request.guest_email@ == request.guest_email@,
            opt_string_view(final(store).guest_requests@.last().request.message)
                == opt_string_view(request.message),
            final(store).guest_requests@.last().request.target_dj_id@ == dj_id@,
    {
        let record = GuestRequestRecord {
            id: fresh_id(),
            request: GuestRequest { target_dj_id: dj_id, ..request },
            status: GuestRequestStatus::Pending,
        };
        store.guest_requests.push(record);
        proof {
            assert(store.guest_requests@.take(old(store).guest_requests@.len() as int) =~= old(
                store,
            ).guest_requests@);
        }
    }

    /// The pending guest requests aimed at one performer, in arrival
    /// order.
    pub fn get_guest_requests(&self, store: &Store, dj_id: &str) -> (r: Vec<GuestRequest>)
        ensures
            r@ == pending_requests_for(store.guest_requests@, dj_id@),
    {
        let n: usize = store.guest_requests.len();
        let mut out: Vec<GuestRequest> = Vec::new();
        let mut i: usize = 0;
        while i < n
            invariant
                n == store.guest_requests@.len(),
                0 <= i <= n,
                out@ == pending_requests_for(store.guest_requests@.take(i as int), dj_id@),
            decreases n - i,
        {
            let ghost records = store.guest_requests@;
            proof {
                reveal(Seq::filter);
                assert(records.take(i as int + 1).drop_last() =~= records.take(i as int));
                assert(records.take(i as int + 1).last() == records[i as int]);
            }
            let rec = &store.guest_requests[i];
            let is_pending: bool = match rec.status {
                GuestRequestStatus::Pending => true,
                _ => false,
            };
            if is_pending && crate::utils::strings::str_eq(rec.request.target_dj_id.as_str(), dj_id) {
                out.push(rec.request.clone());
                proof {
                    assert(pending_requests_for(records.take(i as int + 1), dj_id@)
                        =~= pending_requests_for(records.take(i as int), dj_id@).push(
                        records[i as int].request,
                    ));
                }
            } else {
                proof {
                    assert(pending_requests_for(records.take(i as int + 1), dj_id@)
                        =~= pending_requests_for(records.take(i as int), dj_id@));
                }
            }
            i = i + 1;
        }
        proof {
            assert(store.guest_requests@.take(n as int) =~= store.guest_requests@);
        }
        out
    }

    /// Marks a guest request approved; reports whether it existed.
    pub fn approve_guest_request(&self, store: &mut Store, request_id: &str) -> (r: Result<
        bool,
        DjSystemError,
    >)
        requires
            old(store).wf(),
        ensures
            final(store).wf(),
            r is Ok,
            final(store).djs@ == old(store).djs@,
            final(store).draws@ == old(store).draws@,
            final(store).events@ == old(store).events@,
            final(store).sessions@ == old(store).sessions@,
            no_request_match(old(store).guest_requests@, request_id@) ==> r->Ok_0 == false
                && final(store).guest_requests@ == old(store).guest_requests@,
            forall|k: int|
                #[trigger] first_request_match(old(store).guest_requests@, request_id@, k)
                    ==> r->Ok_0 == true && final(store).guest_requests@ == old(
                    store,
                ).guest_requests@.update(
                    k,
                    (GuestRequestRecord {
                        status: GuestRequestStatus::Approved,
                        ..old(store).guest_requests@[k]
                    }),
                ),
    {
        let r: bool = set_request_status(store, request_id, GuestRequestStatus::Approved);
        Ok(r)
    }

    /// Marks a guest request rejected; reports whether it existed.
    pub fn reject_guest_request(&self, store: &mut Store, request_id: &str) -> (r: Result<
        bool,
        DjSystemError,
    >)
        requires
            old(store).wf(),
        ensures
            final(store).wf(),
            r is Ok,
            final(store).djs@ == old(store).djs@,
            final(store).draws@ == old(store).draws@,
            final(store).events@ == old(store).events@,
            final(store).sessions@ == old(store).sessions@,
            no_request_match(old(store).guest_requests@, request_id@) ==> r->Ok_0 == false
                && final(store).guest_requests@ == old(store).guest_requests@,
            forall|k: int|
                #[trigger] first_request_match(old(store).guest_requests@, request_id@, k)
                    ==> r->Ok_0 == true && final(store).guest_requests@ == old(
                    store,
                ).guest_requests@.update(
                    k,
                    (GuestRequestRecord {
                        status: GuestRequestStatus::Rejected,
                        ..old(store).guest_requests@[k]
                    }),
                ),
    {
        let r: bool = set_request_status(store, request_id, GuestRequestStatus::Rejected);
        Ok(r)
    }
}

/// Whether an update request carries an inadmissible weight: zero, or
/// above the admissible maximum.
pub open spec fn invalid_weight_request(r: UpdateDjRequest) -> bool {
    r.weight is Some && (r.weight->0 == 0 || r.weight->0 > crate::MAX_WEIGHT_MICROS)
}

/// The performer's activity flag once the request is applied.
pub open spec fn will_be_active(d: Dj, r: UpdateDjRequest) -> bool {
    if r.is_active is Some {
        r.is_active->0
    } else {
        d.is_active
    }
}

/// One performer with the request's name, email and weight applied.
pub open spec fn fields_updated(d: Dj, r: UpdateDjRequest) -> Dj {
    Dj {
        name: if r.name is Some {
            r.name->0
        } else {
            d.name
        },
        email: if r.email is Some {
            Some(r.email->0)
        } else {
            d.email
        },
        weight: if r.weight is Some {
            r.weight->0
        } else {
            d.weight
        },
        ..d
    }
}

/// The roster after a validated update of the performer at index `k`:
/// scalar fields first; then, on deactivation, the ledger removal that
/// keeps a queued performer from going inactive in place; then the
/// activity flag; then the requested queue move.
pub open spec fn spec_update_result(djs: Seq<Dj>, k: int, r: UpdateDjRequest) -> Seq<Dj> {
    let s1 = djs.update(k, fields_updated(djs[k], r));
    let s2 = if r.is_active == Some(false) && djs[k].position_in_queue is Some {
        crate::services::lottery_service::remove_shift(s1, k, pos_at(djs, k))
    } else {
        s1
    };
    let s3 = if r.is_active is Some {
        s2.update(k, (Dj { is_active: r.is_active->0, ..s2[k] }))
    } else {
        s2
    };
    if r.position_in_queue is Some {
        crate::services::lottery_service::move_shift(
            s3,
            k,
            pos_at(djs, k),
            r.position_in_queue->0 as int,
        )
    } else {
        s3
    }
}

impl DjService {
    /// Applies a partial update to one performer. Unknown identifiers
    /// yield `Ok(None)`. A zero or oversized weight is rejected with
    /// `InvalidWeight`. A requested queue position demands a performer
    /// who is queued and stays active (`NotQueued` otherwise) and a
    /// position within `[1, N]` (`OutOfRange` otherwise); it is applied
    /// as a ledger move. Deactivating a queued performer first removes
    /// them from the queue, renumbering it, since only active performers
    /// may hold positions. All checks precede all changes.
    #[verifier::rlimit(100)]
    pub fn update_dj(
        &self,
        store: &mut Store,
        lottery: &crate::services::lottery_service::LotteryService,
        id: &str,
        request: UpdateDjRequest,
    ) -> (r: Result<Option<DjResponse>, DjSystemError>)
        requires
            old(store).wf(),
        ensures
            final(store).wf(),
            final(store).draws@ == old(store).draws@,
            final(store).events@ == old(store).events@,
            final(store).sessions@ == old(store).sessions@,
            final(store).guest_requests@ == old(store).guest_requests@,
            no_dj_match(old(store).djs@, id@) ==> r is Ok && r->Ok_0 is None && final(store).djs@
                == old(store).djs@,
            r is Err ==> final(store).djs@ == old(store).djs@,
            forall|k: int|
                #[trigger] first_dj_match(old(store).djs@, id@, k) && invalid_weight_request(
                    request,
                ) ==> r is Err && r->Err_0 == DjSystemError::InvalidWeight,
            forall|k: int|
                #[trigger] first_dj_match(old(store).djs@, id@, k) && !invalid_weight_request(
                    request,
                ) && request.position_in_queue is Some && !(old(
                    store,
                ).djs@[k].position_in_queue is Some && will_be_active(old(store).djs@[k], request))
                    ==> r is Err && r->Err_0 == DjSystemError::NotQueued,
            forall|k: int|
                #[trigger] first_dj_match(old(store).djs@, id@, k) && !invalid_weight_request(
                    request,
                ) && request.position_in_queue is Some && old(
                    store,
                ).djs@[k].position_in_queue is Some && will_be_active(old(store).djs@[k], request)
                    && !(1 <= request.position_in_queue->0 <= crate::services::store::spec_max_pos(
                    old(store).djs@,
                )) ==> r is Err && r->Err_0 == DjSystemError::OutOfRange,
            forall|k: int|
                #[trigger] first_dj_match(old(store).djs@, id@, k) && !invalid_weight_request(
                    request,
                ) && (request.position_in_queue is None || (old(
                    store,
                ).djs@[k].position_in_queue is Some && will_be_active(old(store).djs@[k], request)
                    && 1 <= request.position_in_queue->0
                    <= crate::services::store::spec_max_pos(old(store).djs@))) ==> r is Ok
                    && final(store).djs@ == spec_update_result(old(store).djs@, k, request)
                    && r->Ok_0 == Some(
                    spec_dj_response(spec_update_result(old(store).djs@, k, request)[k]),
                ),
    {
        let k: usize = match find_dj_index(&store.djs, id) {
            None => {
                return Ok(None);
            },
            Some(k) => k,
        };
        if let Some(w) = request.weight {
            if w == 0 || w > crate::MAX_WEIGHT_MICROS {
                return Err(DjSystemError::InvalidWeight);
            }
        }
        let was_queued: bool = store.djs[k].position_in_queue.is_some();
        let stays_active: bool = match request.is_active {
            Some(b) => b,
            None => store.djs[k].is_active,
        };
        if let Some(p) = request.position_in_queue {
            if !was_queued || !stays_active {
                return Err(DjSystemError::NotQueued);
            }
            let max: i32 = crate::services::store::max_queue_position(&store.djs);
            if p < 1 || p > max {
                return Err(DjSystemError::OutOfRange);
            }
        }

        let ghost orig = store.djs@;
        let ghost korig = k as int;
        let ghost cur_pos = pos_at(orig, korig);
        let ghost greq = request;

        let deactivating: bool = match request.is_active {
            Some(false) => true,
            _ => false,
        };
        let activating: bool = match request.is_active {
            Some(true) => true,
            _ => false,
        };
        if let Some(name) = request.name {
            store.djs[k].name = name;
        }
        if let Some(email) = request.email {
            store.djs[k].email = Some(email);
        }
        if let Some(w) = request.weight {
            store.djs[k].weight = w;
        }
        proof {
            let s1 = orig.update(korig, fields_updated(orig[korig], greq));
            assert(store.djs@ =~= s1);
            assert forall|j: int| 0 <= j < s1.len() implies (#[trigger] s1[j]).wf() by {
                assert(orig[j].wf());
            }
            assert forall|i: int| queued(s1, i) implies queued(orig, i) && pos_at(s1, i) == pos_at(
                orig,
                i,
            ) by {}
            assert forall|i: int|
                queued(orig, i) implies queued(s1, i) && pos_at(s1, i) == pos_at(orig, i) by {}
            assert forall|i: int|
                queued(s1, i) && pos_at(s1, i) > 1 implies occupied(s1, pos_at(s1, i) - 1) by {
                assert(occupied(orig, pos_at(orig, i) - 1));
                let w = choose|w: int| queued(orig, w) && pos_at(orig, w) == pos_at(orig, i) - 1;
                assert(queued(s1, w) && pos_at(s1, w) == pos_at(s1, i) - 1);
            }
            assert(queue_wf(s1));
            assert(first_dj_match(s1, id@, korig));
        }
        if deactivating {
            if was_queued {
                match lottery.remove_from_queue(store, id) {
                    Ok(()) => {},
                    Err(_) => {},
                }
                proof {
                    let s1 = orig.update(korig, fields_updated(orig[korig], greq));
                    assert forall|kk: int| first_dj_match(s1, id@, kk) implies kk == korig by {}
                }
            }
            store.djs[k].is_active = false;
        } else if activating {
            store.djs[k].is_active = true;
        }
        proof {
            let s1 = orig.update(korig, fields_updated(orig[korig], greq));
            let s2 = if greq.is_active == Some(false) && orig[korig].position_in_queue is Some {
                crate::services::lottery_service::remove_shift(s1, korig, cur_pos)
            } else {
                s1
            };
            let s3 = if greq.is_active is Some {
                s2.update(korig, (Dj { is_active: greq.is_active->0, ..s2[korig] }))
            } else {
                s2
            };
            assert(store.djs@ =~= s3);
            assert forall|j: int| 0 <= j < s3.len() implies (#[trigger] s3[j]).wf() by {
                assert(s2[j].wf());
            }
            assert forall|i: int| queued(s3, i) implies queued(s2, i) && pos_at(s3, i) == pos_at(
                s2,
                i,
            ) by {}
            assert forall|i: int|
                queued(s2, i) implies queued(s3, i) && pos_at(s3, i) == pos_at(s2, i) by {}
            assert forall|i: int|
                queued(s3, i) && pos_at(s3, i) > 1 implies occupied(s3, pos_at(s3, i) - 1) by {
                assert(occupied(s2, pos_at(s2, i) - 1));
                let w = choose|w: int| queued(s2, w) && pos_at(s2, w) == pos_at(s2, i) - 1;
                assert(queued(s3, w) && pos_at(s3, w) == pos_at(s3, i) - 1);
            }
            assert(queue_wf(s3));
        }
        if let Some(p) = request.position_in_queue {
            proof {
                let s1 = orig.update(korig, fields_updated(orig[korig], greq));
                let s3 = if greq.is_active is Some {
                    s1.update(korig, (Dj { is_active: greq.is_active->0, ..s1[korig] }))
                } else {
                    s1
                };
                assert(store.djs@ == s3);
                assert(first_dj_match(s3, id@, korig));
                assert(s3[korig].position_in_queue == orig[korig].position_in_queue);
                assert(forall|i: int|
                    0 <= i < s3.len() ==> (#[trigger] s3[i]).position_in_queue
                        == orig[i].position_in_queue);
                crate::services::lottery_service::lemma_max_pos_same(s3, orig);
                assert forall|kk: int| first_dj_match(s3, id@, kk) implies kk == korig by {}
            }
            match lottery.move_dj_position(store, id, p) {
                Ok(()) => {},
                Err(_) => {
                    proof {
                        assert(false);
                    }
                    return Err(DjSystemError::OutOfRange);
                },
            }
        }
        let resp: DjResponse = DjResponse::from(store.djs[k].clone());
        proof {
            assert(store.djs@ =~= spec_update_result(orig, korig, greq));
        }
        Ok(Some(resp))
    }

    /// Deletes a performer from the roster; reports whether they existed.
    /// A queued performer is first removed from the queue, renumbering
    /// it, so the ledger stays dense.
    pub fn remove_dj(
        &self,
        store: &mut Store,
        lottery: &crate::services::lottery_service::LotteryService,
        id: &str,
    ) -> (r: Result<bool, DjSystemError>)
        requires
            old(store).wf(),
        ensures
            final(store).wf(),
            r is Ok,
            final(store).draws@ == old(store).draws@,
            final(store).events@ == old(store).events@,
            final(store).sessions@ == old(store).sessions@,
            final(store).guest_requests@ == old(store).guest_requests@,
            no_dj_match(old(store).djs@, id@) ==> r->Ok_0 == false && final(store).djs@ == old(
                store,
            ).djs@,
            forall|k: int|
                #[trigger] first_dj_match(old(store).djs@, id@, k) ==> r->Ok_0 == true
                    && final(store).djs@ == (if old(store).djs@[k].position_in_queue is Some {
                    crate::services::lottery_service::remove_shift(
                        old(store).djs@,
                        k,
                        pos_at(old(store).djs@, k),
                    )
                } else {
                    old(store).djs@
                }).remove(k),
    {
        let k: usize = match find_dj_index(&store.djs, id) {
            None => {
                return Ok(false);
            },
            Some(k) => k,
        };
        let ghost orig = store.djs@;
        let ghost korig = k as int;
        if store.djs[k].position_in_queue.is_some() {
            match lottery.remove_from_queue(store, id) {
                Ok(()) => {},
                Err(_) => {},
            }
            proof {
                assert forall|kk: int| first_dj_match(orig, id@, kk) implies kk == korig by {}
            }
        }
        proof {
            let stage = store.djs@;
            assert(stage[korig].position_in_queue is None);
            crate::services::lottery_service::lemma_remove_unqueued_entry(stage, korig);
            assert forall|j: int|
                0 <= j < stage.remove(korig).len() implies (
            #[trigger] stage.remove(korig)[j]).wf() by {
                if j < korig {
                    assert(stage.remove(korig)[j] == stage[j]);
                } else {
                    assert(stage.remove(korig)[j] == stage[j + 1]);
                }
            }
        }
        store.djs.remove(k);
        Ok(true)
    }
}

/// Whether index `m` names the most recent still-open session.
pub open spec fn is_latest_open_session(sessions: Seq<Session>, m: int) -> bool {
    &&& 0 <= m < sessions.len()
    &&& sessions[m].ended_at is None
    &&& forall|j: int|
        0 <= j < sessions.len() && (#[trigger] sessions[j]).ended_at is None
            ==> sessions[j].started_at <= sessions[m].started_at
}

/// Whether any session is still open.
pub open spec fn has_open_session(sessions: Seq<Session>) -> bool {
    exists|j: int| 0 <= j < sessions.len() && (#[trigger] sessions[j]).ended_at is None
}

impl DjService {
    /// The pool summary: every active performer, whoever holds the open
    /// session that started most recently (the one on stage), whoever
    /// holds queue position 1, and the active head count.
    pub fn get_dj_pool(&self, store: &Store) -> (r: DjPool)
        requires
            store.wf(),
        ensures
            r.active_djs@ == active_responses(store.djs@),
            r.total_count == spec_active_count(store.djs@),
            r.next_dj is Some <==> occupied(store.djs@, 1),
            r.next_dj is Some ==> crate::services::lottery_service::resp_at_pos(
                store.djs@,
                r.next_dj->0,
                1,
            ),
            !has_open_session(store.sessions@) ==> r.current_dj is None,
            has_open_session(store.sessions@) ==> exists|m: int|
                #![trigger store.sessions@[m]]
                {
                    &&& is_latest_open_session(store.sessions@, m)
                    &&& (no_dj_match(store.djs@, store.sessions@[m].dj_id@)
                        ==> r.current_dj is None)
                    &&& forall|k: int|
                        #[trigger] first_dj_match(store.djs@, store.sessions@[m].dj_id@, k)
                            ==> r.current_dj == Some(spec_dj_response(store.djs@[k]))
                },
    {
        let active_djs: Vec<DjResponse> = self.get_active_djs(store);
        let total_count: usize = self.count_active_djs(store);

        let ns: usize = store.sessions.len();
        let mut best: Option<usize> = None;
        let mut i: usize = 0;
        while i < ns
            invariant
                ns == store.sessions@.len(),
                0 <= i <= ns,
                best is Some ==> best->0 < i && store.sessions@[best->0 as int].ended_at is None,
                best is Some ==> forall|j: int|
                    0 <= j < i && (#[trigger] store.sessions@[j]).ended_at is None
                        ==> store.sessions@[j].started_at
                        <= store.sessions@[best->0 as int].started_at,
                best is None ==> forall|j: int|
                    0 <= j < i ==> (#[trigger] store.sessions@[j]).ended_at is Some,
            decreases ns - i,
        {
            if store.sessions[i].ended_at.is_none() {
                match best {
                    Some(b) => {
                        if store.sessions[i].started_at > store.sessions[b].started_at {
                            best = Some(i);
                        }
                    },
                    None => {
                        best = Some(i);
                    },
                }
            }
            i = i + 1;
        }
        let current_dj: Option<DjResponse> = match best {
            Some(m) => {
                proof {
                    assert(is_latest_open_session(store.sessions@, m as int));
                }
                self.get_dj_by_id(store, store.sessions[m].dj_id.as_str())
            },
            None => None,
        };

        let next_dj: Option<DjResponse> = match crate::services::store::find_by_position(
            &store.djs,
            1,
        ) {
            Some(di) => {
                let resp: DjResponse = DjResponse::from(store.djs[di].clone());
                proof {
                    assert(crate::services::lottery_service::resp_at_pos(store.djs@, resp, 1));
                }
                Some(resp)
            },
            None => None,
        };

        DjPool { active_djs, current_dj, next_dj, total_count }
    }
}

/// Sets the review status of the first guest request carrying the
/// identifier; reports whether one existed.
fn set_request_status(store: &mut Store, request_id: &str, status: GuestRequestStatus) -> (r: bool)
    requires
        old(store).wf(),
    ensures
        final(store).wf(),
        final(store).djs@ == old(store).djs@,
        final(store).draws@ == old(store).draws@,
        final(store).events@ == old(store).events@,
        final(store).sessions@ == old(store).sessions@,
        no_request_match(old(store).guest_requests@, request_id@) ==> r == false
            && final(store).guest_requests@ == old(store).guest_requests@,
        forall|k: int|
            #[trigger] first_request_match(old(store).guest_requests@, request_id@, k) ==> r == true
                && final(store).guest_requests@ == old(store).guest_requests@.update(
                k,
                (GuestRequestRecord { status, ..old(store).guest_requests@[k] }),
            ),
{
    let n: usize = store.guest_requests.len();
    let mut i: usize = 0;
    while i < n
        invariant
            old(store).wf(),
            n == store.guest_requests@.len(),
            0 <= i <= n,
            *store == *old(store),
            forall|j: int| 0 <= j < i ==> (#[trigger] store.guest_requests@[j]).id@ != request_id@,
        decreases n - i,
    {
        if crate::utils::strings::str_eq(store.guest_requests[i].id.as_str(), request_id) {
            proof {
                assert(first_request_match(old(store).guest_requests@, request_id@, i as int));
            }
            store.guest_requests[i].status = status;
            proof {
                assert forall|k: int|
                    first_request_match(old(store).guest_requests@, request_id@, k) implies k
                    == i as int by {}
            }
            return true;
        }
        i = i + 1;
    }
    false
}

} // verus!
