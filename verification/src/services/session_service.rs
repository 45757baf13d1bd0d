//! Performer sessions: starting and ending sets, reading the history,
//! aggregate statistics, and the bookkeeping that ties a set to its
//! recorded files.

use vstd::prelude::*;

use crate::errors::DjSystemError;
use crate::models::dj::opt_string_view;
use crate::models::session::{
    session_resp_matches, B2BSessionRequest, Session, SessionResponse, SessionStats, SessionType,
    SessionUploadStatus, StartSessionRequest,
};
use crate::models::event_session::EventSession;
use crate::services::event_service::EventService;
use crate::services::store::{first_dj_match, has_active_event, no_dj_match, Store};
use crate::utils::digits::{push_decimal, spec_decimal};
use crate::utils::strings::str_eq;
use crate::valid_timestamp;
use vstd::string::StringExecFns;

verus! {

/// Whether `m` is the first stored session carrying `id`.
pub open spec fn first_session_match(sessions: Seq<Session>, id: Seq<char>, m: int) -> bool {
    &&& 0 <= m < sessions.len()
    &&& sessions[m].id@ == id
    &&& forall|j: int| 0 <= j < m ==> (#[trigger] sessions[j]).id@ != id
}

/// No stored session carries `id`.
pub open spec fn no_session_match(sessions: Seq<Session>, id: Seq<char>) -> bool {
    forall|j: int| 0 <= j < sessions.len() ==> (#[trigger] sessions[j]).id@ != id
}

/// Whether the performer holds a still-open session.
pub open spec fn dj_has_open_session(sessions: Seq<Session>, dj_id: Seq<char>) -> bool {
    exists|j: int|
        0 <= j < sessions.len() && (#[trigger] sessions[j]).dj_id@ == dj_id
            && sessions[j].ended_at is None
}

/// The name joined into a session response: the performer's display name,
/// or the fallback text for an unknown identifier.
pub open spec fn joined_name_matches(
    djs: Seq<crate::models::dj::Dj>,
    dj_id: Seq<char>,
    name: Seq<char>,
) -> bool {
    &&& (no_dj_match(djs, dj_id) ==> name == "Unknown DJ"@)
    &&& forall|k: int| #[trigger] first_dj_match(djs, dj_id, k) ==> name == djs[k].name@
}

/// The first stored session carrying `id`, if any.
pub fn find_session_index(sessions: &Vec<Session>, id: &str) -> (r: Option<usize>)
    ensures
        r is Some ==> first_session_match(sessions@, id@, r->0 as int),
        r is None ==> no_session_match(sessions@, id@),
{
    let n: usize = sessions.len();
    let mut i: usize = 0;
    while i < n
        invariant
            n == sessions@.len(),
            0 <= i <= n,
            forall|j: int| 0 <= j < i ==> (#[trigger] sessions@[j]).id@ != id@,
        decreases n - i,
    {
        if str_eq(sessions[i].id.as_str(), id) {
            return Some(i);
        }
        i = i + 1;
    }
    None
}

/// Performer sessions over the repository.
pub struct SessionService {}

impl SessionService {
    /// A session-service handle.
    pub fn new() -> (r: SessionService) {
        SessionService {}
    }

    /// The performer's display name, or "Unknown DJ".
    pub fn get_dj_name(&self, store: &Store, dj_id: &str) -> (r: String)
        ensures
            joined_name_matches(store.djs@, dj_id@, r@),
    {
        match crate::services::store::find_dj_index(&store.djs, dj_id) {
            Some(k) => store.djs[k].name.clone(),
            None => "Unknown DJ".to_owned(),
        }
    }

    /// The response for one stored session, with the performer's name
    /// joined in.
    fn response_for(&self, store: &Store, session: &Session) -> (r: SessionResponse)
        ensures
            session_resp_matches(*session, r),
            joined_name_matches(store.djs@, session.dj_id@, r.dj_name@),
    {
        let dj_name: String = self.get_dj_name(store, session.dj_id.as_str());
        SessionResponse {
            id: session.id.clone(),
            dj_id: session.dj_id.clone(),
            dj_name,
            started_at: session.started_at,
            ended_at: session.ended_at,
            duration_minutes: session.duration_minutes,
            download_link: match &session.download_link {
                Some(l) => Some(l.clone()),
                None => None,
            },
            upload_status: session.upload_status,
            session_type: session.session_type,
        }
    }

    /// Starts a set for one performer: rejected while they already hold
    /// an open session; otherwise the set is appended recording, and the
    /// event clock begins the performer's slot - occupant, slot start and
    /// the half-slot draw deadline (a no-op without an active event,
    /// mirroring the coordinator's tolerance there).
    pub fn start_session(
        &self,
        store: &mut Store,
        events: &EventService,
        request: StartSessionRequest,
        now: i64,
    ) -> (r: Result<SessionResponse, DjSystemError>)
        requires
            old(store).wf(),
            valid_timestamp(now),
            forall|i: int|
                0 <= i < old(store).events@.len() ==> -0x8000_0000 <= (
                #[trigger] old(store).events@[i]).spec_elapsed_minutes(now) < 0x8000_0000,
        ensures
            final(store).wf(),
            final(store).djs@ == old(store).djs@,
            final(store).draws@ == old(store).draws@,
            final(store).guest_requests@ == old(store).guest_requests@,
            dj_has_open_session(old(store).sessions@, request.dj_id@) ==> r is Err && r->Err_0
                == DjSystemError::DjAlreadyInSession && final(store).sessions@ == old(
                store,
            ).sessions@ && final(store).events@ == old(store).events@,
            !dj_has_open_session(old(store).sessions@, request.dj_id@) ==> {
                &&& r is Ok
                &&& final(store).sessions@.len() == old(store).sessions@.len() + 1
                &&& final(store).sessions@.take(old(store).sessions@.len() as int) == old(
                    store,
                ).sessions@
                &&& final(store).sessions@.last().dj_id@ == request.dj_id@
                &&& final(store).sessions@.last().started_at == now
                &&& final(store).sessions@.last().ended_at is None
                &&& final(store).sessions@.last().upload_status == SessionUploadStatus::Recording
                &&& final(store).sessions@.last().session_type == (
                if request.session_type is Some {
                    request.session_type->0
                } else {
                    SessionType::Solo
                })
                &&& session_resp_matches(final(store).sessions@.last(), r->Ok_0)
                &&& joined_name_matches(old(store).djs@, request.dj_id@, r->Ok_0.dj_name@)
                &&& !has_active_event(old(store).events@) ==> final(store).events@ == old(
                    store,
                ).events@
                &&& forall|i: int|
                    0 <= i < old(store).events@.len() && (#[trigger] old(
                        store,
                    ).events@[i]).spec_is_active() ==> final(store).events@ == old(
                        store,
                    ).events@.update(
                        i,
                        (EventSession {
                            current_dj_id: Some(request.dj_id),
                            current_slot_started_at: Some(now),
                            next_draw_at: Some(
                                (old(store).events@[i].spec_next_draw_time(now)) as i64,
                            ),
                            ..old(store).events@[i]
                        }),
                    )
            },
    {
        let mut open_exists: bool = false;
        let n: usize = store.sessions.len();
        let mut i: usize = 0;
        while i < n
            invariant
                n == store.sessions@.len(),
                0 <= i <= n,
                open_exists <==> exists|j: int|
                    0 <= j < i && (#[trigger] store.sessions@[j]).dj_id@ == request.dj_id@
                        && store.sessions@[j].ended_at is None,
            decreases n - i,
        {
            if str_eq(store.sessions[i].dj_id.as_str(), request.dj_id.as_str())
                && store.sessions[i].ended_at.is_none() {
                proof {
                    assert(store.sessions@[i as int].dj_id@ == request.dj_id@);
                }
                open_exists = true;
            }
            i = i + 1;
        }
        if open_exists {
            return Err(DjSystemError::DjAlreadyInSession);
        }

        let session_type: SessionType = match request.session_type {
            Some(t) => t,
            None => SessionType::Solo,
        };
        let dj_id_copy: String = request.dj_id.clone();
        let session: Session = Session::new(request.dj_id, session_type, now);
        let response: SessionResponse = self.response_for(store, &session);
        store.sessions.push(session);
        proof {
            assert(store.sessions@.take(old(store).sessions@.len() as int) =~= old(
                store,
            ).sessions@);
        }

        // Begin the performer's slot on the event clock; without an
        // active event this is tolerated, not fatal.
        match events.start_next_dj_slot(store, dj_id_copy, now) {
            Ok(_) => {},
            Err(_) => {},
        }
        Ok(response)
    }

    /// Ends a set: records the end time, the whole-minute duration and,
    /// once the recording is processed, the download link. `Ok(None)`
    /// for an unknown identifier; `SessionAlreadyEnded` if the set
    /// already ended.
    pub fn end_session(&self, store: &mut Store, session_id: &str, now: i64) -> (r: Result<
        Option<SessionResponse>,
        DjSystemError,
    >)
        requires
            old(store).wf(),
            valid_timestamp(now),
            forall|m: int|
                0 <= m < old(store).sessions@.len() ==> -0x8000_0000 <= (
                #[trigger] old(store).sessions@[m]).spec_minutes_since_start(now) < 0x8000_0000,
        ensures
            final(store).wf(),
            final(store).djs@ == old(store).djs@,
            final(store).draws@ == old(store).draws@,
            final(store).events@ == old(store).events@,
            final(store).guest_requests@ == old(store).guest_requests@,
            r is Err ==> final(store).sessions@ == old(store).sessions@,
            no_session_match(old(store).sessions@, session_id@) ==> r is Ok && r->Ok_0 is None
                && final(store).sessions@ == old(store).sessions@,
            forall|m: int|
                #[trigger] first_session_match(old(store).sessions@, session_id@, m) && old(
                    store,
                ).sessions@[m].ended_at is Some ==> r is Err && r->Err_0
                    == DjSystemError::SessionAlreadyEnded,
            forall|m: int|
                #[trigger] first_session_match(old(store).sessions@, session_id@, m) && old(
                    store,
                ).sessions@[m].ended_at is None ==> {
                    &&& r is Ok
                    &&& r->Ok_0 is Some
                    &&& final(store).sessions@ == old(store).sessions@.update(
                        m,
                        (Session {
                            ended_at: Some(now),
                            duration_minutes: Some(
                                (old(store).sessions@[m].spec_minutes_since_start(now)) as i32,
                            ),
                            upload_status: SessionUploadStatus::Uploaded,
                            download_link: Some(final(store).sessions@[m].download_link->0),
                            ..old(store).sessions@[m]
                        }),
                    )
                    &&& final(store).sessions@[m].download_link is Some
                    &&& final(store).sessions@[m].download_link->0@
                        == "https://cloud-storage.example.com/sessions/"@ + old(
                        store,
                    ).sessions@[m].id@ + ".mp3"@
                    &&& session_resp_matches(final(store).sessions@[m], r->Ok_0->0)
                    &&& joined_name_matches(
                        old(store).djs@,
                        old(store).sessions@[m].dj_id@,
                        r->Ok_0->0.dj_name@,
                    )
                },
    {
        let m: usize = match find_session_index(&store.sessions, session_id) {
            None => {
                return Ok(None);
            },
            Some(m) => m,
        };
        if store.sessions[m].ended_at.is_some() {
            return Err(DjSystemError::SessionAlreadyEnded);
        }

        let minutes: i64 = if now >= store.sessions[m].started_at {
            (now - store.sessions[m].started_at) / 60
        } else {
            -((store.sessions[m].started_at - now) / 60)
        };

        // The processed recording's public link.
        let mut link: String = "https://cloud-storage.example.com/sessions/".to_owned();
        link.append(store.sessions[m].id.as_str());
        link.append(".mp3");

        store.sessions[m].ended_at = Some(now);
        store.sessions[m].duration_minutes = Some(minutes as i32);
        store.sessions[m].upload_status = SessionUploadStatus::Uploaded;
        store.sessions[m].download_link = Some(link);

        let response: SessionResponse = self.response_for(store, &store.sessions[m]);
        proof {
            assert(final(store).sessions@ =~= old(store).sessions@.update(
                m as int,
                (Session {
                    ended_at: Some(now),
                    duration_minutes: Some(
                        (old(store).sessions@[m as int].spec_minutes_since_start(now)) as i32,
                    ),
                    upload_status: SessionUploadStatus::Uploaded,
                    download_link: Some(final(store).sessions@[m as int].download_link->0),
                    ..old(store).sessions@[m as int]
                }),
            ));
        }
        Ok(Some(response))
    }

    /// One session by identifier, with the performer's name joined in.
    pub fn get_session_by_id(&self, store: &Store, id: &str) -> (r: Option<SessionResponse>)
        ensures
            r is Some <==> !no_session_match(store.sessions@, id@),
            forall|m: int|
                #[trigger] first_session_match(store.sessions@, id@, m) ==> r is Some
                    && session_resp_matches(store.sessions@[m], r->0) && joined_name_matches(
                    store.djs@,
                    store.sessions@[m].dj_id@,
                    r->0.dj_name@,
                ),
    {
        match find_session_index(&store.sessions, id) {
            Some(m) => {
                proof {
                    assert(!no_session_match(store.sessions@, id@));
                }
                Some(self.response_for(store, &store.sessions[m]))
            },
            None => None,
        }
    }

    /// Every session, newest insertion first, with names joined in.
    pub fn get_all_sessions(&self, store: &Store) -> (r: Vec<SessionResponse>)
        ensures
            r@.len() == store.sessions@.len(),
            forall|i: int|
                0 <= i < r@.len() ==> session_resp_matches(
                    store.sessions@[store.sessions@.len() - 1 - i],
                    #[trigger] r@[i],
                ) && joined_name_matches(
                    store.djs@,
                    store.sessions@[store.sessions@.len() - 1 - i].dj_id@,
                    r@[i].dj_name@,
                ),
    {
        let n: usize = store.sessions.len();
        let mut out: Vec<SessionResponse> = Vec::new();
        let mut i: usize = 0;
        while i < n
            invariant
                n == store.sessions@.len(),
                0 <= i <= n,
                out@.len() == i,
                forall|j: int|
                    0 <= j < i ==> session_resp_matches(
                        store.sessions@[n - 1 - j],
                        #[trigger] out@[j],
                    ) && joined_name_matches(
                        store.djs@,
                        store.sessions@[n - 1 - j].dj_id@,
                        out@[j].dj_name@,
                    ),
            decreases n - i,
        {
            let idx: usize = n - 1 - i;
            out.push(self.response_for(store, &store.sessions[idx]));
            i = i + 1;
        }
        out
    }

    /// The open session that started most recently, if any.
    pub fn get_current_session(&self, store: &Store) -> (r: Option<SessionResponse>)
        ensures
            r is Some <==> crate::services::dj_service::has_open_session(store.sessions@),
            r is Some ==> exists|m: int|
                #![trigger store.sessions@[m]]
                crate::services::dj_service::is_latest_open_session(store.sessions@, m)
                    && session_resp_matches(store.sessions@[m], r->0) && joined_name_matches(
                    store.djs@,
                    store.sessions@[m].dj_id@,
                    r->0.dj_name@,
                ),
    {
        let ns: usize = store.sessions.len();
        let mut best: Option<usize> = None;
        let mut i: usize = 0;
        while i < ns
            invariant
                ns == store.sessions@.len(),
                0 <= i <= ns,
                best is Some ==> best->0 < i && store.sessions@[best->0 as int].ended_at is None,
                best is Some ==> forall|j: int|
                    0 <= j < i && (#[trigger] store.sessions@[j]).ended_at is None
                        ==> store.sessions@[j].started_at
                        <= store.sessions@[best->0 as int].started_at,
                best is None ==> forall|j: int|
                    0 <= j < i ==> (#[trigger] store.sessions@[j]).ended_at is Some,
            decreases ns - i,
        {
            if store.sessions[i].ended_at.is_none() {
                match best {
                    Some(b) => {
                        if store.sessions[i].started_at > store.sessions[b].started_at {
                            best = Some(i);
                        }
                    },
                    None => {
                        best = Some(i);
                    },
                }
            }
            i = i + 1;
        }
        match best {
            Some(m) => {
                proof {
                    assert(crate::services::dj_service::is_latest_open_session(
                        store.sessions@,
                        m as int,
                    ));
                }
                Some(self.response_for(store, &store.sessions[m]))
            },
            None => None,
        }
    }

    /// The download link of an uploaded session, if it exists and its
    /// recording has been uploaded.
    pub fn get_download_link(&self, store: &Store, session_id: &str) -> (r: Option<String>)
        ensures
            forall|m: int|
                #[trigger] first_session_match(store.sessions@, session_id@, m) && store.sessions@[m].upload_status
                    == SessionUploadStatus::Uploaded ==> opt_string_view(r) == opt_string_view(
                    store.sessions@[m].download_link,
                ),
            no_session_match(store.sessions@, session_id@) ==> r is None,
            forall|m: int|
                #[trigger] first_session_match(store.sessions@, session_id@, m) && store.sessions@[m].upload_status
                    != SessionUploadStatus::Uploaded ==> r is None,
    {
        match find_session_index(&store.sessions, session_id) {
            Some(m) => {
                let uploaded: bool = match store.sessions[m].upload_status {
                    SessionUploadStatus::Uploaded => true,
                    _ => false,
                };
                if uploaded {
                    match &store.sessions[m].download_link {
                        Some(l) => Some(l.clone()),
                        None => None,
                    }
                } else {
                    None
                }
            },
            None => None,
        }
    }

    /// A back-to-back set: needs at least two performers; stored under
    /// the first, with the companion count in the display name.
    pub fn create_b2b_session(&self, store: &mut Store, request: B2BSessionRequest, now: i64) -> (r:
        Result<SessionResponse, DjSystemError>)
        requires
            old(store).wf(),
            valid_timestamp(now),
        ensures
            final(store).wf(),
            final(store).djs@ == old(store).djs@,
            final(store).draws@ == old(store).draws@,
            final(store).events@ == old(store).events@,
            final(store).guest_requests@ == old(store).guest_requests@,
            request.dj_ids@.len() < 2 ==> r is Err && r->Err_0 == DjSystemError::B2BRequiresTwoDjs
                && final(store).sessions@ == old(store).sessions@,
            request.dj_ids@.len() >= 2 ==> {
                &&& r is Ok
                &&& final(store).sessions@.len() == old(store).sessions@.len() + 1
                &&& final(store).sessions@.take(old(store).sessions@.len() as int) == old(
                    store,
                ).sessions@
                &&& final(store).sessions@.last().dj_id@ == request.dj_ids@[0]@
                &&& final(store).sessions@.last().started_at == now
                &&& final(store).sessions@.last().session_type == SessionType::B2B
                &&& session_resp_matches(final(store).sessions@.last(), r->Ok_0)
                &&& (no_dj_match(old(store).djs@, request.dj_ids@[0]@) ==> r->Ok_0.dj_name@
                    == "Unknown DJ"@ + " + "@ + spec_decimal(request.dj_ids@.len() - 1)
                    + " others"@)
                &&& forall|k: int|
                    #[trigger] first_dj_match(old(store).djs@, request.dj_ids@[0]@, k)
                        ==> r->Ok_0.dj_name@ == old(store).djs@[k].name@ + " + "@ + spec_decimal(
                        request.dj_ids@.len() - 1,
                    ) + " others"@
            },
    {
        if request.dj_ids.len() < 2 {
            return Err(DjSystemError::B2BRequiresTwoDjs);
        }
        let primary: String = request.dj_ids[0].clone();
        let others: usize = request.dj_ids.len() - 1;
        let session: Session = Session::new(primary, SessionType::B2B, now);

        let base_name: String = self.get_dj_name(store, session.dj_id.as_str());
        let ghost base_view = base_name@;
        let mut dj_name: String = base_name;
        dj_name.append(" + ");
        push_decimal(&mut dj_name, others as u64);
        dj_name.append(" others");
        proof {
            assert(dj_name@ =~= base_view + " + "@ + spec_decimal(others as int) + " others"@);
        }

        let response = SessionResponse {
            id: session.id.clone(),
            dj_id: session.dj_id.clone(),
            dj_name,
            started_at: session.started_at,
            ended_at: session.ended_at,
            duration_minutes: session.duration_minutes,
            download_link: None,
            upload_status: session.upload_status,
            session_type: session.session_type,
        };
        store.sessions.push(session);
        proof {
            assert(store.sessions@.take(old(store).sessions@.len() as int) =~= old(
                store,
            ).sessions@);
        }
        Ok(response)
    }

    /// Aggregate session statistics: counts of all and still-open sets,
    /// the mean recorded duration in whole minutes, and the summed
    /// duration in whole hours.
    pub fn get_session_statistics(&self, store: &Store) -> (r: SessionStats)
        requires
            store.sessions@.len() < 0x8000_0000,
        ensures
            r.total_sessions == store.sessions@.len(),
            r.active_sessions == spec_open_count(store.sessions@),
            spec_duration_count(store.sessions@) == 0 ==> r.average_duration_minutes == 0,
            spec_duration_count(store.sessions@) != 0 ==> r.average_duration_minutes
                == spec_trunc_div(
                spec_duration_sum(store.sessions@),
                spec_duration_count(store.sessions@),
            ),
            r.total_duration_hours == spec_trunc_div(spec_duration_sum(store.sessions@), 60),
    {
        let n: usize = store.sessions.len();
        let mut open_count: usize = 0;
        let mut with_duration: i64 = 0;
        let mut duration_sum: i64 = 0;
        let mut i: usize = 0;
        while i < n
            invariant
                n == store.sessions@.len(),
                n < 0x8000_0000,
                0 <= i <= n,
                open_count == spec_open_count(store.sessions@.take(i as int)),
                open_count <= i,
                with_duration == spec_duration_count(store.sessions@.take(i as int)),
                0 <= with_duration <= i,
                duration_sum == spec_duration_sum(store.sessions@.take(i as int)),
                -(i as int) * 0x8000_0000 <= duration_sum <= (i as int) * 0x8000_0000,
            decreases n - i,
        {
            proof {
                assert(store.sessions@.take(i as int + 1).drop_last() =~= store.sessions@.take(
                    i as int,
                ));
                assert(store.sessions@.take(i as int + 1).last() == store.sessions@[i as int]);
                assert((i as int) * 0x8000_0000 + 0x8000_0000 == (i as int + 1) * 0x8000_0000)
                    by (nonlinear_arith);
                assert((i as int + 1) * 0x8000_0000 <= 0x8000_0000int * 0x8000_0000) by (
                nonlinear_arith)
                    requires
                        i as int + 1 <= 0x8000_0000int,
                ;
            }
            if store.sessions[i].ended_at.is_none() {
                open_count = open_count + 1;
            }
            match store.sessions[i].duration_minutes {
                Some(d) => {
                    with_duration = with_duration + 1;
                    duration_sum = duration_sum + (d as i64);
                },
                None => {},
            }
            i = i + 1;
        }
        proof {
            assert(store.sessions@.take(n as int) =~= store.sessions@);
        }
        let average_duration_minutes: i64 = if with_duration == 0 {
            0
        } else if duration_sum >= 0 {
            duration_sum / with_duration
        } else {
            -((-duration_sum) / with_duration)
        };
        let total_duration_hours: i64 = if duration_sum >= 0 {
            duration_sum / 60
        } else {
            -((-duration_sum) / 60)
        };
        SessionStats {
            total_sessions: n,
            active_sessions: open_count,
            average_duration_minutes,
            total_duration_hours,
        }
    }
}

impl SessionService {
    /// Records which recorder session a set was captured by, together
    /// with the recording's file URLs. A no-op for an unknown set, as
    /// the linking is best-effort.
    pub fn link_to_recorder_session(
        &self,
        store: &mut Store,
        session_id: &str,
        recorder_session_id: &str,
        recorder_id: &str,
        files: &crate::services::session_recorder_service::SessionFiles,
    ) -> (r: Result<(), DjSystemError>)
        requires
            old(store).wf(),
        ensures
            final(store).wf(),
            r is Ok,
            final(store).djs@ == old(store).djs@,
            final(store).draws@ == old(store).draws@,
            final(store).events@ == old(store).events@,
            final(store).guest_requests@ == old(store).guest_requests@,
            no_session_match(old(store).sessions@, session_id@) ==> final(store).sessions@ == old(
                store,
            ).sessions@,
            forall|m: int|
                #[trigger] first_session_match(old(store).sessions@, session_id@, m) ==> {
                    &&& final(store).sessions@.len() == old(store).sessions@.len()
                    &&& forall|j: int|
                        0 <= j < old(store).sessions@.len() && j != m
                            ==> final(store).sessions@[j] == #[trigger] old(store).sessions@[j]
                    &&& final(store).sessions@[m].recorder_session_id is Some
                    &&& final(store).sessions@[m].recorder_session_id->0@ == recorder_session_id@
                    &&& final(store).sessions@[m].recorder_id is Some
                    &&& final(store).sessions@[m].recorder_id->0@ == recorder_id@
                    &&& opt_string_view(final(store).sessions@[m].recorder_ogg_url)
                        == opt_string_view(files.ogg_url)
                    &&& opt_string_view(final(store).sessions@[m].recorder_flac_url)
                        == opt_string_view(files.flac_url)
                    &&& opt_string_view(final(store).sessions@[m].recorder_waveform_url)
                        == opt_string_view(files.waveform_url)
                    &&& final(store).sessions@[m] == (Session {
                        recorder_session_id: final(store).sessions@[m].recorder_session_id,
                        recorder_id: final(store).sessions@[m].recorder_id,
                        recorder_ogg_url: final(store).sessions@[m].recorder_ogg_url,
                        recorder_flac_url: final(store).sessions@[m].recorder_flac_url,
                        recorder_waveform_url: final(store).sessions@[m].recorder_waveform_url,
                        ..old(store).sessions@[m]
                    })
                },
    {
        let m: usize = match find_session_index(&store.sessions, session_id) {
            None => {
                return Ok(());
            },
            Some(m) => m,
        };
        store.sessions[m].recorder_session_id = Some(recorder_session_id.to_owned());
        store.sessions[m].recorder_id = Some(recorder_id.to_owned());
        store.sessions[m].recorder_ogg_url = match &files.ogg_url {
            Some(u) => Some(u.clone()),
            None => None,
        };
        store.sessions[m].recorder_flac_url = match &files.flac_url {
            Some(u) => Some(u.clone()),
            None => None,
        };
        store.sessions[m].recorder_waveform_url = match &files.waveform_url {
            Some(u) => Some(u.clone()),
            None => None,
        };
        Ok(())
    }

    /// The object a recording download should be served from: the
    /// linked recorder, its session, and the stored filename the
    /// requested format names. `None` for an unknown set, an unlinked
    /// set, or an unknown format; fetching a time-limited URL for the
    /// object is the object store's business.
    pub fn get_recording_object(&self, store: &Store, session_id: &str, format: &str) -> (r:
        Option<(String, String, String)>)
        ensures
            no_session_match(store.sessions@, session_id@) ==> r is None,
            forall|m: int|
                #[trigger] first_session_match(store.sessions@, session_id@, m) ==> {
                    let s = store.sessions@[m];
                    if s.recorder_id is Some && s.recorder_session_id is Some
                        && crate::services::session_recorder_service::spec_recorder_filename(
                        format@,
                    ) is Some {
                        &&& r is Some
                        &&& (r->0).0@ == s.recorder_id->0@
                        &&& (r->0).1@ == s.recorder_session_id->0@
                        &&& (r->0).2@
                            == crate::services::session_recorder_service::spec_recorder_filename(
                            format@,
                        )->0
                    } else {
                        r is None
                    }
                },
    {
        let m: usize = match find_session_index(&store.sessions, session_id) {
            None => {
                return None;
            },
            Some(m) => m,
        };
        let recorder_id: String = match &store.sessions[m].recorder_id {
            Some(rid) => rid.clone(),
            None => {
                return None;
            },
        };
        let recorder_session_id: String = match &store.sessions[m].recorder_session_id {
            Some(rsid) => rsid.clone(),
            None => {
                return None;
            },
        };
        let filename: String =
            match crate::services::session_recorder_service::recorder_filename_for_format(
            format,
        ) {
            Some(f) => f,
            None => {
                return None;
            },
        };
        Some((recorder_id, recorder_session_id, filename))
    }

    /// One session by identifier, preferring the recorder's OGG URL as
    /// the download link where the set is linked to a recording.
    pub fn get_session_with_recorder_info(&self, store: &Store, session_id: &str) -> (r: Option<
        SessionResponse,
    >)
        ensures
            r is Some <==> !no_session_match(store.sessions@, session_id@),
            forall|m: int|
                #[trigger] first_session_match(store.sessions@, session_id@, m) ==> {
                    let s = store.sessions@[m];
                    &&& r is Some
                    &&& r->0.id@ == s.id@
                    &&& r->0.dj_id@ == s.dj_id@
                    &&& r->0.started_at == s.started_at
                    &&& r->0.ended_at == s.ended_at
                    &&& r->0.duration_minutes == s.duration_minutes
                    &&& r->0.upload_status == s.upload_status
                    &&& r->0.session_type == s.session_type
                    &&& opt_string_view(r->0.download_link) == (
                    if s.recorder_ogg_url is Some {
                        opt_string_view(s.recorder_ogg_url)
                    } else {
                        opt_string_view(s.download_link)
                    })
                    &&& joined_name_matches(store.djs@, s.dj_id@, r->0.dj_name@)
                },
    {
        let m: usize = match find_session_index(&store.sessions, session_id) {
            None => {
                return None;
            },
            Some(m) => m,
        };
        let mut response: SessionResponse = self.response_for(store, &store.sessions[m]);
        match &store.sessions[m].recorder_ogg_url {
            Some(u) => {
                response.download_link = Some(u.clone());
            },
            None => {},
        }
        proof {
            assert(!no_session_match(store.sessions@, session_id@));
        }
        Some(response)
    }
}

/// Signed division truncated toward zero, as the stored integer counters
/// use it.
pub open spec fn spec_trunc_div(a: int, b: int) -> int {
    if a >= 0 {
        a / b
    } else {
        -((-a) / b)
    }
}

/// The number of still-open sessions.
pub open spec fn spec_open_count(sessions: Seq<Session>) -> int
    decreases sessions.len(),
{
    if sessions.len() == 0 {
        0
    } else {
        spec_open_count(sessions.drop_last()) + if sessions.last().ended_at is None {
            1int
        } else {
            0int
        }
    }
}

/// The number of sessions with a recorded duration.
pub open spec fn spec_duration_count(sessions: Seq<Session>) -> int
    decreases sessions.len(),
{
    if sessions.len() == 0 {
        0
    } else {
        spec_duration_count(sessions.drop_last()) + if sessions.last().duration_minutes is Some {
            1int
        } else {
            0int
        }
    }
}

/// The summed recorded durations, in minutes.
pub open spec fn spec_duration_sum(sessions: Seq<Session>) -> int
    decreases sessions.len(),
{
    if sessions.len() == 0 {
        0
    } else {
        spec_duration_sum(sessions.drop_last()) + if sessions.last().duration_minutes is Some {
            sessions.last().duration_minutes->0 as int
        } else {
            0int
        }
    }
}

} // verus!
