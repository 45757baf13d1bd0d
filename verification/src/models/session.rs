//! One performer's recorded set within the event, from slot start to slot
//! end, with the upload bookkeeping the recorder integration fills in.

use vstd::prelude::*;

use crate::external::fresh_id;
use crate::errors::DjSystemError;
use crate::models::dj::opt_string_view;
use crate::valid_timestamp;

verus! {

/// Where a session's recording stands in the upload pipeline.
#[derive(Clone, Copy, Debug, PartialEq, Eq, Structural)]
pub enum SessionUploadStatus {
    Recording,
    Processing,
    Uploaded,
    Failed,
}

/// What kind of set a session is.
#[derive(Clone, Copy, Debug, PartialEq, Eq, Structural)]
pub enum SessionType {
    Solo,
    B2B,
    Special,
}

/// A request to start a set for one performer.
#[derive(Debug)]
pub struct StartSessionRequest {
    pub dj_id: String,
    pub session_type: Option<SessionType>,
}

/// A request to end a running set.
#[derive(Debug)]
pub struct EndSessionRequest {
    pub session_id: String,
}

/// A request for a back-to-back set of several performers.
#[derive(Debug)]
pub struct B2BSessionRequest {
    pub dj_ids: Vec<String>,
    pub duration_minutes: Option<i32>,
}

/// One performer's set. Times are unix seconds; `duration_minutes` is
/// filled in when the set ends.
#[derive(Debug)]
pub struct Session {
    pub id: String,
    pub dj_id: String,
    pub started_at: i64,
    pub ended_at: Option<i64>,
    pub duration_minutes: Option<i32>,
    pub file_path: Option<String>,
    pub download_link: Option<String>,
    pub upload_status: SessionUploadStatus,
    pub session_type: SessionType,
    pub recorder_session_id: Option<String>,
    pub recorder_id: Option<String>,
    pub recorder_ogg_url: Option<String>,
    pub recorder_flac_url: Option<String>,
    pub recorder_waveform_url: Option<String>,
}

impl Session {
    /// Well-formedness: in-range times.
    pub open spec fn wf(&self) -> bool {
        &&& valid_timestamp(self.started_at)
        &&& (self.ended_at is Some ==> valid_timestamp(self.ended_at->0))
    }

    /// A fresh, running set: random identifier, started now, recording.
    pub fn new(dj_id: String, session_type: SessionType, now: i64) -> (r: Session)
        requires
            valid_timestamp(now),
        ensures
            r.id@.len() == 36,
            r.dj_id == dj_id,
            r.started_at == now,
            r.ended_at is None,
            r.duration_minutes is None,
            r.file_path is None,
            r.download_link is None,
            r.upload_status == SessionUploadStatus::Recording,
            r.session_type == session_type,
            r.recorder_session_id is None,
            r.recorder_id is None,
            r.recorder_ogg_url is None,
            r.recorder_flac_url is None,
            r.recorder_waveform_url is None,
            r.wf(),
    {
        Session {
            id: fresh_id(),
            dj_id,
            started_at: now,
            ended_at: None,
            duration_minutes: None,
            file_path: None,
            download_link: None,
            upload_status: SessionUploadStatus::Recording,
            session_type,
            recorder_session_id: None,
            recorder_id: None,
            recorder_ogg_url: None,
            recorder_flac_url: None,
            recorder_waveform_url: None,
        }
    }

    /// Minutes from the set's start to `now`, truncated toward zero.
    pub open spec fn spec_minutes_since_start(&self, now: i64) -> int {
        if now >= self.started_at {
            (now - self.started_at) / 60
        } else {
            -((self.started_at - now) / 60)
        }
    }

    /// Ends the set: records the end time and the whole-minute duration,
    /// and marks the recording as processing. Fails, changing nothing, if
    /// the set has already ended.
    pub fn end_session(&mut self, now: i64) -> (r: Result<(), DjSystemError>)
        requires
            old(self).wf(),
            valid_timestamp(now),
            -0x8000_0000 <= old(self).spec_minutes_since_start(now) < 0x8000_0000,
        ensures
            r is Err <==> old(self).ended_at is Some,
            r is Err ==> r->Err_0 == DjSystemError::SessionAlreadyEnded && *final(self) == *old(
                self,
            ),
            r is Ok ==> *final(self) == (Session {
                ended_at: Some(now),
                duration_minutes: Some((old(self).spec_minutes_since_start(now)) as i32),
                upload_status: SessionUploadStatus::Processing,
                ..*old(self)
            }),
            final(self).wf(),
    {
        if self.ended_at.is_some() {
            return Err(DjSystemError::SessionAlreadyEnded);
        }
        let minutes: i64 = if now >= self.started_at {
            (now - self.started_at) / 60
        } else {
            -((self.started_at - now) / 60)
        };
        self.ended_at = Some(now);
        self.duration_minutes = Some(minutes as i32);
        self.upload_status = SessionUploadStatus::Processing;
        Ok(())
    }

    /// Whether the set is still running.
    pub open spec fn spec_is_active(&self) -> bool {
        self.ended_at is None
    }

    /// Whether the set is still running.
    pub fn is_active(&self) -> (r: bool)
        ensures
            r == self.spec_is_active(),
    {
        self.ended_at.is_none()
    }

    /// The set's length in seconds: up to its end, or up to `now` while it
    /// still runs. Present for every set, mirroring the stored record's
    /// optional column.
    pub fn duration_seconds(&self, now: i64) -> (r: Option<i64>)
        requires
            self.wf(),
            valid_timestamp(now),
        ensures
            r is Some,
            self.ended_at is Some ==> r->0 == self.ended_at->0 - self.started_at,
            self.ended_at is None ==> r->0 == now - self.started_at,
    {
        match self.ended_at {
            Some(end) => Some(end - self.started_at),
            None => Some(now - self.started_at),
        }
    }
}

/// The outward shape of a set, with the performer's name joined in.
#[derive(Debug)]
pub struct SessionResponse {
    pub id: String,
    pub dj_id: String,
    pub dj_name: String,
    pub started_at: i64,
    pub ended_at: Option<i64>,
    pub duration_minutes: Option<i32>,
    pub download_link: Option<String>,
    pub upload_status: SessionUploadStatus,
    pub session_type: SessionType,
}

/// Agreement of a stored session and a response, apart from the joined
/// performer name.
pub open spec fn session_resp_matches(s: Session, r: SessionResponse) -> bool {
    &&& r.id@ == s.id@
    &&& r.dj_id@ == s.dj_id@
    &&& r.started_at == s.started_at
    &&& r.ended_at == s.ended_at
    &&& r.duration_minutes == s.duration_minutes
    &&& opt_string_view(r.download_link) == opt_string_view(s.download_link)
    &&& r.upload_status == s.upload_status
    &&& r.session_type == s.session_type
}

/// Aggregate numbers over the session history. Durations are whole
/// minutes and whole hours, rounded down.
#[derive(Debug)]
pub struct SessionStats {
    pub total_sessions: usize,
    pub active_sessions: usize,
    pub average_duration_minutes: i64,
    pub total_duration_hours: i64,
}

} // verus!
