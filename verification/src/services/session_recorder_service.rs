//! The recorder integration's data model and decision logic: which
//! recorder session matches a set, which stored objects make up a
//! session's files, and how object listings map to recorder names. The
//! object store itself is an outside collaborator; its fetches hand these
//! functions plain values.

use vstd::prelude::*;

use crate::utils::file_utils::{chars_eq, lower_char, spec_lower_char};
use crate::utils::strings::str_chars;
use crate::external::push_char;
use crate::valid_timestamp;
use vstd::string::StringExecFns;

verus! {

/// The file URLs a recorder session exposes.
#[derive(Debug)]
pub struct SessionFiles {
    pub ogg_url: Option<String>,
    pub flac_url: Option<String>,
    pub waveform_url: Option<String>,
    pub overview_png_url: Option<String>,
    pub metadata_url: Option<String>,
}

impl Clone for SessionFiles {
    fn clone(&self) -> (r: SessionFiles)
        ensures
            r == *self,
    {
        SessionFiles {
            ogg_url: match &self.ogg_url {
                Some(u) => Some(u.clone()),
                None => None,
            },
            flac_url: match &self.flac_url {
                Some(u) => Some(u.clone()),
                None => None,
            },
            waveform_url: match &self.waveform_url {
                Some(u) => Some(u.clone()),
                None => None,
            },
            overview_png_url: match &self.overview_png_url {
                Some(u) => Some(u.clone()),
                None => None,
            },
            metadata_url: match &self.metadata_url {
                Some(u) => Some(u.clone()),
                None => None,
            },
        }
    }
}

/// A recorder session's metadata as its stored record carries it, with
/// the times still in their textual form.
#[derive(Debug)]
pub struct SessionMetadata {
    pub id: String,
    pub recorder_id: String,
    pub name: String,
    pub start_time: String,
    pub end_time: Option<String>,
    pub duration: Option<i64>,
    pub keep: bool,
    pub is_closed: bool,
}

/// A recorder session with its times resolved to unix seconds and its
/// file URLs gathered.
#[derive(Debug)]
pub struct RecorderSession {
    pub id: String,
    pub recorder_id: String,
    pub name: String,
    pub start_time: i64,
    pub end_time: Option<i64>,
    pub duration_seconds: Option<i64>,
    pub is_closed: bool,
    pub keep: bool,
    pub files: SessionFiles,
}

impl Clone for RecorderSession {
    fn clone(&self) -> (r: RecorderSession)
        ensures
            r == *self,
    {
        RecorderSession {
            id: self.id.clone(),
            recorder_id: self.recorder_id.clone(),
            name: self.name.clone(),
            start_time: self.start_time,
            end_time: self.end_time,
            duration_seconds: self.duration_seconds,
            is_closed: self.is_closed,
            keep: self.keep,
            files: self.files.clone(),
        }
    }
}

/// How the recorder's object store is reached.
#[derive(Debug)]
pub struct SessionRecorderConfig {
    pub minio_endpoint: String,
    pub minio_access_key: String,
    pub minio_secret_key: String,
    pub bucket_name: String,
    pub public_endpoint: String,
}

impl Default for SessionRecorderConfig {
    /// The local development defaults.
    fn default() -> (r: SessionRecorderConfig)
        ensures
            r.minio_endpoint@ == "http://localhost:9000"@,
            r.minio_access_key@ == "admin"@,
            r.minio_secret_key@ == "password123"@,
            r.bucket_name@ == "session-recorder"@,
            r.public_endpoint@ == "http://localhost:9000"@,
    {
        SessionRecorderConfig {
            minio_endpoint: "http://localhost:9000".to_owned(),
            minio_access_key: "admin".to_owned(),
            minio_secret_key: "password123".to_owned(),
            bucket_name: "session-recorder".to_owned(),
            public_endpoint: "http://localhost:9000".to_owned(),
        }
    }
}

/// Whether a recorder session started within `tolerance_minutes` whole
/// minutes of the set's start.
pub open spec fn spec_session_matches(s: RecorderSession, dj_session_start: i64, tolerance_minutes: i64) -> bool {
    let diff = if s.start_time >= dj_session_start {
        s.start_time - dj_session_start
    } else {
        dj_session_start - s.start_time
    };
    diff / 60 <= tolerance_minutes
}

/// The first recorder session whose start lies within the tolerance of
/// the set's start, if any: the timing rule that auto-links a set to its
/// recording.
pub fn find_matching_session(
    sessions: &Vec<RecorderSession>,
    dj_session_start: i64,
    tolerance_minutes: i64,
) -> (r: Option<usize>)
    requires
        valid_timestamp(dj_session_start),
        forall|i: int|
            0 <= i < sessions@.len() ==> valid_timestamp(#[trigger] sessions@[i].start_time),
    ensures
        r is Some ==> r->0 < sessions@.len() && spec_session_matches(
            sessions@[r->0 as int],
            dj_session_start,
            tolerance_minutes,
        ) && forall|j: int|
            0 <= j < r->0 ==> !spec_session_matches(
                #[trigger] sessions@[j],
                dj_session_start,
                tolerance_minutes,
            ),
        r is None ==> forall|j: int|
            0 <= j < sessions@.len() ==> !spec_session_matches(
                #[trigger] sessions@[j],
                dj_session_start,
                tolerance_minutes,
            ),
{
    let n: usize = sessions.len();
    let mut i: usize = 0;
    while i < n
        invariant
            n == sessions@.len(),
            valid_timestamp(dj_session_start),
            forall|k: int|
                0 <= k < sessions@.len() ==> valid_timestamp(#[trigger] sessions@[k].start_time),
            0 <= i <= n,
            forall|j: int|
                0 <= j < i ==> !spec_session_matches(
                    #[trigger] sessions@[j],
                    dj_session_start,
                    tolerance_minutes,
                ),
        decreases n - i,
    {
        let diff: i64 = if sessions[i].start_time >= dj_session_start {
            sessions[i].start_time - dj_session_start
        } else {
            dj_session_start - sessions[i].start_time
        };
        if diff / 60 <= tolerance_minutes {
            return Some(i);
        }
        i = i + 1;
    }
    None
}

/// The recorder sessions that started at or after the cutoff.
pub open spec fn spec_recent_sessions(sessions: Seq<RecorderSession>, cutoff: int) -> Seq<
    RecorderSession,
> {
    sessions.filter(|s: RecorderSession| s.start_time >= cutoff)
}

/// The recorder sessions of the last `hours` hours.
pub fn get_recent_sessions(sessions: &Vec<RecorderSession>, now: i64, hours: i64) -> (r: Vec<
    RecorderSession,
>)
    requires
        valid_timestamp(now),
        0 <= hours <= 1_000_000,
    ensures
        r@ == spec_recent_sessions(sessions@, now - hours * 3600),
{
    let cutoff: i64 = now - hours * 3600;
    let n: usize = sessions.len();
    let mut out: Vec<RecorderSession> = Vec::new();
    let mut i: usize = 0;
    while i < n
        invariant
            n == sessions@.len(),
            0 <= i <= n,
            out@ == spec_recent_sessions(sessions@.take(i as int), cutoff as int),
        decreases n - i,
    {
        proof {
            reveal(Seq::filter);
            assert(sessions@.take(i as int + 1).drop_last() =~= sessions@.take(i as int));
            assert(sessions@.take(i as int + 1).last() == sessions@[i as int]);
        }
        if sessions[i].start_time >= cutoff {
            out.push(sessions[i].clone());
        }
        i = i + 1;
    }
    proof {
        assert(sessions@.take(n as int) =~= sessions@);
    }
    out
}

/// The stored filename a download format names: `ogg`, `flac` and
/// `waveform` (in any letter case) map to their object names; anything
/// else maps to nothing.
pub open spec fn spec_recorder_filename(format: Seq<char>) -> Option<Seq<char>> {
    let lowered = format.map(|i: int, c: char| spec_lower_char(c));
    if lowered == "ogg"@ {
        Some("data.ogg"@)
    } else if lowered == "flac"@ {
        Some("data.flac"@)
    } else if lowered == "waveform"@ {
        Some("waveform.dat"@)
    } else {
        None
    }
}

/// The stored filename for a requested download format.
pub fn recorder_filename_for_format(format: &str) -> (r: Option<String>)
    ensures
        r is Some <==> spec_recorder_filename(format@) is Some,
        r is Some ==> r->0@ == spec_recorder_filename(format@)->0,
{
    let chars: Vec<char> = str_chars(format);
    let mut lowered: Vec<char> = Vec::new();
    let n: usize = chars.len();
    let mut i: usize = 0;
    while i < n
        invariant
            n == chars@.len(),
            0 <= i <= n,
            lowered@ =~= chars@.take(i as int).map(|j: int, c: char| spec_lower_char(c)),
        decreases n - i,
    {
        lowered.push(lower_char(chars[i]));
        proof {
            assert(lowered@ =~= chars@.take(i as int + 1).map(
                |j: int, c: char| spec_lower_char(c),
            ));
        }
        i = i + 1;
    }
    proof {
        assert(chars@.take(n as int) =~= chars@);
        assert(lowered@ == format@.map(|j: int, c: char| spec_lower_char(c)));
    }
    let ogg: Vec<char> = str_chars("ogg");
    let flac: Vec<char> = str_chars("flac");
    let waveform: Vec<char> = str_chars("waveform");
    if chars_eq(&lowered, &ogg) {
        Some("data.ogg".to_owned())
    } else if chars_eq(&lowered, &flac) {
        Some("data.flac".to_owned())
    } else if chars_eq(&lowered, &waveform) {
        Some("waveform.dat".to_owned())
    } else {
        None
    }
}

/// Whether an object key's last path segment is exactly `name`.
pub open spec fn spec_key_names(key: Seq<char>, name: Seq<char>) -> bool {
    crate::utils::file_utils::spec_suffix_after_last(key, '/') == name
}

/// Whether some listed key's last segment is exactly `name`.
pub open spec fn spec_some_key_names(keys: Seq<Seq<char>>, name: Seq<char>) -> bool {
    exists|i: int| 0 <= i < keys.len() && spec_key_names(#[trigger] keys[i], name)
}

/// A public URL for one stored object.
pub open spec fn spec_object_url(endpoint: Seq<char>, key: Seq<char>) -> Seq<char> {
    endpoint + seq!['/'] + key
}

/// Whether an optional URL field correctly reflects an object listing:
/// absent when no key carries the object name, and otherwise the public
/// URL of such a key.
pub open spec fn spec_file_url_matches(
    url: Option<String>,
    keys: Seq<Seq<char>>,
    endpoint: Seq<char>,
    name: Seq<char>,
) -> bool {
    &&& url is Some <==> spec_some_key_names(keys, name)
    &&& url is Some ==> exists|i: int|
        0 <= i < keys.len() && spec_key_names(#[trigger] keys[i], name) && url->0@
            == spec_object_url(endpoint, keys[i])
}

/// Whether the key's last segment equals the given object name.
fn key_names(key: &str, name: &str) -> (r: bool)
    ensures
        r == spec_key_names(key@, name@),
{
    let chars: Vec<char> = str_chars(key);
    let segment: Vec<char> = crate::utils::file_utils::suffix_after_last_chars(&chars, '/');
    let name_chars: Vec<char> = str_chars(name);
    chars_eq(&segment, &name_chars)
}

/// The public URL for one stored object.
fn object_url(endpoint: &str, key: &str) -> (r: String)
    ensures
        r@ == spec_object_url(endpoint@, key@),
{
    let mut url: String = endpoint.to_owned();
    push_char(&mut url, '/');
    url.append(key);
    proof {
        assert(url@ =~= spec_object_url(endpoint@, key@));
    }
    url
}

/// Gathers a session's file URLs from an object listing: each known
/// object name (audio, waveform, overview, metadata) that some key ends
/// in becomes that key's public URL.
#[verifier::rlimit(100)]
pub fn session_files_from_keys(keys: &Vec<String>, public_endpoint: &str) -> (r: SessionFiles)
    ensures
        spec_file_url_matches(
            r.ogg_url,
            keys@.map_values(|k: String| k@),
            public_endpoint@,
            "data.ogg"@,
        ),
        spec_file_url_matches(
            r.flac_url,
            keys@.map_values(|k: String| k@),
            public_endpoint@,
            "data.flac"@,
        ),
        spec_file_url_matches(
            r.waveform_url,
            keys@.map_values(|k: String| k@),
            public_endpoint@,
            "waveform.dat"@,
        ),
        spec_file_url_matches(
            r.overview_png_url,
            keys@.map_values(|k: String| k@),
            public_endpoint@,
            "overview.png"@,
        ),
        spec_file_url_matches(
            r.metadata_url,
            keys@.map_values(|k: String| k@),
            public_endpoint@,
            "metadata.json"@,
        ),
{
    let ghost key_views = keys@.map_values(|k: String| k@);
    let mut files = SessionFiles {
        ogg_url: None,
        flac_url: None,
        waveform_url: None,
        overview_png_url: None,
        metadata_url: None,
    };
    let n: usize = keys.len();
    let mut i: usize = 0;
    while i < n
        invariant
            n == keys@.len(),
            key_views == keys@.map_values(|k: String| k@),
            0 <= i <= n,
            spec_file_url_matches(
                files.ogg_url,
                key_views.take(i as int),
                public_endpoint@,
                "data.ogg"@,
            ),
            spec_file_url_matches(
                files.flac_url,
                key_views.take(i as int),
                public_endpoint@,
                "data.flac"@,
            ),
            spec_file_url_matches(
                files.waveform_url,
                key_views.take(i as int),
                public_endpoint@,
                "waveform.dat"@,
            ),
            spec_file_url_matches(
                files.overview_png_url,
                key_views.take(i as int),
                public_endpoint@,
                "overview.png"@,
            ),
            spec_file_url_matches(
                files.metadata_url,
                key_views.take(i as int),
                public_endpoint@,
                "metadata.json"@,
            ),
        decreases n - i,
    {
        let key: &str = keys[i].as_str();
        proof {
            assert(key_views[i as int] == key@);
        }
        // The five object names are distinct, so at most one test holds.
        if key_names(key, "data.ogg") {
            files.ogg_url = Some(object_url(public_endpoint, key));
        }
        if key_names(key, "data.flac") {
            files.flac_url = Some(object_url(public_endpoint, key));
        }
        if key_names(key, "waveform.dat") {
            files.waveform_url = Some(object_url(public_endpoint, key));
        }
        if key_names(key, "overview.png") {
            files.overview_png_url = Some(object_url(public_endpoint, key));
        }
        if key_names(key, "metadata.json") {
            files.metadata_url = Some(object_url(public_endpoint, key));
        }
        proof {
            assert(forall|j: int|
                0 <= j < i ==> #[trigger] key_views.take(i as int)[j] == key_views.take(
                    i as int + 1,
                )[j]);
            assert(key_views.take(i as int + 1)[i as int] == key@);
        }
        i = i + 1;
    }
    proof {
        assert(key_views.take(n as int) =~= key_views);
    }
    files
}

/// A recorder session assembled from its fetched parts: the stored
/// metadata, the times already resolved to unix seconds (the caller
/// parses the textual times and falls back to its current time where
/// the start is missing or unreadable), and the gathered file URLs.
pub fn recorder_session_from_parts(
    metadata: SessionMetadata,
    start_secs: i64,
    end_secs: Option<i64>,
    files: SessionFiles,
) -> (r: RecorderSession)
    ensures
        r.id@ == metadata.id@,
        r.recorder_id@ == metadata.recorder_id@,
        r.name@ == metadata.name@,
        r.start_time == start_secs,
        r.end_time == end_secs,
        r.duration_seconds == metadata.duration,
        r.is_closed == metadata.is_closed,
        r.keep == metadata.keep,
        r.files == files,
{
    RecorderSession {
        id: metadata.id,
        recorder_id: metadata.recorder_id,
        name: metadata.name,
        start_time: start_secs,
        end_time: end_secs,
        duration_seconds: metadata.duration,
        is_closed: metadata.is_closed,
        keep: metadata.keep,
        files,
    }
}

/// The placeholder metadata for a session whose stored record is
/// missing or unreadable: named after its identifier, closed, not kept.
pub fn default_session_metadata(
    session_id: &str,
    recorder_id: &str,
    start_time_text: String,
) -> (r: SessionMetadata)
    ensures
        r.id@ == session_id@,
        r.recorder_id@ == recorder_id@,
        r.name@ == "Session "@ + session_id@,
        r.start_time == start_time_text,
        r.end_time is None,
        r.duration is None,
        !r.keep,
        r.is_closed,
{
    let mut name: String = "Session ".to_owned();
    name.append(session_id);
    SessionMetadata {
        id: session_id.to_owned(),
        recorder_id: recorder_id.to_owned(),
        name,
        start_time: start_time_text,
        end_time: None,
        duration: None,
        keep: false,
        is_closed: true,
    }
}

/// A prefix with its trailing slashes removed.
pub open spec fn spec_trim_trailing_slashes(s: Seq<char>) -> Seq<char>
    decreases s.len(),
{
    if s.len() > 0 && s.last() == '/' {
        spec_trim_trailing_slashes(s.drop_last())
    } else {
        s
    }
}

/// The recorder names an object listing's top-level prefixes carry: each
/// prefix with its trailing slash removed, keeping neither the root
/// metadata object nor empty names.
pub open spec fn spec_recorder_ids(prefixes: Seq<Seq<char>>) -> Seq<Seq<char>> {
    prefixes.map_values(|p: Seq<char>| spec_trim_trailing_slashes(p)).filter(
        |t: Seq<char>| t.len() > 0 && t != "metadata.json"@,
    )
}

/// Extracts the recorder names from an object listing's prefixes.
pub fn recorder_ids_from_prefixes(prefixes: &Vec<String>) -> (r: Vec<String>)
    ensures
        r@.map_values(|s: String| s@) == spec_recorder_ids(
            prefixes@.map_values(|p: String| p@),
        ),
{
    let n: usize = prefixes.len();
    let mut out: Vec<String> = Vec::new();
    let mut i: usize = 0;
    while i < n
        invariant
            n == prefixes@.len(),
            0 <= i <= n,
            out@.map_values(|s: String| s@) == spec_recorder_ids(
                prefixes@.take(i as int).map_values(|p: String| p@),
            ),
        decreases n - i,
    {
        let ghost views = prefixes@.map_values(|p: String| p@);
        proof {
            reveal(Seq::filter);
            assert(prefixes@.take(i as int + 1).map_values(|p: String| p@) =~= views.take(
                i as int + 1,
            ));
            assert(prefixes@.take(i as int).map_values(|p: String| p@) =~= views.take(i as int));
            assert(views.take(i as int + 1).drop_last() =~= views.take(i as int));
            assert(views.take(i as int + 1).last() == views[i as int]);
            assert(views.take(i as int + 1).map_values(|p: Seq<char>| spec_trim_trailing_slashes(p)).drop_last()
                =~= views.take(i as int).map_values(|p: Seq<char>| spec_trim_trailing_slashes(p)));
        }
        let chars: Vec<char> = str_chars(prefixes[i].as_str());
        let mut end: usize = chars.len();
        proof {
            assert(chars@.take(end as int) =~= chars@);
        }
        while end > 0 && chars[end - 1] == '/'
            invariant
                end <= chars@.len(),
                spec_trim_trailing_slashes(chars@) == spec_trim_trailing_slashes(
                    chars@.take(end as int),
                ),
            decreases end,
        {
            proof {
                assert(chars@.take(end as int).drop_last() =~= chars@.take(end as int - 1));
            }
            end = end - 1;
        }
        proof {
            assert(spec_trim_trailing_slashes(chars@.take(end as int)) == chars@.take(
                end as int,
            ));
        }
        let mut trimmed: String = String::new();
        let mut k: usize = 0;
        while k < end
            invariant
                end <= chars@.len(),
                0 <= k <= end,
                trimmed@ =~= chars@.take(end as int).take(k as int),
            decreases end - k,
        {
            push_char(&mut trimmed, chars[k]);
            proof {
                assert(trimmed@ =~= chars@.take(end as int).take(k as int + 1));
            }
            k = k + 1;
        }
        proof {
            assert(trimmed@ =~= chars@.take(end as int));
            assert(trimmed@ == spec_trim_trailing_slashes(prefixes@[i as int]@));
        }
        let keep: bool = end > 0 && !crate::utils::strings::str_eq(
            trimmed.as_str(),
            "metadata.json",
        );
        proof {
            reveal_strlit("metadata.json");
        }
        if keep {
            out.push(trimmed);
        }
        proof {
            assert(out@.map_values(|s: String| s@) =~= spec_recorder_ids(
                prefixes@.take(i as int + 1).map_values(|p: String| p@),
            ));
        }
        i = i + 1;
    }
    proof {
        assert(prefixes@.take(n as int) =~= prefixes@);
    }
    out
}

} // verus!
