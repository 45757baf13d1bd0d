use session_recorder_addon::models::dj::CreateDjRequest;
use session_recorder_addon::models::session::{B2BSessionRequest, SessionType, StartSessionRequest};
use session_recorder_addon::services::dj_service::DjService;
use session_recorder_addon::services::event_service::EventService;
use session_recorder_addon::services::session_service::SessionService;
use session_recorder_addon::services::session_recorder_service::{
    default_session_metadata, find_matching_session, recorder_filename_for_format,
    recorder_ids_from_prefixes, recorder_session_from_parts, session_files_from_keys,
    RecorderSession, SessionFiles,
};
use session_recorder_addon::services::store::Store;

const NOW: i64 = 1_700_000_000;

fn create_test_dj(store: &mut Store, name: &str) -> String {
    let dj_service = DjService::new();
    let dj = dj_service.register_dj(
        store,
        CreateDjRequest {
            name: name.to_string(),
            email: Some(format!("{}@example.com", name.to_lowercase())),
        },
        NOW,
    );
    dj.id
}

fn events() -> EventService {
    EventService::new(60, 2)
}

#[test]
fn test_start_session() {
    let mut store = Store::new();
    let session_service = SessionService::new();
    let dj_id = create_test_dj(&mut store, "TestDJ");

    let request = StartSessionRequest {
        dj_id: dj_id.clone(),
        session_type: Some(SessionType::Solo),
    };

    let session = session_service
        .start_session(&mut store, &events(), request, NOW)
        .unwrap();

    assert_eq!(session.dj_id, dj_id);
    assert_eq!(session.dj_name, "TestDJ");
    assert!(session.ended_at.is_none());
    assert_eq!(session.session_type, SessionType::Solo);
}

#[test]
fn test_prevent_duplicate_sessions() {
    let mut store = Store::new();
    let session_service = SessionService::new();
    let dj_id = create_test_dj(&mut store, "TestDJ");

    // Start first session
    let session1 = session_service.start_session(
        &mut store,
        &events(),
        StartSessionRequest {
            dj_id: dj_id.clone(),
            session_type: Some(SessionType::Solo),
        },
        NOW,
    );
    assert!(session1.is_ok());

    // Try to start second session for same DJ
    let session2 = session_service.start_session(
        &mut store,
        &events(),
        StartSessionRequest {
            dj_id,
            session_type: Some(SessionType::Solo),
        },
        NOW + 10,
    );
    assert!(session2.is_err());
}

#[test]
fn test_end_session() {
    let mut store = Store::new();
    let session_service = SessionService::new();
    let dj_id = create_test_dj(&mut store, "TestDJ");

    let session = session_service
        .start_session(
            &mut store,
            &events(),
            StartSessionRequest {
                dj_id,
                session_type: Some(SessionType::Solo),
            },
            NOW,
        )
        .unwrap();

    // End the session a half hour later.
    let ended_session = session_service
        .end_session(&mut store, &session.id, NOW + 1800)
        .unwrap();
    assert!(ended_session.is_some());

    let ended_session = ended_session.unwrap();
    assert!(ended_session.ended_at.is_some());
    assert!(ended_session.duration_minutes.is_some());
    assert_eq!(ended_session.duration_minutes.unwrap(), 30);
    // The processed recording carries a download link.
    assert!(ended_session.download_link.is_some());

    // Ending twice must fail cleanly.
    let again = session_service.end_session(&mut store, &session.id, NOW + 1900);
    assert!(again.is_err());
}

#[test]
fn test_get_current_session() {
    let mut store = Store::new();
    let session_service = SessionService::new();

    // Initially no current session
    assert!(session_service.get_current_session(&store).is_none());

    // Start a session
    let dj_id = create_test_dj(&mut store, "CurrentDJ");
    let session = session_service
        .start_session(
            &mut store,
            &events(),
            StartSessionRequest {
                dj_id,
                session_type: Some(SessionType::Solo),
            },
            NOW,
        )
        .unwrap();

    // Now should have current session
    let current = session_service.get_current_session(&store);
    assert!(current.is_some());
    assert_eq!(current.unwrap().id, session.id);

    // End session
    session_service
        .end_session(&mut store, &session.id, NOW + 600)
        .unwrap();

    // Should not have current session anymore
    assert!(session_service.get_current_session(&store).is_none());
}

#[test]
fn test_session_statistics() {
    let mut store = Store::new();
    let session_service = SessionService::new();

    // Initial stats
    let stats = session_service.get_session_statistics(&store);
    assert_eq!(stats.total_sessions, 0);
    assert_eq!(stats.active_sessions, 0);

    // Create some sessions
    let dj1_id = create_test_dj(&mut store, "DJ1");
    let dj2_id = create_test_dj(&mut store, "DJ2");

    let session1 = session_service
        .start_session(
            &mut store,
            &events(),
            StartSessionRequest {
                dj_id: dj1_id,
                session_type: Some(SessionType::Solo),
            },
            NOW,
        )
        .unwrap();

    let _session2 = session_service
        .start_session(
            &mut store,
            &events(),
            StartSessionRequest {
                dj_id: dj2_id,
                session_type: Some(SessionType::Solo),
            },
            NOW + 60,
        )
        .unwrap();

    // Check stats with active sessions
    let stats = session_service.get_session_statistics(&store);
    assert_eq!(stats.total_sessions, 2);
    assert_eq!(stats.active_sessions, 2);

    // End one session
    session_service
        .end_session(&mut store, &session1.id, NOW + 3600)
        .unwrap();

    let stats = session_service.get_session_statistics(&store);
    assert_eq!(stats.total_sessions, 2);
    assert_eq!(stats.active_sessions, 1);
    assert_eq!(stats.average_duration_minutes, 60);
    assert_eq!(stats.total_duration_hours, 1);
}

#[test]
fn test_b2b_session() {
    let mut store = Store::new();
    let session_service = SessionService::new();

    let dj1_id = create_test_dj(&mut store, "DJ1");
    let dj2_id = create_test_dj(&mut store, "DJ2");

    let b2b_request = B2BSessionRequest {
        dj_ids: vec![dj1_id.clone(), dj2_id.clone()],
        duration_minutes: Some(120),
    };

    let session = session_service
        .create_b2b_session(&mut store, b2b_request, NOW)
        .unwrap();

    assert_eq!(session.session_type, SessionType::B2B);
    assert_eq!(session.dj_id, dj1_id); // Primary DJ
    assert!(session.dj_name.contains("+ 1 others")); // Indicates B2B
}

#[test]
fn test_b2b_session_requires_multiple_djs() {
    let mut store = Store::new();
    let session_service = SessionService::new();

    let dj1_id = create_test_dj(&mut store, "DJ1");

    let b2b_request = B2BSessionRequest {
        dj_ids: vec![dj1_id], // Only one DJ
        duration_minutes: Some(120),
    };

    let result = session_service.create_b2b_session(&mut store, b2b_request, NOW);
    assert!(result.is_err());
}

#[test]
fn test_get_all_sessions() {
    let mut store = Store::new();
    let session_service = SessionService::new();

    // Create multiple sessions
    let dj1_id = create_test_dj(&mut store, "DJ1");
    let dj2_id = create_test_dj(&mut store, "DJ2");

    session_service
        .start_session(
            &mut store,
            &events(),
            StartSessionRequest {
                dj_id: dj1_id,
                session_type: Some(SessionType::Solo),
            },
            NOW,
        )
        .unwrap();

    session_service
        .start_session(
            &mut store,
            &events(),
            StartSessionRequest {
                dj_id: dj2_id,
                session_type: Some(SessionType::Solo),
            },
            NOW + 120,
        )
        .unwrap();

    let sessions = session_service.get_all_sessions(&store);
    assert_eq!(sessions.len(), 2);

    // Should be ordered by started_at DESC (most recent first)
    assert!(sessions[0].started_at >= sessions[1].started_at);
}

#[test]
fn test_recorder_link_prefers_ogg_url() {
    let mut store = Store::new();
    let session_service = SessionService::new();
    let dj_id = create_test_dj(&mut store, "Linked");
    let session = session_service
        .start_session(
            &mut store,
            &events(),
            StartSessionRequest {
                dj_id,
                session_type: Some(SessionType::Solo),
            },
            NOW,
        )
        .unwrap();
    let files = SessionFiles {
        ogg_url: Some("http://store/rec1/sessions/s1/data.ogg".to_string()),
        flac_url: None,
        waveform_url: None,
        overview_png_url: None,
        metadata_url: None,
    };
    session_service
        .link_to_recorder_session(&mut store, &session.id, "s1", "rec1", &files)
        .unwrap();
    let with_info = session_service
        .get_session_with_recorder_info(&store, &session.id)
        .unwrap();
    assert_eq!(
        with_info.download_link.as_deref(),
        Some("http://store/rec1/sessions/s1/data.ogg")
    );
}

#[test]
fn test_recorder_session_matching() {
    let empty_files = || SessionFiles {
        ogg_url: None,
        flac_url: None,
        waveform_url: None,
        overview_png_url: None,
        metadata_url: None,
    };
    let make = |id: &str, start: i64| RecorderSession {
        id: id.to_string(),
        recorder_id: "rec1".to_string(),
        name: id.to_string(),
        start_time: start,
        end_time: None,
        duration_seconds: None,
        is_closed: false,
        keep: false,
        files: empty_files(),
    };
    // Within five minutes counts as a match; beyond it does not.
    let sessions = vec![make("far", NOW - 3600), make("near", NOW + 240)];
    let found = find_matching_session(&sessions, NOW, 5).unwrap();
    assert_eq!(sessions[found].id, "near");
    assert!(find_matching_session(&sessions, NOW - 7200, 5).is_none());
}

#[test]
fn test_recorder_format_names() {
    assert_eq!(recorder_filename_for_format("ogg").as_deref(), Some("data.ogg"));
    assert_eq!(recorder_filename_for_format("FLAC").as_deref(), Some("data.flac"));
    assert_eq!(
        recorder_filename_for_format("waveform").as_deref(),
        Some("waveform.dat")
    );
    assert!(recorder_filename_for_format("mp3").is_none());
}

#[test]
fn test_recorder_ids_from_prefixes() {
    let prefixes = vec![
        "recorder-1/".to_string(),
        "metadata.json".to_string(),
        "recorder-2/".to_string(),
        "".to_string(),
    ];
    let ids = recorder_ids_from_prefixes(&prefixes);
    assert_eq!(ids, vec!["recorder-1".to_string(), "recorder-2".to_string()]);
}

#[test]
fn test_get_download_link_after_upload() {
    let mut store = Store::new();
    let session_service = SessionService::new();
    let dj_id = create_test_dj(&mut store, "Linker");
    let session = session_service
        .start_session(
            &mut store,
            &events(),
            StartSessionRequest {
                dj_id,
                session_type: Some(SessionType::Solo),
            },
            NOW,
        )
        .unwrap();
    // No link while the set still runs.
    assert!(session_service.get_download_link(&store, &session.id).is_none());
    session_service
        .end_session(&mut store, &session.id, NOW + 300)
        .unwrap();
    let link = session_service
        .get_download_link(&store, &session.id)
        .unwrap();
    assert_eq!(
        link,
        format!("https://cloud-storage.example.com/sessions/{}.mp3", session.id)
    );
}

#[test]
fn test_session_files_from_keys() {
    let keys = vec![
        "rec1/sessions/s1/data.ogg".to_string(),
        "rec1/sessions/s1/metadata.json".to_string(),
        "rec1/sessions/s1/notes.txt".to_string(),
    ];
    let files = session_files_from_keys(&keys, "http://store");
    assert_eq!(
        files.ogg_url.as_deref(),
        Some("http://store/rec1/sessions/s1/data.ogg")
    );
    assert_eq!(
        files.metadata_url.as_deref(),
        Some("http://store/rec1/sessions/s1/metadata.json")
    );
    assert!(files.flac_url.is_none());
    assert!(files.waveform_url.is_none());
    assert!(files.overview_png_url.is_none());
}

#[test]
fn test_recorder_session_assembly() {
    let metadata = default_session_metadata("s1", "rec1", "unknown".to_string());
    assert_eq!(metadata.name, "Session s1");
    assert!(metadata.is_closed);
    let files = session_files_from_keys(&vec![], "http://store");
    let session = recorder_session_from_parts(metadata, NOW, None, files);
    assert_eq!(session.id, "s1");
    assert_eq!(session.recorder_id, "rec1");
    assert_eq!(session.start_time, NOW);
    assert!(session.end_time.is_none());
}
