use session_recorder_addon::utils::file_utils::{
    format_file_size, generate_cloud_upload_path, generate_session_filename,
    get_session_file_path, is_audio_file,
};
use session_recorder_addon::utils::strings::simple_hash;

#[test]
fn test_format_file_size() {
    assert_eq!(format_file_size(512), "512 B");
    assert_eq!(format_file_size(1024), "1.0 KB");
    assert_eq!(format_file_size(1536), "1.5 KB");
    assert_eq!(format_file_size(1048576), "1.0 MB");
    assert_eq!(format_file_size(1073741824), "1.0 GB");
}

#[test]
fn test_is_audio_file() {
    assert!(is_audio_file("test.mp3"));
    assert!(is_audio_file("test.wav"));
    assert!(is_audio_file("test.flac"));
    assert!(is_audio_file("test.m4a"));
    assert!(is_audio_file("test.aac"));
    assert!(is_audio_file("TEST.MP3")); // Case insensitive

    assert!(!is_audio_file("test.txt"));
    assert!(!is_audio_file("test.jpg"));
    assert!(!is_audio_file("test"));
}

#[test]
fn test_generate_cloud_upload_path() {
    let now: i64 = 1_700_000_000;
    let path = generate_cloud_upload_path("session-123", "recording.mp3", now);
    assert!(path.starts_with("sessions/"));
    assert!(path.contains("session-123"));
    assert!(path.ends_with("recording.mp3"));
}

#[test]
fn test_cloud_upload_path_at_epoch() {
    // Pins the date segment exactly: the unix epoch is 1970-01-01.
    let path = generate_cloud_upload_path("abc", "take.mp3", 0);
    assert_eq!(path, "sessions/1970/01/01/abc/take.mp3");
}

#[test]
fn test_session_filename_at_epoch() {
    // Pins the whole filename: sanitized name, the epoch's compact
    // timestamp, and the identifier's first eight characters.
    let filename = generate_session_filename("DJ/Test", "session1-2345", 0);
    assert_eq!(filename, "DJ_Test_19700101_000000_session_session1.mp3");
}

#[test]
fn test_session_filename_shape() {
    let now: i64 = 1_700_000_000;
    let filename = generate_session_filename("DJ:Test", "session-123-456", now);
    assert!(filename.contains("DJ_Test"));
    assert!(filename.contains("_session_"));
    assert!(filename.ends_with(".mp3"));
}

#[test]
fn test_session_file_path_joins_directory() {
    let path = get_session_file_path("/tmp/recordings", "session1-2345", "DJ", 0);
    assert_eq!(path, "/tmp/recordings/DJ_19700101_000000_session_session1.mp3");
}

#[test]
fn test_simple_hash_sums_code_points() {
    assert_eq!(simple_hash(""), 0);
    assert_eq!(simple_hash("abc"), 97 + 98 + 99);
}
