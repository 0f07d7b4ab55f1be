use antigravity_pulse::audio::session::{
    name_from_path, parse_path_from_session_id, pid_label_string, resolve_session_name,
    session_matches, session_path_candidate, session_state_listed,
};
use antigravity_pulse::text::{decimal_string, file_name_of, first_index_of, last_segment_start};

#[test]
fn session_id_with_device_path_gives_file_name() {
    let sid = "{0.0.0.00000000}.{guid}|\\Device\\HarddiskVolume3\\Program Files\\App\\app.exe%b{00000000-0000-0000-0000-000000000000}";
    // The part before '%' holds a backslash but does not begin with "|#" nor "\Device\".
    assert_eq!(
        parse_path_from_session_id(sid),
        Some("{0.0.0.00000000}.{guid}|\\Device\\HarddiskVolume3\\Program Files\\App\\app.exe".to_string())
    );
    let sid2 = "|#\\Device\\HarddiskVolume3\\Program Files\\App\\app.exe%b{1}";
    assert_eq!(parse_path_from_session_id(sid2), Some("app.exe".to_string()));
}

#[test]
fn session_id_with_drive_path_gives_whole_path() {
    let sid = "|#C:\\Program Files\\Mozilla Firefox\\firefox.exe%b{abc}";
    assert_eq!(
        parse_path_from_session_id(sid),
        Some("C:\\Program Files\\Mozilla Firefox\\firefox.exe".to_string())
    );
    let sid2 = "C:\\Tools\\player.exe";
    assert_eq!(parse_path_from_session_id(sid2), Some("C:\\Tools\\player.exe".to_string()));
}

#[test]
fn session_id_without_backslash_names_no_path() {
    assert_eq!(parse_path_from_session_id("{0.0.0.00000000}.{guid}|#%b{abc}"), None);
    assert_eq!(parse_path_from_session_id(""), None);
    // A backslash after the first '%' does not count.
    assert_eq!(parse_path_from_session_id("abc%C:\\x.exe"), None);
}

#[test]
fn device_prefix_without_hash_marker() {
    assert_eq!(
        parse_path_from_session_id("\\Device\\HarddiskVolume1\\Windows\\explorer.exe"),
        Some("explorer.exe".to_string())
    );
    // A hash marker alone before a non-device path is dropped.
    assert_eq!(parse_path_from_session_id("|#\\x"), Some("\\x".to_string()));
}

#[test]
fn path_candidate_keeps_only_paths_with_backslash() {
    assert_eq!(
        session_path_candidate("|#C:\\Apps\\tool.exe%b{1}"),
        Some("C:\\Apps\\tool.exe".to_string())
    );
    // A device path reduces to a bare file name, which is no candidate.
    assert_eq!(session_path_candidate("|#\\Device\\HarddiskVolume3\\x\\app.exe%b"), None);
    assert_eq!(session_path_candidate("nothing here"), None);
}

#[test]
fn file_name_of_takes_last_component() {
    assert_eq!(file_name_of("C:\\Program Files\\App\\app.exe"), "app.exe");
    assert_eq!(file_name_of("app.exe"), "app.exe");
    assert_eq!(file_name_of("C:\\dir\\"), "");
    assert_eq!(file_name_of(""), "");
}

#[test]
fn index_helpers_find_characters() {
    assert_eq!(first_index_of("ab%cd%", '%'), 2);
    assert_eq!(first_index_of("abc", '%'), 3);
    assert_eq!(last_segment_start("a\\b\\c", '\\'), 4);
    assert_eq!(last_segment_start("abc", '\\'), 0);
}

#[test]
fn decimal_strings() {
    assert_eq!(decimal_string(0), "0");
    assert_eq!(decimal_string(7), "7");
    assert_eq!(decimal_string(10), "10");
    assert_eq!(decimal_string(4321), "4321");
    assert_eq!(decimal_string(u32::MAX), "4294967295");
}

#[test]
fn pid_label_format() {
    assert_eq!(pid_label_string(1234), "Application (PID: 1234)");
    assert_eq!(pid_label_string(0), "Application (PID: 0)");
}

#[test]
fn system_sounds_name_for_pid_zero() {
    assert_eq!(resolve_session_name(0, Some("Anything".to_string()), "Disp"), "System Sounds");
    assert_eq!(resolve_session_name(0, None, ""), "System Sounds");
}

#[test]
fn session_name_prefers_found_name() {
    assert_eq!(resolve_session_name(42, Some("Spotify".to_string()), "Disp"), "Spotify");
}

#[test]
fn session_name_falls_back_to_display_then_pid() {
    assert_eq!(resolve_session_name(42, None, "Game Audio"), "Game Audio");
    assert_eq!(resolve_session_name(42, None, "@%SystemRoot%\\x.dll,-1"), "Application (PID: 42)");
    assert_eq!(resolve_session_name(42, None, ""), "Application (PID: 42)");
}

#[test]
fn name_from_path_order() {
    let p = "C:\\Apps\\chrome.exe";
    assert_eq!(name_from_path(p, Some("Chrome".to_string()), Some("Google Chrome".to_string())), "Chrome");
    assert_eq!(name_from_path(p, None, Some("Google Chrome".to_string())), "Google Chrome");
    assert_eq!(name_from_path(p, None, None), "chrome.exe");
}

#[test]
fn expired_sessions_are_not_listed() {
    assert!(session_state_listed(Some(0)));
    assert!(session_state_listed(Some(1)));
    assert!(!session_state_listed(Some(2)));
    assert!(session_state_listed(None));
}

#[test]
fn session_matching_by_pid() {
    assert!(session_matches(Some(10), 10));
    assert!(!session_matches(Some(10), 11));
    assert!(!session_matches(None, 10));
    assert!(session_matches(None, u32::MAX));
}
