use antigravity_pulse::audio::device::{
    decode_process_path, describe_devices, friendly_device_name, AudioDeviceInfo, VT_LPWSTR,
};

fn utf16(s: &str) -> Vec<u16> {
    s.encode_utf16().collect()
}

#[test]
fn friendly_name_from_wide_string() {
    let units = utf16("Speakers (Realtek(R) Audio)");
    assert_eq!(friendly_device_name(VT_LPWSTR, Some(&units)), "Speakers (Realtek(R) Audio)");
    let units = utf16("ヘッドホン");
    assert_eq!(friendly_device_name(31, Some(&units)), "ヘッドホン");
}

#[test]
fn friendly_name_unknown_cases() {
    assert_eq!(friendly_device_name(VT_LPWSTR, None), "Unknown Device");
    let units = utf16("ignored");
    assert_eq!(friendly_device_name(8, Some(&units)), "Unknown Device");
    assert_eq!(friendly_device_name(0, None), "Unknown Device");
}

#[test]
fn friendly_name_lossy_decoding() {
    let units = vec![0x0041, 0xD800, 0x0042];
    assert_eq!(friendly_device_name(VT_LPWSTR, Some(&units)), "A\u{FFFD}B");
}

#[test]
fn process_path_decoding() {
    let units = utf16("C:\\Program Files\\App\\app.exe");
    assert_eq!(decode_process_path(&units), Some("C:\\Program Files\\App\\app.exe".to_string()));
    assert_eq!(decode_process_path(&[0xD800]), None);
    assert_eq!(decode_process_path(&[]), Some(String::new()));
}

#[test]
fn describe_marks_default_device() {
    let d = AudioDeviceInfo::describe("{a}".to_string(), "Speakers".to_string(), "{a}");
    assert!(d.is_default);
    assert_eq!(d.id, "{a}");
    assert_eq!(d.name, "Speakers");
    let d = AudioDeviceInfo::describe("{b}".to_string(), "Headphones".to_string(), "{a}");
    assert!(!d.is_default);
}

#[test]
fn describe_devices_single_default() {
    let devices = vec![
        ("{a}".to_string(), "Speakers".to_string()),
        ("{b}".to_string(), "Headphones".to_string()),
        ("{c}".to_string(), "HDMI".to_string()),
    ];
    let infos = describe_devices(devices, "{b}");
    assert_eq!(infos.len(), 3);
    assert_eq!(infos.iter().filter(|d| d.is_default).count(), 1);
    assert!(infos[1].is_default);
    assert_eq!(infos[2].name, "HDMI");
    assert!(describe_devices(vec![], "{b}").is_empty());
}

#[test]
fn utf16_surrogate_pairs_decode() {
    // U+1F3A7 (headphone) is the pair D83C DFA7.
    let units = vec![0x0048, 0xD83C, 0xDFA7];
    assert_eq!(friendly_device_name(VT_LPWSTR, Some(&units)), "H\u{1F3A7}");
    assert_eq!(decode_process_path(&units), Some("H\u{1F3A7}".to_string()));
    // A lone low surrogate, and a high surrogate followed by a plain unit.
    let units = vec![0xDFA7, 0xD83C, 0x0041];
    assert_eq!(friendly_device_name(VT_LPWSTR, Some(&units)), "\u{FFFD}\u{FFFD}A");
    assert_eq!(decode_process_path(&units), None);
}
