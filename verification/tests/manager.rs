use antigravity_pulse::audio::cache::PidCache;
use antigravity_pulse::audio::manager::{AudioManager, RoutingPlan};
use antigravity_pulse::audio::scan::SessionScan;
use std::collections::HashSet;

#[test]
fn pid_cache_insert_get_retain() {
    let mut c: PidCache<&str> = PidCache::new();
    c.insert(1, "one");
    c.insert(2, "two");
    c.insert(3, "three");
    c.insert(2, "deux");
    assert_eq!(c.len(), 3);
    assert_eq!(c.get(2), Some(&"deux"));
    assert!(c.contains(3));
    let seen: HashSet<u32> = [2, 4].into_iter().collect();
    c.retain_set(&seen);
    assert_eq!(c.len(), 1);
    assert!(!c.contains(1));
    assert!(!c.contains(3));
    assert_eq!(c.get(2), Some(&"deux"));
    assert_eq!(c.handles().len(), 1);
    c.clear();
    assert_eq!(c.len(), 0);
}

#[test]
fn scan_lists_each_session_once() {
    let mut s = SessionScan::new();
    let a = "{a}".to_string();
    let b = "{b}".to_string();
    assert!(s.enter(10, &a));
    assert!(s.enter(10, &b));
    assert!(!s.enter(10, &a));
    assert!(s.enter(11, &a));
    assert!(!s.enter(11, &a));
    let mut pids: Vec<u32> = s.seen_pids_set().iter().copied().collect();
    pids.sort();
    assert_eq!(pids, vec![10, 11]);
}

#[test]
fn listener_needed_once_per_process() {
    let mut m: AudioManager<u8, u16> = AudioManager::new();
    assert!(m.needs_session_listener(5, true));
    assert!(!m.needs_session_listener(5, false));
    assert!(!m.needs_session_listener(0, true));
    m.record_session_listener(5, true, Some(1));
    assert!(!m.needs_session_listener(5, true));
    assert!(m.needs_meter(5));
    m.add_meter(5, 7);
    assert!(!m.needs_meter(5));
    assert_eq!(m.meter(5), Some(&7));
    assert_eq!(m.meter(6), None);
}

#[test]
fn finish_scan_drops_unseen_processes() {
    let mut m: AudioManager<u8, u16> = AudioManager::new();
    m.record_session_listener(5, true, Some(1));
    m.record_session_listener(6, true, Some(2));
    m.add_meter(5, 50);
    m.add_meter(7, 70);
    let mut s = SessionScan::new();
    assert!(s.enter(5, &"{x}".to_string()));
    m.finish_scan(&s);
    assert!(!m.needs_session_listener(5, true));
    assert!(m.needs_session_listener(6, true));
    assert_eq!(m.meter(5), Some(&50));
    assert_eq!(m.meter(7), None);
    assert_eq!(m.meter_cache().len(), 1);
    m.release();
    assert!(m.needs_meter(5));
    assert!(m.needs_session_listener(5, true));
}

#[test]
fn routing_request_for_system_sounds_is_ignored() {
    let mut m: AudioManager<u8, u8> = AudioManager::new();
    let plan = m.set_audio_routing(0, Some("C:\\x\\a.exe".to_string()), None, "{dev}");
    assert_eq!(plan, RoutingPlan::Ignore);
    assert_eq!(m.routing_config().get("a.exe"), None);
}

#[test]
fn routing_request_records_product_or_file_name() {
    let mut m: AudioManager<u8, u8> = AudioManager::new();
    let plan = m.set_audio_routing(
        42,
        Some("C:\\Apps\\chrome.exe".to_string()),
        Some("Google Chrome".to_string()),
        "{dev-1}",
    );
    assert_eq!(plan, RoutingPlan::Apply { persist: true });
    assert_eq!(m.routing_config().get("Google Chrome"), Some("{dev-1}".to_string()));
    let plan = m.set_audio_routing(43, Some("C:\\Apps\\vlc.exe".to_string()), None, "{dev-2}");
    assert_eq!(plan, RoutingPlan::Apply { persist: true });
    assert_eq!(m.routing_config().get("vlc.exe"), Some("{dev-2}".to_string()));
    let plan = m.set_audio_routing(44, None, None, "{dev-3}");
    assert_eq!(plan, RoutingPlan::Apply { persist: false });
    assert_eq!(m.routing_config().to_entries().len(), 2);
}

#[test]
fn routing_target_moves_only_misrouted_sessions() {
    let mut m: AudioManager<u8, u8> = AudioManager::new();
    m.set_audio_routing(42, Some("C:\\Apps\\vlc.exe".to_string()), None, "{headphones}");
    assert_eq!(m.routing_target(42, "vlc.exe", "{speakers}"), Some("{headphones}".to_string()));
    assert_eq!(m.routing_target(99, "vlc.exe", "{speakers}"), Some("{headphones}".to_string()));
    assert_eq!(m.routing_target(42, "vlc.exe", "{headphones}"), None);
    assert_eq!(m.routing_target(42, "other.exe", "{speakers}"), None);
    assert_eq!(m.routing_target(0, "vlc.exe", "{speakers}"), None);
}

#[test]
fn routing_config_load_and_save() {
    let mut m: AudioManager<u8, u8> = AudioManager::new();
    m.load_routing_config("{\"Spotify\": \"{d1}\"}");
    assert_eq!(m.routing_config().get("Spotify"), Some("{d1}".to_string()));
    m.load_routing_config("garbage");
    assert_eq!(m.routing_config().get("Spotify"), Some("{d1}".to_string()));
    m.set_audio_routing(7, Some("C:\\a\\zz.exe".to_string()), None, "{d2}");
    let text = m.save_routing_config();
    let mut m2: AudioManager<u8, u8> = AudioManager::new();
    m2.load_routing_config(&text);
    assert_eq!(m2.routing_config().get("Spotify"), Some("{d1}".to_string()));
    assert_eq!(m2.routing_config().get("zz.exe"), Some("{d2}".to_string()));
}

#[test]
fn listener_recorded_only_where_needed() {
    let mut m: AudioManager<u8, u16> = AudioManager::new();
    // No app handle: nothing is kept.
    m.record_session_listener(5, false, Some(1));
    assert!(m.needs_session_listener(5, true));
    // The system sounds session never gets a listener.
    m.record_session_listener(0, true, Some(1));
    assert!(!m.needs_session_listener(0, true));
    // A failed registration keeps nothing.
    m.record_session_listener(5, true, None);
    assert!(m.needs_session_listener(5, true));
    // The first registration is kept; a later one for the same process is not.
    m.record_session_listener(5, true, Some(7));
    m.record_session_listener(5, true, Some(9));
    assert!(!m.needs_session_listener(5, true));
    let mut s = SessionScan::new();
    assert!(s.enter(5, &"{a}".to_string()));
    m.finish_scan(&s);
    assert!(!m.needs_session_listener(5, true));
}
