use antigravity_pulse::audio::routing::RoutingConfig;

#[test]
fn routing_get_after_insert() {
    let mut c = RoutingConfig::new();
    assert_eq!(c.get("Spotify"), None);
    c.insert("Spotify".to_string(), "{dev-1}".to_string());
    assert_eq!(c.get("Spotify"), Some("{dev-1}".to_string()));
    c.insert("Discord".to_string(), "{dev-2}".to_string());
    c.insert("Spotify".to_string(), "{dev-3}".to_string());
    assert_eq!(c.get("Spotify"), Some("{dev-3}".to_string()));
    assert_eq!(c.get("Discord"), Some("{dev-2}".to_string()));
    assert_eq!(c.to_entries().len(), 2);
}

#[test]
fn routing_from_entries_last_wins() {
    let es = vec![
        ("a".to_string(), "1".to_string()),
        ("b".to_string(), "2".to_string()),
        ("a".to_string(), "3".to_string()),
    ];
    let c = RoutingConfig::from_entries(&es);
    assert_eq!(c.get("a"), Some("3".to_string()));
    assert_eq!(c.get("b"), Some("2".to_string()));
    assert_eq!(c.to_entries().len(), 2);
}

#[test]
fn routing_json_read() {
    let c = RoutingConfig::from_json("{\"Spotify\": \"{0.0.0.00000000}.{abc}\", \"VLC\": \"{x}\"}").unwrap();
    assert_eq!(c.get("Spotify"), Some("{0.0.0.00000000}.{abc}".to_string()));
    assert_eq!(c.get("VLC"), Some("{x}".to_string()));
    assert_eq!(c.get("Other"), None);
}

#[test]
fn routing_json_rejects_non_objects() {
    assert!(RoutingConfig::from_json("not json").is_none());
    assert!(RoutingConfig::from_json("[1, 2]").is_none());
    assert!(RoutingConfig::from_json("{\"a\": 1}").is_none());
    assert!(RoutingConfig::from_json("").is_none());
}

#[test]
fn routing_json_round_trip() {
    let mut c = RoutingConfig::new();
    c.insert("b app".to_string(), "dev \"2\"".to_string());
    c.insert("a app".to_string(), "dev\\1".to_string());
    let text = c.to_json();
    assert_eq!(text, "{\n  \"a app\": \"dev\\\\1\",\n  \"b app\": \"dev \\\"2\\\"\"\n}");
    let back = RoutingConfig::from_json(&text).unwrap();
    assert_eq!(back.get("a app"), Some("dev\\1".to_string()));
    assert_eq!(back.get("b app"), Some("dev \"2\"".to_string()));
    assert_eq!(back.to_entries().len(), 2);
}

#[test]
fn routing_json_empty_table() {
    let c = RoutingConfig::new();
    assert_eq!(c.to_json(), "{}");
}
