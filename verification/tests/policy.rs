use antigravity_pulse::autostart::{auto_launch_enabled, RUN_KEY, RUN_VALUE_NAME};
use antigravity_pulse::audio::policy::{
    app_endpoint_request, first_endpoint_slot, next_endpoint_slot, wants_default_device,
    EndpointSlot, FLOW_RENDER, ROLE_MULTIMEDIA,
};

#[test]
fn default_device_needs_an_id() {
    assert!(wants_default_device("{0.0.0.00000000}.{abc}"));
    assert!(!wants_default_device(""));
}

#[test]
fn app_endpoint_request_guards() {
    assert!(app_endpoint_request(0, "{dev}").is_none());
    assert!(app_endpoint_request(42, "").is_none());
    let q = app_endpoint_request(42, "{dev}").unwrap();
    assert_eq!(q.process_id, 42);
    assert_eq!(q.flow, FLOW_RENDER);
    assert_eq!(q.role, ROLE_MULTIMEDIA);
    assert_eq!((FLOW_RENDER, ROLE_MULTIMEDIA), (0, 1));
}

#[test]
fn endpoint_fallback_order() {
    assert_eq!(first_endpoint_slot(), EndpointSlot::Persisted);
    assert_eq!(next_endpoint_slot(EndpointSlot::Persisted, true), Some(EndpointSlot::AppDefault));
    assert_eq!(next_endpoint_slot(EndpointSlot::Persisted, false), None);
    assert_eq!(next_endpoint_slot(EndpointSlot::AppDefault, true), None);
    assert_eq!(next_endpoint_slot(EndpointSlot::AppDefault, false), None);
}

#[test]
fn auto_launch_value_presence() {
    assert!(auto_launch_enabled("C:\\Apps\\pulse.exe"));
    assert!(!auto_launch_enabled(""));
    assert_eq!(RUN_KEY, "Software\\Microsoft\\Windows\\CurrentVersion\\Run");
    assert_eq!(RUN_VALUE_NAME, "AntigravityPulse");
}
