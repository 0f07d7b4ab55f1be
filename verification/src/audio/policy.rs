//! When the audio policy interfaces are asked to switch an endpoint, and with what.

use vstd::prelude::*;

verus! {

/// `EDataFlow::eRender`: playback endpoints.
pub const FLOW_RENDER: i32 = 0;

/// `ERole::eMultimedia`: the role that routing and default switching act on.
pub const ROLE_MULTIMEDIA: i32 = 1;

/// The system default device is switched only to a named device.
pub fn wants_default_device(device_id: &str) -> (r: bool)
    ensures
        r == (device_id@.len() > 0),
{
    !device_id.is_empty()
}

/// A request to send one process's playback to a device.
pub struct EndpointRequest {
    pub process_id: u32,
    pub flow: i32,
    pub role: i32,
}

/// The per-application endpoint request for `process_id` and `device_id`: none for an
/// empty device id or for the system sounds session (process 0), else one for playback
/// in the multimedia role.
pub fn app_endpoint_request(process_id: u32, device_id: &str) -> (r: Option<EndpointRequest>)
    ensures
        match r {
            Some(q) => device_id@.len() > 0 && process_id != 0 && q.process_id == process_id
                && q.flow == FLOW_RENDER && q.role == ROLE_MULTIMEDIA,
            None => device_id@.len() == 0 || process_id == 0,
        },
{
    if device_id.is_empty() || process_id == 0 {
        return None;
    }
    Some(EndpointRequest { process_id, flow: FLOW_RENDER, role: ROLE_MULTIMEDIA })
}

/// The entry of the audio policy factory through which an endpoint is set.
#[derive(PartialEq, Eq, Structural, Clone, Copy, Debug)]
pub enum EndpointSlot {
    /// `SetPersistedDefaultAudioEndpoint` (newer Windows 11 builds).
    Persisted,
    /// `SetAppDefaultEndpoint` (older Windows 11 builds).
    AppDefault,
}

/// The entry tried first.
pub fn first_endpoint_slot() -> (s: EndpointSlot)
    ensures
        s == EndpointSlot::Persisted,
{
    EndpointSlot::Persisted
}

/// The entry to try after `slot` returned, failing or not: the older entry only after
/// the newer one failed; nothing after that.
pub fn next_endpoint_slot(slot: EndpointSlot, failed: bool) -> (next: Option<EndpointSlot>)
    ensures
        next == (if slot == EndpointSlot::Persisted && failed {
            Some(EndpointSlot::AppDefault)
        } else {
            None
        }),
{
    match slot {
        EndpointSlot::Persisted => if failed {
            Some(EndpointSlot::AppDefault)
        } else {
            None
        },
        EndpointSlot::AppDefault => None,
    }
}

} // verus!
