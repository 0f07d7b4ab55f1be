//! The state that the audio manager keeps between calls, and the decisions it takes on
//! it: which handles to register, where a session is routed, what a routing request
//! changes.

use vstd::prelude::*;
use crate::audio::cache::PidCache;
use crate::audio::routing::RoutingConfig;
use crate::audio::scan::SessionScan;
use crate::audio::session::{executable_name, session_name};
use crate::text::{file_name_of, last_segment};

verus! {

/// The device that a session should be moved to: the one its application is routed to,
/// where that is known and is not the device the session plays on. The system sounds
/// session (process 0) is never moved.
pub open spec fn route_change(
    routes: Map<Seq<char>, Seq<char>>,
    pid: u32,
    name: Seq<char>,
    current_device: Seq<char>,
) -> Option<Seq<char>> {
    if pid != 0 && routes.contains_key(name) && routes[name] != current_device {
        Some(routes[name])
    } else {
        None
    }
}

/// The name under which a routing request for the executable at `full_path` is kept:
/// its product name where it has one, else its file name.
pub open spec fn routing_name(full_path: Seq<char>, product_name: Option<Seq<char>>) -> Seq<char> {
    match product_name {
        Some(p) => p,
        None => last_segment(full_path, '\\'),
    }
}

/// What a routing request asks of the caller.
#[derive(PartialEq, Eq, Structural, Clone, Copy, Debug)]
pub enum RoutingPlan {
    /// Nothing: the request was for the system sounds session.
    Ignore,
    /// Move the process to the device; `persist` says whether the routing table changed
    /// and is to be written back.
    Apply { persist: bool },
}

/// A session of process `pid` needs an event listener: events can be delivered
/// (`has_app_handle`), the process is not the system sounds session, and no listener is
/// registered for it yet.
pub open spec fn listener_needed<E>(listeners: Map<u32, E>, pid: u32, has_app_handle: bool) -> bool {
    has_app_handle && pid != 0 && !listeners.contains_key(pid)
}

/// The listeners after one session's step `(pid, has_app_handle, registered)`: the
/// registered listener is kept where the session needed one.
pub open spec fn listener_step<E>(listeners: Map<u32, E>, step: (u32, bool, Option<E>)) -> Map<u32, E> {
    if listener_needed(listeners, step.0, step.1) && step.2 is Some {
        listeners.insert(step.0, step.2.unwrap())
    } else {
        listeners
    }
}

/// The listeners after a pass whose sessions made the steps `steps`, in order.
pub open spec fn listeners_after<E>(listeners: Map<u32, E>, steps: Seq<(u32, bool, Option<E>)>) -> Map<u32, E>
    decreases steps.len(),
{
    if steps.len() == 0 {
        listeners
    } else {
        listener_step(listeners_after(listeners, steps.drop_last()), steps.last())
    }
}

/// The `i`th step of a pass keeps a newly registered listener.
pub open spec fn step_registers<E>(listeners: Map<u32, E>, steps: Seq<(u32, bool, Option<E>)>, i: int) -> bool {
    listener_needed(listeners_after(listeners, steps.take(i)), steps[i].0, steps[i].1) && steps[i].2 is Some
}

/// Per-process session handles of types `E` (event listeners) and `M` (peak meters),
/// and the routing table.
pub struct AudioManager<E, M> {
    session_events: PidCache<E>,
    meter_cache: PidCache<M>,
    routing_config: RoutingConfig,
}

impl<E, M> AudioManager<E, M> {
    /// The event listener registered for each process.
    pub closed spec fn listeners(&self) -> Map<u32, E> {
        self.session_events@
    }

    /// The peak meter kept for each process.
    pub closed spec fn meters(&self) -> Map<u32, M> {
        self.meter_cache@
    }

    /// The routing table: application name to device id.
    pub closed spec fn routes(&self) -> Map<Seq<char>, Seq<char>> {
        self.routing_config@
    }

    /// The routing table's entries, in the order in which it keeps them.
    pub closed spec fn route_entries(&self) -> crate::audio::routing::RouteEntries {
        self.routing_config.entry_seq()
    }

    /// A manager with no handles and an empty routing table.
    pub fn new() -> (m: Self)
        ensures
            m.listeners() == Map::<u32, E>::empty(),
            m.meters() == Map::<u32, M>::empty(),
            m.routes() == Map::<Seq<char>, Seq<char>>::empty(),
    {
        AudioManager {
            session_events: PidCache::new(),
            meter_cache: PidCache::new(),
            routing_config: RoutingConfig::new(),
        }
    }

    /// Takes the routing table from the text of the routing file; where the text is no
    /// JSON object of strings, the table stays as it was.
    pub fn load_routing_config(&mut self, content: &str)
        ensures
            match crate::audio::routing::routing_json_entries(content@) {
                Some(es) => final(self).routes() == crate::audio::routing::entries_map(es),
                None => final(self).routes() == old(self).routes(),
            },
            final(self).listeners() == old(self).listeners(),
            final(self).meters() == old(self).meters(),
    {
        match RoutingConfig::from_json(content) {
            Some(c) => {
                self.routing_config = c;
            },
            None => {},
        }
    }

    /// The text to write to the routing file; loading it gives back the routing table.
    pub fn save_routing_config(&self) -> (text: String)
        ensures
            text@ == crate::audio::routing::routing_json_text(self.route_entries()),
            crate::audio::routing::reads_back_as(text@, self.routes()),
    {
        self.routing_config.to_json()
    }

    /// The routing table.
    pub fn routing_config(&self) -> (c: &RoutingConfig)
        ensures
            c@ == self.routes(),
    {
        &self.routing_config
    }

    /// Whether to register an event listener for a session of process `pid`: only where
    /// events can be delivered (`has_app_handle`), the process is not the system sounds
    /// session, and no listener is registered for it yet.
    pub fn needs_session_listener(&self, pid: u32, has_app_handle: bool) -> (r: bool)
        ensures
            r == listener_needed(self.listeners(), pid, has_app_handle),
    {
        has_app_handle && pid != 0 && !self.session_events.contains(pid)
    }

    /// One session's step of a pass: `registered` is the listener that was registered for
    /// a session of process `pid` (`None` where none was, or registering failed). It is
    /// kept only where the session needed one (see `listener_needed`).
    pub fn record_session_listener(&mut self, pid: u32, has_app_handle: bool, registered: Option<E>)
        ensures
            final(self).listeners() == listener_step(old(self).listeners(), (pid, has_app_handle, registered)),
            final(self).meters() == old(self).meters(),
            final(self).routes() == old(self).routes(),
    {
        if has_app_handle && pid != 0 && !self.session_events.contains(pid) {
            match registered {
                Some(listener) => {
                    self.session_events.insert(pid, listener);
                },
                None => {},
            }
        }
    }

    /// Whether a peak meter is still to be taken for process `pid`.
    pub fn needs_meter(&self, pid: u32) -> (r: bool)
        ensures
            r == !self.meters().contains_key(pid),
    {
        !self.meter_cache.contains(pid)
    }

    /// Keeps the peak meter of process `pid`.
    pub fn add_meter(&mut self, pid: u32, meter: M)
        ensures
            final(self).meters() == old(self).meters().insert(pid, meter),
            final(self).listeners() == old(self).listeners(),
            final(self).routes() == old(self).routes(),
    {
        self.meter_cache.insert(pid, meter);
    }

    /// The peak meter kept for process `pid`.
    pub fn meter(&self, pid: u32) -> (r: Option<&M>)
        ensures
            match r {
                Some(m) => self.meters().contains_key(pid) && self.meters()[pid] == *m,
                None => !self.meters().contains_key(pid),
            },
    {
        self.meter_cache.get(pid)
    }

    /// All peak meters, by process id.
    pub fn meter_cache(&self) -> (c: &PidCache<M>)
        ensures
            c@ == self.meters(),
    {
        &self.meter_cache
    }

    /// Ends a pass over the sessions: the listeners and meters of processes that the pass
    /// did not meet are dropped.
    pub fn finish_scan(&mut self, scan: &SessionScan)
        ensures
            final(self).listeners() == old(self).listeners().restrict(scan.seen_pids()),
            final(self).meters() == old(self).meters().restrict(scan.seen_pids()),
            final(self).routes() == old(self).routes(),
    {
        let seen = scan.seen_pids_set();
        self.session_events.retain_set(seen);
        self.meter_cache.retain_set(seen);
    }

    /// Drops every listener and meter.
    pub fn release(&mut self)
        ensures
            final(self).listeners() == Map::<u32, E>::empty(),
            final(self).meters() == Map::<u32, M>::empty(),
            final(self).routes() == old(self).routes(),
    {
        self.session_events.clear();
        self.meter_cache.clear();
    }

    /// The device that the session of process `pid`, listed as `name` and playing on
    /// `current_device`, is to be moved to (see `route_change`).
    pub fn routing_target(&self, pid: u32, name: &str, current_device: &str) -> (r: Option<String>)
        ensures
            r.deep_view() == route_change(self.routes(), pid, name@, current_device@),
    {
        if pid == 0 {
            return None;
        }
        match self.routing_config.get(name) {
            Some(target) => {
                let current = String::from_str(current_device);
                if target == current {
                    None
                } else {
                    Some(target)
                }
            },
            None => None,
        }
    }

    /// Routes the application of process `target_pid` to `device_id`.
    ///
    /// A request for the system sounds session (process 0) is ignored. Otherwise, where
    /// the executable path of the process is known (`full_path`), the application is
    /// recorded in the routing table under its product name (else its file name) and the
    /// table is to be saved; in every case the process is to be moved to the device.
    pub fn set_audio_routing(
        &mut self,
        target_pid: u32,
        full_path: Option<String>,
        product_name: Option<String>,
        device_id: &str,
    ) -> (plan: RoutingPlan)
        ensures
            target_pid == 0 ==> plan == RoutingPlan::Ignore && final(self).routes() == old(self).routes(),
            target_pid != 0 ==> match full_path {
                Some(p) => {
                    &&& plan == (RoutingPlan::Apply { persist: true })
                    &&& final(self).routes() == old(self).routes().insert(
                        routing_name(p@, product_name.deep_view()),
                        device_id@,
                    )
                },
                None => plan == (RoutingPlan::Apply { persist: false }) && final(self).routes()
                    == old(self).routes(),
            },
            final(self).listeners() == old(self).listeners(),
            final(self).meters() == old(self).meters(),
    {
        if target_pid == 0 {
            return RoutingPlan::Ignore;
        }
        match full_path {
            Some(path) => {
                let name = match product_name {
                    Some(p) => p,
                    None => file_name_of(path.as_str()),
                };
                self.routing_config.insert(name, String::from_str(device_id));
                RoutingPlan::Apply { persist: true }
            },
            None => RoutingPlan::Apply { persist: false },
        }
    }
}

/// Reading the routing table gives back what a routing request wrote: the application
/// named is routed to the new device, every other application as before.
pub proof fn lemma_route_read_after_write(
    routes: Map<Seq<char>, Seq<char>>,
    name: Seq<char>,
    device: Seq<char>,
    other: Seq<char>,
)
    ensures
        routes.insert(name, device).contains_key(name),
        routes.insert(name, device)[name] == device,
        other != name ==> (routes.insert(name, device).contains_key(other) == routes.contains_key(other)
            && routes.insert(name, device)[other] == routes[other]),
{
}

/// Once an application is routed to a device, each of its sessions (other than the system
/// sounds session) that plays elsewhere is moved there, and one that already plays there
/// is left alone; the sessions of other applications are treated as before.
pub proof fn lemma_routing_applies(
    routes: Map<Seq<char>, Seq<char>>,
    name: Seq<char>,
    device: Seq<char>,
    pid: u32,
    session: Seq<char>,
    current_device: Seq<char>,
)
    requires
        pid != 0,
    ensures
        route_change(routes.insert(name, device), pid, name, current_device) == (if current_device == device {
            None
        } else {
            Some(device)
        }),
        session != name ==> route_change(routes.insert(name, device), pid, session, current_device)
            == route_change(routes, pid, session, current_device),
{
}

/// The system sounds session is never moved, whatever the routing table says.
pub proof fn lemma_system_sounds_stay(
    routes: Map<Seq<char>, Seq<char>>,
    name: Seq<char>,
    current_device: Seq<char>,
)
    ensures
        route_change(routes, 0, name, current_device) is None,
{
}

/// A routing request for an executable reaches its sessions: where the executable has no
/// display name, its sessions are listed under the name the request was recorded under,
/// so a session of it that plays on another device is moved to the requested one.
pub proof fn lemma_routing_reaches_sessions(
    routes: Map<Seq<char>, Seq<char>>,
    pid: u32,
    full_path: Seq<char>,
    product_name: Option<Seq<char>>,
    session_display: Seq<char>,
    device: Seq<char>,
    current_device: Seq<char>,
)
    requires
        pid != 0,
        current_device != device,
    ensures
        route_change(
            routes.insert(routing_name(full_path, product_name), device),
            pid,
            session_name(pid, Some(executable_name(full_path, None, product_name)), session_display),
            current_device,
        ) == Some(device),
{
}

/// After a pass over the sessions, handles are kept only for processes that the pass met,
/// and each such handle is the one kept before.
pub proof fn lemma_scan_keeps_seen<T>(handles: Map<u32, T>, seen: Set<u32>, pid: u32)
    ensures
        handles.restrict(seen).contains_key(pid) == (handles.contains_key(pid) && seen.contains(pid)),
        handles.restrict(seen).contains_key(pid) ==> handles.restrict(seen)[pid] == handles[pid],
{
}

/// The routing file round trip: loading the text that saving a table gave makes the
/// loaded table that table (whatever table the loading manager held before).
pub proof fn lemma_save_then_load<E, M>(saved: AudioManager<E, M>, text: Seq<char>, loaded: AudioManager<E, M>)
    requires
        crate::audio::routing::reads_back_as(text, saved.routes()),
        match crate::audio::routing::routing_json_entries(text) {
            Some(es) => loaded.routes() == crate::audio::routing::entries_map(es),
            None => true,
        },
    ensures
        loaded.routes() == saved.routes(),
{
}

proof fn lemma_after_take_step<E>(l0: Map<u32, E>, steps: Seq<(u32, bool, Option<E>)>, i: int)
    requires
        0 <= i < steps.len(),
    ensures
        listeners_after(l0, steps.take(i + 1)) == listener_step(listeners_after(l0, steps.take(i)), steps[i]),
{
    assert(steps.take(i + 1).drop_last() =~= steps.take(i));
    assert(steps.take(i + 1).last() == steps[i]);
}

proof fn lemma_pass_keeps<E>(l0: Map<u32, E>, steps: Seq<(u32, bool, Option<E>)>, p: u32)
    requires
        l0.contains_key(p),
    ensures
        listeners_after(l0, steps).contains_key(p),
        listeners_after(l0, steps)[p] == l0[p],
    decreases steps.len(),
{
    if steps.len() > 0 {
        lemma_pass_keeps(l0, steps.drop_last(), p);
    }
}

proof fn lemma_pass_no_handle<E>(l0: Map<u32, E>, steps: Seq<(u32, bool, Option<E>)>)
    requires
        forall|i: int| 0 <= i < steps.len() ==> !(#[trigger] steps[i]).1,
    ensures
        listeners_after(l0, steps) == l0,
    decreases steps.len(),
{
    if steps.len() > 0 {
        let t = steps.drop_last();
        assert forall|i: int| 0 <= i < t.len() implies !(#[trigger] t[i]).1 by {
            assert(t[i] == steps[i]);
        }
        lemma_pass_no_handle(l0, t);
        assert(!steps[steps.len() - 1].1);
    }
}

proof fn lemma_pass_no_system<E>(l0: Map<u32, E>, steps: Seq<(u32, bool, Option<E>)>)
    requires
        !l0.contains_key(0),
    ensures
        !listeners_after(l0, steps).contains_key(0),
    decreases steps.len(),
{
    if steps.len() > 0 {
        lemma_pass_no_system(l0, steps.drop_last());
    }
}

proof fn lemma_prefix_keeps<E>(l0: Map<u32, E>, steps: Seq<(u32, bool, Option<E>)>, k: int, m: int, p: u32)
    requires
        0 <= k <= m <= steps.len(),
        listeners_after(l0, steps.take(k)).contains_key(p),
    ensures
        listeners_after(l0, steps.take(m)).contains_key(p),
    decreases m - k,
{
    if m > k {
        lemma_prefix_keeps(l0, steps, k, m - 1, p);
        lemma_after_take_step(l0, steps, m - 1);
    }
}

/// Over a whole pass of the sessions: the system sounds session never gets a listener;
/// without an app handle no listener is added; a process that had a listener keeps that
/// same listener (it is not registered again); and for each process at most one step
/// of the pass keeps a newly registered listener.
pub proof fn lemma_listener_pass<E>(l0: Map<u32, E>, steps: Seq<(u32, bool, Option<E>)>)
    ensures
        !l0.contains_key(0) ==> !listeners_after(l0, steps).contains_key(0),
        (forall|i: int| 0 <= i < steps.len() ==> !(#[trigger] steps[i]).1) ==> listeners_after(l0, steps) == l0,
        forall|p: u32| #[trigger] l0.contains_key(p) ==> listeners_after(l0, steps).contains_key(p)
            && listeners_after(l0, steps)[p] == l0[p],
        forall|i: int, j: int|
            0 <= i < j < steps.len() && steps[i].0 == steps[j].0 && #[trigger] step_registers(l0, steps, i)
                ==> !#[trigger] step_registers(l0, steps, j),
{
    if !l0.contains_key(0) {
        lemma_pass_no_system(l0, steps);
    }
    if forall|i: int| 0 <= i < steps.len() ==> !(#[trigger] steps[i]).1 {
        lemma_pass_no_handle(l0, steps);
    }
    assert forall|p: u32| #[trigger] l0.contains_key(p) implies listeners_after(l0, steps).contains_key(p)
        && listeners_after(l0, steps)[p] == l0[p] by {
        lemma_pass_keeps(l0, steps, p);
    }
    assert forall|i: int, j: int|
        0 <= i < j < steps.len() && steps[i].0 == steps[j].0 && #[trigger] step_registers(l0, steps, i)
        implies !#[trigger] step_registers(l0, steps, j) by {
        lemma_after_take_step(l0, steps, i);
        lemma_prefix_keeps(l0, steps, i + 1, j, steps[i].0);
    }
}

/// A routing request is recorded under the product name of the executable where it has
/// one, else under the end of its path after the last backslash.
pub proof fn lemma_routing_name(full_path: Seq<char>, product: Seq<char>)
    ensures
        routing_name(full_path, Some(product)) == product,
        !routing_name(full_path, None).contains('\\'),
        routing_name(full_path, None) == full_path.skip(full_path.len() - routing_name(full_path, None).len()),
{
    crate::text::lemma_last_segment_shape(full_path, '\\');
}

} // verus!
