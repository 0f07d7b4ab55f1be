# antigravity_pulse

The logic of a Windows tray flyout for per-application audio control, as a Verus
library, with the Tauri and WASAPI shell around it in `app/`.

- `src/audio/session.rs`: what an audio session identifier says of its executable, and
  the name under which a session is listed.
- `src/audio/scan.rs`: one pass over the sessions of all output devices, listing each
  session once.
- `src/audio/cache.rs`: handles kept per process id.
- `src/audio/routing.rs`: the application-to-device routing table and its JSON file form.
- `src/audio/manager.rs`: the manager's state and decisions (listeners, meters, routing),
  with the routing laws.
- `src/audio/device.rs`: output device descriptions and UTF-16 names.
- `src/audio/policy.rs`: when and how the audio policy interfaces are called.
- `src/window.rs`: showing, hiding and placing the flyout.
- `src/autostart.rs`: the `Run` registry value.
- `src/text.rs`: character-sequence helpers and decimal notation.

`app/` does the I/O: COM and WASAPI calls, the registry, the routing file, the window,
and the float-valued volumes and peak levels.
