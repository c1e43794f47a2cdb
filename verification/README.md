# danmu_tools

The verified core of DanmuTools, a translucent always-on-top overlay that
shows the danmaku (bullet comments) and super chats of a Bilibili live room.

- `src/` is the library, verified with Verus:
  - `store.rs`, `store_model.rs`, `store_laws.rs`, `viewport.rs`: the message
    store behind the main list and the per-sender panel, its mathematical
    model, and the properties proved of it: read marks, viewport movement and
    row counts, the capacity limits, messages of other senders leaving the
    person panel alone, and the clicked message staying visible in the person
    panel while it is neither hovered nor scrolled by hand (for a store that
    keeps at least one id per sender), with the invariant every operation
    keeps.
  - `models.rs`: validation of incoming records into messages.
  - `protocol.rs`: the Bilibili live packet format (framing, slicing,
    zlib/brotli unpacking, room-enter and heartbeat packets).
  - `json.rs`, `events.rs`: the JSON model and how danmaku and super-chat
    notifications are read from it.
  - `connect.rs`: the connect API's reply, its URL rules and its cache.
  - `link.rs`: the status line and retry decisions of the connection loop.
  - `probe.rs`: the samples and report of a live-room probe.
  - `app_config.rs`, `runtime.rs`, `tray.rs`: settings rules, the running
    state and the tray menu.
- `tests/` runs the library on concrete inputs.
- `app/` is the Tauri application around the library: windows, tray,
  commands, the settings file, HTTP and WebSocket I/O.
