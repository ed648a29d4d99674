# uniclipboard

Keeps the clipboards of several devices in step: each node serves a websocket
endpoint, connects to the devices it knows (or to a configured peer), passes
device lists on, and relays clipboard text and images.

## Layout

- `src/` — the library, verified with Verus. Each public function states its
  result in `ensures`; the `law_*` proof functions state what holds across calls.
  - `device`, `device_table`, `device_manager`: devices, their stored rows and the
    registry (add, merge, status changes, selections).
  - `sync`: the device-to-device protocol's decisions (what to connect to,
    which device lists to pass on and to whom, registrations, health checks).
  - `message`, `clipboard`, `monitor`: payloads, clipboard conversion, and the
    clipboard watcher's state.
  - `config`, `cli`, `context`: configuration defaults and completion, the
    wizard's rules.
  - `digest`, `encrypt`, `utils`, `text`: SHA-256/hex, AES-256-GCM, address
    checks and device ids, string helpers.
  - `webdav`, `response`, `errors`: WebDAV upload paths and polling decisions,
    API answers.
- `tests/` — tests of the library.
- `app/` — the program: command line, configuration file, SQLite storage of the
  registry, websocket client and server, the system clipboard, and the loop
  that runs them.
