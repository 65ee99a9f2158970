# retana

The core of the retana desktop companion, written in Verus: the text
protocol and encryption of the local proxy to the remote bridge, the local
scheduler, the machine memory file, the SSH connection state machine, the
startup retry loop and the commands the frontend invokes.

- `src/` is the verified library. Each public function states what it
  returns and how it changes its arguments; `src/laws.rs` proves the
  properties that span several functions.
- `tests/` runs the library on concrete values, with the real `sodiumoxide`,
  `hex` and `serde_json` linked.
- `app/` is the Tauri application around the library: windows, sockets,
  processes, files and the loops that perform the actions the library
  decides on.
