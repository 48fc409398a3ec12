# audio_core

The decision logic of NoEcho's shared/private audio routing on Windows,
with contracts proved by Verus.

NoEcho hides selected applications from remote-desktop and capture tools:
ordinary applications play on a shared (virtual) output that the capture
tool records, private applications play on the physical output, and a local
monitor plays the shared output on the physical one so the user hears both.

## Layout

- `src/` — the verified library:
  - `devices`, `sessions`, `grouping`, `process`: classifying endpoints,
    describing and ordering sessions, grouping them by application family,
    and relating processes to an application;
  - `protection`: the protection engine as a state machine — activation
    plans, route plans, the snapshot that lets every change be undone, and
    the actions that undo it after a deactivation, a failed activation or
    an unexpected exit;
  - `policy`, `loopback`, `com`, `persist`, `config`, `setup`, `report`:
    endpoint assignments, capture planning, preferences, the preparation of
    the shared channel and the diagnostic report;
  - `icons`: a PNG encoder (stored zlib blocks, CRC-32, Adler-32) and data
    URLs;
  - `properties`: properties that relate several functions (deactivation
    undoes activation, a failed activation is undone, crash recovery
    restores the recorded defaults, the encoded PNG inflates back to its
    rows, …).
- `app/` — the `tech-probe` command-line program: the Windows audio, process,
  shell and file-system work, performed as the library decides.
- `tests/` — tests of the library on concrete values.
