# phonemic

PhoneMic turns a phone into a wireless microphone for a desktop: the phone
recognizes speech, sends the text over a WebSocket on the LAN, and the desktop
types it where the cursor is.

This crate is the desktop side's logic, verified with Verus:

- `src/` — the library. Pairing codes and their constant-time check, the
  per-client failure limiter, the session registry, the pairing service and
  the `/api/pair` answer; port choice, LAN address filtering and the LAN view;
  connection URLs and pairing links (base64url) with their QR rendering;
  request routing decisions (subnet gate, bearer and subprotocol tokens,
  WebSocket upgrade and frame handling, HTTPS redirect); the rolling log,
  its diagnostics tail and report; RFC 3339 time text; keyboard injection
  planning and the per-platform keyboard state; the shell's views and
  commands. Every function carries a contract; calls into `sha2`, `hex`,
  `base64`, `subtle`, `rand`, `qrcode`, `http` and `rcgen` go through small
  wrappers whose contracts state what those crates return.
- `tests/` — tests of the library's public functions.
- `app/` — the program around it: the axum server, mDNS advertisement,
  logging, files and the async plumbing, calling the library for every
  decision.
