# nanofile_service

The service layer of the Nanofile file server, as a library whose decisions
are proved with Verus: who may do what, how credentials, tokens and
passwords are minted and checked, how libraries are encrypted, how file
operations edit directories, how mail is rendered and scheduled, how the
full-text index walks its work, and how a wiki's navigation tree is edited.

## Layout

- `src/` — the verified library. Every module is Verus code; calls into
  outside crates (hashing, HMAC, PBKDF2, AES, base64, hex, UUIDs, time,
  randomness, `lettre` addresses and messages, `totp-rs`) go through small
  trusted wrappers whose contracts say what those crates do.
- `src/mail/` — outbound mail: settings, rendering, message building, the
  transport plan, the retry schedule and notification decisions.
- `tests/` — ordinary Rust tests of the library, run against the real
  outside crates.
- `app/` — plain Rust around the library: JSON in and out, serde copies of
  response types, blocking password work moved off the async executor, and
  the one floating-point figure (the space-usage percentage).

Storage, HTTP handling and the database layer the services run against are
not part of this crate: where a service alternates storage calls and
decisions, the decisions are library functions (or small state machines,
such as `sync_token::SyncTokenResolution` and `admin::PathWalk`) that the
caller drives.
