# seltalk

The core of SelTalk, a chat-reply assistant: copy a message, press a hotkey,
pick one of the replies a language model proposes, and have it typed where
the cursor was.

`src/` is the library, verified with Verus:

- `text/` — cleaning of captured text, blacklist masking, splitting of the
  model's answer into candidates, word counts for the word cloud;
- `llm/` — prompt templates, request URLs and limits, answer parsing,
  server-sent-event framing, error messages;
- `orchestrator`, `state` — the session state machine with its task lock
  and watchdog;
- `capture`, `capture_flow`, `clipboard`, `focus/`, `input`, `window`,
  `hotkey`, `tray` — the decisions around capture, focus restoration,
  typing, hotkeys and the floating window, taking what the operating
  system reported as plain values;
- `db`, `config`, `security` — query building, migrations, settings and the
  stored form of secrets;
- `pattern`, `json`, `chars`, `input` — the trusted wrappers around
  `regex`, `serde_json`, `rand` (the typing delay, in `input`) and a few
  `std` string operations.

`app/` is a small command-line front end over SQLite (`rusqlite`) that uses
the library; `tests/` holds the tests.
