# Codex savings core

Estimates the API-equivalent value of local Codex usage and compares the
current billing cycle with a ChatGPT/Codex plan.

`src/` is the verified library (Verus):

- `calendar` — billing cycles anchored on a day of the month, day numbers,
  the session folders a cycle scan reads.
- `timestamp` — UTC timestamps of session events.
- `json` — JSON documents read with `serde_json`, and member lookups.
- `session` — what each line of a session log means.
- `usage`, `pricing` — token counts, periods, built-in prices and exact costs
  (in units of 10^-11 USD).
- `scan` — the deltas a session bills and the periods they add up to.
- `config` — plans, settings documents, settings sent by the desktop shell,
  and the pricing tier that Codex's `config.toml` selects.
- `files`, `order` — which session files are read and in which order.
- `display`, `tray`, `snapshot` — texts, popup geometry, colours, menu
  commands, and the report of a scan.

`app/` holds what talks to the operating system: the directory walk, the
SQLite state database, the clock and time zone, the settings file, the
diagnostic command line, the C interface of the desktop shell and the Win32
tray window.
