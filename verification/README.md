# quota_float

A desktop widget that shows how much of the Codex quota is left: the
five-hour and weekly windows of a signed-in Codex account, or the balance of
an API provider configured for Codex (directly, through CC Switch or through
Codex++).

The library under `src/` is verified with Verus. It holds the logic:

- `json`, `text`, `toml`, `order`: the document model (JSON text and bytes
  are parsed with `serde_json` into it) and the string, TOML and ordering
  helpers the readers are built on;
- `quota`: reading usage windows, reset credits and plans from the quota
  service and from the Codex app server;
- `config`, `urls`, `paths`: finding the API provider, its key and the
  balance endpoints to try;
- `balance`, `headers`, `auth`: reading balances, deciding the search over
  endpoints, the request headers and the sign-in;
- `geometry`, `tray`, `menu`: placing, docking and expanding the widget, the
  tray progress icon and the tray menu.

Each public function states its result in its `ensures`; the laws of the
library (requests stay with the configured provider, a balance is only ever
read from a balance field that no usage record such as `daily_usage` or a
request count holds, expanding and collapsing the widget returns it to its
place, and others) are public proof functions beside the code they speak of.

`app/` is the desktop program around the library: file, process and network
access, the clock, the Tauri windows and tray, and the floating-point
arithmetic of percentages and scaling. It hands the library the raw text and
bytes it reads.
