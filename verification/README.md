# lifelog

Continuous local activity log for macOS. One daemon, one SQLite database, plain
SQL as the query interface.

- `src/` is the library: the rules of lifelog, with their contracts, verified by
  Verus.
  - `sampler`, `spans`: samples, their coalescing into spans, and what the
    `spans` table then holds.
  - `server`, `delivery`: who may post events, what a request is answered, and
    what it stores.
  - `screentime`, `usage`, `db`, `paths`: where data is, what is snapshotted and
    re-scanned, and what the `screentime_usage` table then holds.
  - `mac`: conclusions from the state of the desktop.
  - `report`, `text`: the `top` report.
  - `json`, `clock`: the contracts of what is used of `serde_json` and of the
    system clock.
- `app/` is the program around it: arguments, macOS, SQLite, HTTP. The schema,
  the queries with what they select, sum, order and limit, and the conversion of
  floating-point times stand there.
- `tests/` runs the library.

`lifelog record` runs three loops: the sampler, the Screen Time ingest and the
ingest API (`127.0.0.1:5599`). A bearer token is required of those who post
events if and only if `LIFELOG_TOKEN` is set, be it to an empty value:

```
POST http://<mac>:5599/events
Authorization: Bearer $LIFELOG_TOKEN
{"kind": "app_opened", "device": "iphone", "payload": {"app": "Instagram"}}
```
