# webdesk

WebDesk hosts web apps as desktop apps: each app gets its own window,
lifecycle hooks, CSS/JS injection, a desktop shortcut and a per-app
identity directory, and a local management API (plus a command-line
client) manages them.

## Layout

- `src/` — the verified library (Verus). It holds the rules of the
  system as functions with contracts:
  - `types`, `json` — the app configuration model and the JSON model that
    request bodies and configuration files are read through;
    `App::from_partial` reads a partial app with its defaults.
  - `store` — creation and partial-update merge rules of stored apps,
    sorting by name, the file of an app.
  - `app_state`, `keyed` — the running-app table and its snapshots.
    The table and the grants are keyed by text (app ids, app + command).
    vstd's `HashMap` specification states its facts only for keys whose
    hashing and equality it models; with `String` keys, not even the length
    after one insert could be concluded. So these maps are kept as
    `StrMap`: a `Vec` of entries with distinct keys whose view is a `Map`
    over the keys' texts.
  - `auth` — remembered command decisions per app and command.
  - `hooks` — placeholder substitution, shell invocation, batch-file rule,
    output truncation, the waiting rule and hook results.
  - `scheduler` — window labels, the launch rule, the injected script.
  - `platform` — tray menu layout and dispatch, shortcut file names.
  - `icons` — PNG/ICO/SVG recognition, the ICO container, icon URLs and
    file names.
  - `identity` — identity directories, cookie records, usable extensions.
  - `server` — session token, API configuration, start-up target, the
    command-authorization flow, partial updates, deletion and status.
  - `cli` — the client's argument forms, URL and hook-list normalisation,
    requests and response reading.
- `tests/` — tests of the library.
- `app/` — the executable around the library: disk, processes, HTTP
  (axum, reqwest), argument parsing (clap) and the window system (Tauri).
