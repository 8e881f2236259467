# inappbrowser

A controllable in-app browser for a Tauri host, with its shared logic verified by Verus.

- `src/` — the verified library:
  - `controlled.rs`: the registry of browsers (id allocation, retention of closed
    browsers, interception by URL prefix, recording of URLs, waiters and what each
    is owed), with its model `RegistryView` and invariant `wf`;
  - `waiting.rs`: how a wait for an interception starts and what its ending becomes;
  - `desktop.rs`: window labels, the plan of a new window, and the effect of each
    navigation, page load and window destruction;
  - `mobile.rs`: folding the native side's event reports into the registry;
  - `urls.rs`: URL checks through the `url` crate;
  - `models.rs`, `error.rs`, `text.rs`: plain values, errors and their texts, text helpers;
  - `laws.rs`: properties that span several operations.
- `tests/` — tests of the library on concrete values.
- `app/` — the Tauri plugin around the library: setup, the lock around the registry,
  windows and native bridge, channels, timeouts and event broadcast.
