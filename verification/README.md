# keystroke

Keystroke rewards students for consistent typing practice on typing.com.

The crate is verified with Verus:

- `src/` is the library, each function with its contract:
  - `json.rs`: the JSON document model and JSON-pointer navigation;
  - `numbers.rs`: decimal text of unsigned integers;
  - `text.rs`: splitting text at a character and replacing character pairs;
  - `timestamp.rs`: system-clock instants and their checked arithmetic;
  - `secrets.rs` (with `keyring.rs`): passwords kept in the platform keyring;
  - `settings.rs`: the user's settings, where the settings file is looked
    for (`settings.toml` in the working directory, else in the platform's
    configuration directory) and where it is written back;
  - `api/typing.rs`: the typing.com teacher API: requests to send and what
    the answers yield;
  - `api/typing/auth.rs`: the bearer token: when the cached one is used, how a
    fresh one is asked for and how long it is kept.
- `app/` is the program around it: HTTP requests, locks, the clock, the
  settings file, JSON text, logging.
- `tests/` exercises the library on concrete values.
