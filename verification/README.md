# nostr_sync

The configuration, relay-list handling and user registry of a nostr sync
service, verified with Verus.

- `src/` is the library. `config` resolves the service's configuration from
  the configuration file's settings and the environment's overrides;
  `relay` reads comma separated relay lists into sets of relay URLs (parsed
  by the `nostr` crate); `state` holds the registry of public keys being
  synchronised; `router` decides what the web interface answers to the
  add-user form and to internal errors; `text` splits and trims strings;
  `assoc` relates lists of key/value pairs to maps.
- `app/` is the program around it: reading the environment and the
  configuration file, the web server (axum, askama) and the syncer
  (nostr-sdk).
- `tests/` exercises the library on concrete values.
