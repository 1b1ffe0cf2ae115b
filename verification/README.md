# config_cache

The cache entry that a configuration client keeps for each configuration it
follows: what was last received, who listens for changes, and who is owed a
notification.

- `src/` is the verified library.
  - `api.rs`: configurations as filters and listeners see them.
  - `listener.rs`: listener identity, the table of listeners, and the dispatch of
    notifications.
  - `filter.rs`: a pass through the filters, one step at a time.
  - `cache.rs`: the entry.
  - `laws.rs`: what holds of the entry and its listeners as a whole.
- `app/` awaits the filters, spawns the notifications, logs, and stores entries.
- `tests/` runs the library.

One function is trusted: `address_of` in `listener.rs`, which takes the address
of a listener. The address is the listener's identity; nothing is promised of
which number it is.
