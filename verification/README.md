# parkour_api

The verified core of a small HTTP service that keeps parkour maps, their
routes and per-player leaderboards.

- `src/` is the library, checked by Verus:
  - `slug.rs`: route slugs, with laws on their shape, content and idempotence;
  - `registry.rs`: the ordered map list and the routes of each map, map
    creation, route registration and lookup by slug, the scoreboard order,
    and snapshot/load with a round-trip law;
  - `scores.rs`: the score submission and rival recording protocols as step
    functions, with the replies they give;
  - `persistence.rs`: the save timer setting;
  - `log.rs`: console and route change journal lines (the caller reads the
    clock and prints);
  - `text.rs`: the character and string operations the rest relies on
    (Unicode lower-casing and alphanumerics from std, trimming verified).
- `app/` is the service around it: HTTP routing (warp), the SQLite score
  database (rusqlite), the scoreboard page (handlebars), the JSON route file
  and the save task (tokio, serde_json).
- `tests/` runs the library on concrete values.
