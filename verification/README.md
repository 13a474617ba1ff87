# clomonitor_router

The router of the CLOMonitor API server, verified with Verus.

- `src/router.rs`: the table of routes, and `setup`, which builds the site from
  the settings, the index page and the handlers.
- `src/auth.rs`, `src/cache.rs`, `src/paths.rs`, `src/templates.rs`: basic
  authentication, cache durations, where the files are, the index template.
- `src/page.rs`: what in a page the templates cannot take.
- `src/site.rs`, `src/pattern.rs`, `src/matching.rs`, `src/table.rs`: what a
  router holds, told in plain values; which path patterns fit together; which
  paths they take; the facts of the patterns of the site.
- `src/laws.rs`: what holds of the site as a whole.
- `src/web.rs`, `src/settings.rs`: the calls into `axum`, `tower-http` and
  `config`, with what is taken for granted of them (those into `tera` are in
  `src/templates.rs`). `http-body` is there to declare a type of `axum`'s.
- `app/`: reads the index page from disk, and reports errors.
