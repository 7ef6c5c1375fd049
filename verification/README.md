# sahai

sahai deploys services on one Docker host: each service is an image or a docker
compose project, reached at `<name>.<domain>` through Traefik. A control plane server
keeps the services in SQLite, starts and stops them, writes Traefik's route files and
checks their health; the `sahai` command line client builds, pushes and registers
projects.

## Layout

- `src/` — the library, verified with Verus: validation of names and ports, the
  registration and update rules, compose bookkeeping, container and override plans,
  Traefik route plans, health aggregation, settings checks, the environment file,
  log line splitting, and everything the client prints. Each public function states
  its result in its `ensures`; the `lemma_*` proof functions state properties that
  span calls (what a read gives back after a write, what an operation keeps).
- `tests/` — tests of the library on concrete values.
- `app/` — the programs around the library: the HTTP server (axum, sqlx, bollard,
  the `docker` command) and the command line client (clap, reqwest). Started as
  `sahai-server` (or with `server` as first argument) it serves; otherwise it is
  the client.

Calls into outside crates that the library makes (constant-time comparison from
`subtle`, RFC 3339 parsing from `chrono`, JSON from `serde_json`, and a few std
functions) sit in small `#[verifier::external_body]` functions whose contracts are
taken on trust; the doc comment of each says what its contract claims.
