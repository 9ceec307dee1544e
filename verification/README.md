# forum_core

The domain core of a small discussion forum, verified with Verus, and the
native HTTP server that runs on it.

- `src/` is the library. `validation` normalizes and checks user names, e-mail
  addresses, slugs, titles and bodies; `auth` issues identifiers and session
  tokens, digests tokens and hashes passwords (through `uuid`, `sha2` and
  `argon2`); `api` holds the decisions of the HTTP handlers (refusals and their
  statuses, bearer tokens, sessions, the checks before each write); `model`
  holds the records of the HTTP interface; `text` holds the character classes,
  trimming, case folding and hexadecimal text the others are stated with.
- `app/` is the server: Axum routes over PostgreSQL (`sqlx`) with Redis as a
  cache of session hints. It reads requests, calls the library, and stores and
  answers. It reads its migrations from `migrations/postgres` at startup.
- `tests/` runs the library on concrete values.
