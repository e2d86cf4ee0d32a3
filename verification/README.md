# submora

The verified core of Submora (VSS SubStore), a multi-user link aggregator:
administrators manage subscription groups and their source links through an
HTTP API and a web console; each group's merged output is served at
`/{username}`.

`src/` is a Verus library. Its functions carry contracts and are proved by
Verus, except the small `#[verifier::external_body]` wrappers around outside
code (the system clock, random UUIDs, Argon2, `time` formatting, std's text
and address parsing, Unicode case and class tables, database error text):
Verus believes their contracts, and each one's doc comment says what it
claims of the code it calls. The modules:

- `text`, `keyed`, `text_map`: texts as character sequences, and text-keyed
  tables with distinct keys.
- `handlers`, `app_config`, `utils`: the administrator API's decisions
  (sign-in with Argon2, account updates, user names, links, orderings), its
  errors, and the settings of the single binary.
- `config`, `env`, `net`: the service settings read from environment
  variables, host overrides, and IP addresses as text.
- `limits`, `security`, `error`: sliding-window rate limits for logins and
  for the public route, client addresses behind proxies, CSRF tokens.
- `cache`, `links`, `messages`: merged-output snapshots and their freshness,
  source links as the console edits them, and the console's wording of the
  service's messages.
- `ordering`, `diagnostics`, `timestamps`: the stable listing order of fetch
  diagnostics, what the diagnostics panel shows, and timestamps in UTC.
- `console`, `drafts`, `actions`, `panels`, `shell`, `client`, `site`: the
  console's page state, link drafts, the outcome of each action, what each
  panel shows, the API client's rules, and the fallback page.

`tests/` runs the library on concrete values. `app/main.rs` is the
single-binary service (environment, logging, SQLite, sessions and HTTP): it
hands its decisions on sign-in, accounts, user names, links and orderings to
the library. The rate limiters, CSRF checks, cache status and settings of the
newer backend are library code that this binary does not use.
