# rn-site

The site server's core, verified with Verus.

- `src/` is the library. Every function in it carries a contract that Verus
  proves: the configuration rules, the cluster topology read from the
  environment, the migration history and its integrity check, the `admin`
  command line and the refusals around backup and restore, the asset path
  rules and byte ranges, the cache and deadline policy for every path, the
  session cookie, the redirect target after sign-in, the `/auth` form state,
  the whoami tiers, the query parameters, platform statements and audit
  filters of the API, and the changes a subscription is sent when a result
  set moves. The public `lemma_*` proof functions state the laws that hold
  across calls (a cookie set is read back; a walk inserts parents before
  children; an edited migration is refused; a flag may stand anywhere
  between words on the line; an unchanged re-read sends nothing; and so on).
- `app/` is the process around it: the environment, hiqlite, axum, the pid
  file and the `admin` subcommand. Its decisions are the library's: which
  tables to walk, who may act, what a report says. Of the subcommand's
  actions it carries out only `wipe`; the others need the domain kernel,
  which this build does not link, and are answered as not available.
- `tests/` runs the library on concrete values.

`src/text.rs` holds the sequence vocabulary the contracts are written in
(trimming, splitting, decimal and hex renderings, lexicographic order) and
the executable helpers proved against it.
