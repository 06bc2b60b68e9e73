# voting-app

The rules of a voting service for student organisations (attendance,
motions and elections), written in Verus and proved against their contracts.

- `src/` is the verified library: event configuration and its checks, ballots
  and their tallies, the result report, the motion, user, organisation,
  attendance and sign-in rules, and the in-memory audit log. Each public
  function states what it returns; the laws that relate several functions
  are public proof functions (`lemma_*`).
- `tests/` runs the library on concrete values.
- `app/` is the HTTP service around it: axum routes, the sea-orm tables,
  the conversions to and from JSON and chrono, and PDF rendering with genpdf.

The tallies are `Vec<(String, usize)>` tables in which each key occurs once
(`tally::keys_distinct`), not `HashMap<String, usize>`: vstd specifies hash
maps usefully only for keys whose hashing it models, which excludes
`String`, so a vector with a stated and proved invariant keeps the counts
provable.
