# bliss-guidance-playcounts

A provider addon for the guidance SPI of `bliss-playlist-optimizer`. It ranks
candidates by how often the Lyrion persist database says that they were played,
among all candidates that are eligible, and returns bounded global guidance for
each requested candidate. Unknown counts are treated as zero: a candidate that the
database does not know, or that has no digest to look it up by, ranks as one that
was never played. The optimizer weighs the guidance; the addon decides neither
eligibility nor route validity.

Its SPI provider ID is `playcount-guidance`. It is started by the optimizer, and
speaks versioned JSON lines on standard input and output:

- `describe` returns the manifest;
- `prepare` takes one `eligible-candidate-identities-v1` artifact and one read-only
  `lms-persist-sqlite-v1` resource, and freezes a snapshot of the database;
- `score` ranks each requested candidate in that snapshot;
- `close` gives the snapshot up and ends the session.

## Layout

- `src/` is the library, verified with Verus. It holds every decision: which
  queries to send, what rows amount to, what is refused and why, and the exact
  percentile of every candidate. It performs no input or output. Where it needs
  the outside, it returns a step that names what it waits for; the step's `resume`
  takes the answer.
- `src/laws/` states what holds of the library as a whole, as proof functions.
- `app/` is the program: standard input and output, the identity file, the
  database, the conversion to the SPI's types, and floating point.
- `tests/` runs the library, against SQLite where it matters.

Two items are believed without proof: that `sha2` computes SHA-256
(`artifact::sha256_digest`), and that `char::is_whitespace` knows Unicode's white
space (`text::white_space`).
