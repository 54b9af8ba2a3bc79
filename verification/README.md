# personacle

A companion application in which personas with a personality talk with the
user, with one another, or in a group; they remember what was said, and
their traits, relationships and mood change over time.

- `src/` is the verified library. It holds the rules: input checks, the
  session registry (a persona takes part in one session at a time), the
  autonomous-conversation and group-chain state machines, the choice of the
  next group speaker, prompt assembly within a budget, decoding and reading
  the model's JSON answers and its event stream (the decoding itself is
  serde_json's, behind a trusted function), the capped personality
  arithmetic, the post-processing decisions, the settings store format, and
  the export file with its import plan. Contracts state the results over
  mathematical models; where a result depends on the machine (the local date
  of a memory, the clock, random identifiers) they state its shape only.
  Laws (`law_*` proof functions) state the properties that span calls.
- `app/` is the shell: SQLite storage, the HTTP inference client, the
  asynchronous flows that carry out what the library decides, the background
  worker, the real-valued memory scoring and mood decay, and the command
  facade.
- `tests/` exercises the library on concrete values.
