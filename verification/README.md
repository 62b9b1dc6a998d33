# mcp_vault_state

Operational state of a note vault: file identity and revisions, the operation
journal, background jobs and events, settings, credentials and OAuth grants,
providers and embeddings, the note index, and long-term memories.

`src/` holds the rules as verified functions from plain rows to plain rows:
what may be stored, claimed, published, revoked, listed or recalled, and what
the rows are afterwards. Contracts are stated over the rows themselves, and
properties that span several operations are public proof functions whose names
begin with `law_`.

`app/` holds the database: it reads rows, hands them to the rules and writes
back what they decide. Ranks of the full-text index and vector norms are
floating point numbers and stay there; in the library they are bit patterns.

`tests/` runs the rules on concrete rows and, where a rule looks at an answer
of the database, on an in-memory database.
