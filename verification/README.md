# reviewgraphen_store

Verified resource admission, JSON ownership accounting and read-back
decisions for the descriptor-anchored SQLite derived index of a review
store.

The library (`src/`) computes on plain values and is proved with Verus:

- `limits`: coherent index limits and the handles that hold them.
- `admission`: build, query, read and serialize peaks against the working
  limit, decided before anything is allocated.
- `budget`: row, query-result and text budgets; the query budget of a
  whole snapshot.
- `preflight`: the fixed-SQL measurement of a snapshot's query result,
  proved to agree with the budget of the materialized result.
- `json_model`, `json_scan`: a JSON grammar and the allocation-free scanner
  that measures what a stored JSON cell would cost to decode.
- `ownership`: the semantic ownership charge of decoded values.
- `charge_v4`: the normative working-set accounting of a schema-v4
  projection and of a complete snapshot.
- `readback_v4`, `write_v4`: the rows a v4 image must hold, table by
  table and column by column, the values it is written with, its
  read-back, and the round trip between them.
- `select_v4`: the report selection, pairing what SQL answers with the
  retained snapshot in emission order, with its counts and coverage laws.
- `selection`, `rows`, `structure`, `connection`, `classify`, `marker_v4`,
  `candidate`, `publication`, `payload`: the decisions taken while an image is
  selected, read back, scanned, configured, classified and published;
  a publication's steps follow a verified state machine.
- `outside`: the trusted contracts of the serde_json, rusqlite and std
  calls the library makes.

`app/` holds the SQLite, descriptor and serde plumbing that feeds those
functions, and `tests/` exercises the library on concrete values.
