# sqlx_data

A toolkit for data access with SQLx, whose decisions are verified with Verus.

- `src/` is the verified library: the dynamic query parameters (filters,
  search, sorting, pagination, cursors) and the responses built from fetched
  rows; the SQL they are applied to (dynamic `WHERE`/`ORDER BY`/`LIMIT`,
  placeholder numbering); and what the `#[repo]` and `#[dml]` attributes
  decide when repository methods are expanded (scopes, named parameters,
  type-override syntax, the analysis of return and parameter types, and the
  plan of each generated query call). SQL trees come from `sqlparser`,
  pattern matching from `fancy_regex`, each behind a small trusted wrapper.
- `app/` reads `syn` syntax into the library's values, reads SQL files,
  writes the planned code back as tokens, and holds the serde forms of the
  response and cursor types.
- `tests/` runs the library on concrete values.
