# rok_orm

An Eloquent-style ORM core whose SQL generation is verified with Verus.

- `src/` is the verified library: the query builder (conditions, parameter
  numbering per dialect, soft deletion, joins, aggregates, JSON and full-text
  filters, CTEs and subqueries, writes and upserts), relation builders,
  cursor tokens (base64 of `{"id":N}`), mass-assignment filtering, the
  registries of connections, global scopes and observers, migration planning,
  page figures, and the steps of chunked reads. Each public function states
  its result over spec functions (results of user-implemented trait methods
  through `call_ensures`); the laws that relate several functions are public
  proof functions beside them.
- `app/` runs the library's statements through sqlx: executors per database,
  the async model traits, the process-wide registries, the migrator, and the
  async relation helpers.
- `tests/` exercises the library on concrete values.
