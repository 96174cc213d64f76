# seekwel

A small SQLite library for Rust built around typed models, whose rules are verified with
Verus.

## Layout

- `src/` — the verified library:
  - `sql/` renders the statements for model tables (`INSERT`, `UPDATE`, `DELETE`,
    `CREATE TABLE`, `SELECT` and `COUNT` with filters, ordering and paging);
  - `model/` holds model metadata, typed comparisons and query expressions, query plans
    and the lazy and chunked cursors, `BelongsTo` and has-many scoping, validation
    errors, builders and form parameters;
  - `model_macro/` holds the rules of the model macros: which declarations they accept
    (`#[seekwel::model]`, `#[derive(Model)]` and the plain derive), the table, column and
    handler names they derive, which field stands behind each generated column, bound
    value and row index, and the source text of the generated items (the `Model`,
    `ModelRecord`, `InvalidModel`, `PersistedModel` and `NewModel` impls, the column enum,
    the builder, the params structs, the association accessors and the registry entry,
    and what the plain derive generates). The macros also run from the text of their
    input: `syn` parses the struct, its fields, types and attribute metas one level at a
    time, and verified code turns the parts into the syntax the rules read, splits the
    `key = value` argument lists and returns the generated source text or the refusal.
    Turning that text into tokens, and the `proc_macro` entry points themselves, belong
    to a proc-macro crate, which this library does not contain. The generated items name
    the runtime's query trait (`seekwel::model::QueryDsl`); its methods return
    iterators, which this library does not implement, so `app/` offers the same query
    operations as free functions and the generated text needs a runtime that defines
    that trait;
  - `schema/` keeps the live tables in name order, compares a desired schema with them,
    plans and checks migrations, renders their statements, and reads and writes the
    schema history text;
  - `connection.rs` holds the query log, statement normalization, savepoint naming and
    the step function that decides a transaction's statements (begin, commit, rollback,
    savepoint release) from what the body and each statement gave;
  - `text.rs` holds the character-level building blocks the renderers share.
- `app/` — the runtime around it: the process-wide SQLite connection and the loop that
  drives its transactions, statement execution and row decoding, schema introspection and applying
  plans, the model registry, and serde decoding of form parameters.
- `tests/` — tests of the library on concrete values.
