# cubos_sql

Static analysis of SQL for PostgreSQL: which parameters a query takes, which columns it
gives, and which of either may be null, without a server.

`src/` is the verified library.

- `lexer`, `param`, `query`: query templates (`$name`, `$name?`, `$..row { a, b }`) and what
  their analysis gives.
- `pg_catalog`, `table`, `catalog`, `lookup`, `seed`, `oid`, `encoding`: the catalog, its rows and
  names, and its stored form.
- `ddl`: schema statements, applied to the catalog.
- `expr`, `infer`, `functions`, `coerce`, `nullability`, `grouping`, `scope`, `param_collector`:
  the type and nullability of expressions.
- `introspect`, `export`, `type_map`, `sanity`: what a live server says, read and compared.
- `migrate`, `values`, `failure`, `error`, `diagnostic`: migrations, values, errors and messages.
- `lexer_laws`, `catalog_laws`, `seed_laws`, `infer_laws`, `ddl::laws`, `ddl::view_laws`,
  `ddl::consistency`, `ddl::steps`, `ddl::origin`: what holds of several operations together.

`app/` connects the library to PostgreSQL's parser, to connections and pools, and to files.
`tests/` runs the library.
