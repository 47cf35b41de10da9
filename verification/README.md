# subquery

Planning and emitting the subqueries of SQL queries, written in Verus.

A `SELECT` is compiled in two steps. First it is planned: each subquery outside the `FROM` clause
is planned on its own, and the expression that held it is replaced by the place where its result
will be found. Then it is emitted: subqueries of the `FROM` clause become coroutines, recursive
common table expressions become loops over temporary tables, and the other subqueries become
subroutines or fill an index.

The rest of the compiler is reached through the trait `SelectCompiler`, of which nothing is
assumed. The contracts say what it is asked, and what is done with each of its answers.

## Modules

- `ast`, `children`, `copy`: expressions, and the trees that stand for them in contracts.
- `plan_copy`: the trees that stand for query plans, and copies of plans.
- `text`, `schema`, `plan`, `program`, `compiler`: names, tables, query plans, the program under
  construction, and the rest of the compiler.
- `planner`, `walk`, `growth`, `masks`, `clauses`: planning.
- `bind`: binding column names to columns.
- `from_clause`, `cte_code`, `recursive_cte`, `nested`: emitting.
- `planning_laws`, `mask_laws`, `binding_laws`, `code_laws`, `extension_laws`, `plan_line_laws`,
  `member_laws`: what holds of the whole.

`app/` converts between the syntax trees of `turso_parser` and the library's expressions.
