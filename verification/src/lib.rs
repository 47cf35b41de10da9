//! Planning and emitting the subqueries of SQL queries.
//!
//! [`clauses::plan_subqueries_from_select_plan`] plans the subqueries of a query that are not in
//! its `FROM` clause, and [`nested::emit_non_from_clause_subquery`] emits one of them.
//! [`from_clause::emit_from_clause_subqueries`] emits those of the `FROM` clause, recursive common
//! table expressions among them. The rest of the query compiler is a
//! [`compiler::SelectCompiler`].
pub mod ast;
pub mod bind;
pub mod binding_laws;
pub mod children;
pub mod clause_laws;
pub mod clauses;
pub mod code_laws;
pub mod compiler;
pub mod context_laws;
pub mod copy;
pub mod copy_laws;
pub mod cte_code;
pub mod cte_laws;
pub mod cte_stages;
pub mod entry_laws;
pub mod extension_laws;
pub mod failure_laws;
pub mod from_clause;
pub mod from_laws;
pub mod growth;
pub mod machine;
pub mod mask_laws;
pub mod masks;
pub mod member_code_laws;
pub mod member_laws;
pub mod name_laws;
pub mod nested;
pub mod plan;
pub mod plan_copy;
pub mod plan_line_laws;
pub mod planner;
pub mod planning_laws;
pub mod program;
pub mod program_laws;
pub mod recursive_cte;
pub mod round_laws;
pub mod schema;
pub mod subquery_laws;
pub mod text;
pub mod tree_laws;
pub mod walk;
