//! What copies of plans agree in.
use crate::ast::Expr;
use crate::plan::{NonFromClauseSubquery, SelectPlan, SubqueryState, Table, TableReferences};
use crate::plan_copy::{column_shape, joined_shape, outer_shape, table_shape, table_tree, trees_of};
use vstd::prelude::*;

verus! {

/// Two tables are the same, but that the plans inside them are copies of each other.
pub open spec fn same_table(a: Table, b: Table) -> bool {
    match (a, b) {
        (Table::BTree(x), Table::BTree(y)) => x == y,
        (Table::Virtual(x), Table::Virtual(y)) => x == y,
        (Table::FromClauseSubquery(x), Table::FromClauseSubquery(y)) => {
            &&& x.name == y.name
            &&& x.columns == y.columns
            &&& x.result_columns_start_reg == y.result_columns_start_reg
            &&& (*x.plan)@ == (*y.plan)@
        },
        (Table::RecursiveCte(x), Table::RecursiveCte(y)) => x == y,
        _ => false,
    }
}

/// Two expressions that may be missing are copies of each other.
pub open spec fn same_option(a: Option<Box<Expr>>, b: Option<Box<Expr>>) -> bool {
    match (a, b) {
        (Some(x), Some(y)) => (*x)@ == (*y)@,
        (None, None) => true,
        _ => false,
    }
}

/// Two lists of expressions are copies of each other.
pub open spec fn same_list(a: Seq<Expr>, b: Seq<Expr>) -> bool {
    &&& a.len() == b.len()
    &&& forall|i: int| 0 <= i < a.len() ==> (#[trigger] a[i])@ == b[i]@
}

/// Two subqueries are the same, but that the plans inside them are copies of each other.
pub open spec fn same_subquery(a: NonFromClauseSubquery, b: NonFromClauseSubquery) -> bool {
    &&& a.internal_id == b.internal_id
    &&& a.query_type == b.query_type
    &&& a.correlated == b.correlated
    &&& match (a.state, b.state) {
        (SubqueryState::Evaluated, SubqueryState::Evaluated) => true,
        (
            SubqueryState::Unevaluated { plan: Some(x) },
            SubqueryState::Unevaluated { plan: Some(y) },
        ) => (*x)@ == (*y)@,
        (
            SubqueryState::Unevaluated { plan: None },
            SubqueryState::Unevaluated { plan: None },
        ) => true,
        _ => false,
    }
}

/// The tables of two plans agree one by one.
pub open spec fn same_tables(a: TableReferences, b: TableReferences) -> bool {
    &&& a.joined_tables@.len() == b.joined_tables@.len()
    &&& forall|i: int|
        0 <= i < a.joined_tables@.len() ==> {
            let x = #[trigger] a.joined_tables@[i];
            let y = b.joined_tables@[i];
            &&& x.op == y.op
            &&& same_table(x.table, y.table)
            &&& x.identifier == y.identifier
            &&& x.internal_id == y.internal_id
            &&& x.col_used_mask@ == y.col_used_mask@
            &&& x.utilizes_covering_index == y.utilizes_covering_index
            &&& x.database_id == y.database_id
        }
    &&& a.outer_query_refs@.len() == b.outer_query_refs@.len()
    &&& forall|i: int|
        0 <= i < a.outer_query_refs@.len() ==> {
            let x = #[trigger] a.outer_query_refs@[i];
            let y = b.outer_query_refs@[i];
            &&& same_table(x.table, y.table)
            &&& x.identifier == y.identifier
            &&& x.internal_id == y.internal_id
            &&& x.col_used_mask@ == y.col_used_mask@
        }
}

/// Two plans agree in everything, the plans inside them being copies of each other.
pub open spec fn same_plan(a: SelectPlan, b: SelectPlan) -> bool {
    &&& same_tables(a.table_references, b.table_references)
    &&& a.result_columns@.len() == b.result_columns@.len()
    &&& forall|i: int|
        0 <= i < a.result_columns@.len() ==> {
            let x = #[trigger] a.result_columns@[i];
            let y = b.result_columns@[i];
            x.expr@ == y.expr@ && x.name == y.name && x.collation == y.collation
        }
    &&& a.where_clause@.len() == b.where_clause@.len()
    &&& forall|i: int|
        0 <= i < a.where_clause@.len() ==> (#[trigger] a.where_clause@[i]).expr@
            == b.where_clause@[i].expr@
    &&& match (a.group_by, b.group_by) {
        (Some(x), Some(y)) => same_list(x.exprs@, y.exprs@) && match (x.having, y.having) {
            (Some(h), Some(k)) => same_list(h@, k@),
            (None, None) => true,
            _ => false,
        },
        (None, None) => true,
        _ => false,
    }
    &&& a.order_by@.len() == b.order_by@.len()
    &&& forall|i: int|
        0 <= i < a.order_by@.len() ==> (*(#[trigger] a.order_by@[i]).0)@ == (*b.order_by@[i].0)@
            && a.order_by@[i].1 == b.order_by@[i].1
    &&& same_option(a.limit, b.limit)
    &&& same_option(a.offset, b.offset)
    &&& a.query_destination == b.query_destination
    &&& a.non_from_clause_subqueries@.len() == b.non_from_clause_subqueries@.len()
    &&& forall|i: int|
        0 <= i < a.non_from_clause_subqueries@.len() ==> same_subquery(
            #[trigger] a.non_from_clause_subqueries@[i],
            b.non_from_clause_subqueries@[i],
        )
}

/// Tables with the same shape and the same plan inside are the same.
pub proof fn copied_tables_agree(a: Table, b: Table)
    requires
        table_shape(a) == table_shape(b),
        table_tree(a) == table_tree(b),
    ensures
        same_table(a, b),
{
}

/// A plan and its copy agree in everything, at any depth.
pub proof fn copied_plans_agree(a: SelectPlan, b: SelectPlan)
    requires
        a@ == b@,
    ensures
        same_plan(a, b),
{
    let s = a@.shape;
    let t = b@.shape;
    assert(s.joined_tables.len() == t.joined_tables.len());
    assert(s.outer_query_refs.len() == t.outer_query_refs.len());
    assert forall|i: int| 0 <= i < a.table_references.joined_tables@.len() implies ({
        let x = #[trigger] a.table_references.joined_tables@[i];
        let y = b.table_references.joined_tables@[i];
        &&& joined_shape(x) == joined_shape(y)
        &&& table_tree(x.table) == table_tree(y.table)
    }) by {
        assert(s.joined_tables[i] == t.joined_tables[i]);
        assert(a@.tables[i] == b@.tables[i]);
    }
    assert forall|i: int| 0 <= i < a.table_references.outer_query_refs@.len() implies ({
        let x = #[trigger] a.table_references.outer_query_refs@[i];
        let y = b.table_references.outer_query_refs@[i];
        &&& outer_shape(x) == outer_shape(y)
        &&& table_tree(x.table) == table_tree(y.table)
    }) by {
        assert(s.outer_query_refs[i] == t.outer_query_refs[i]);
        assert(a@.outer[i] == b@.outer[i]);
    }
    assert(s.result_columns.len() == t.result_columns.len());
    assert forall|i: int| 0 <= i < a.result_columns@.len() implies column_shape(
        #[trigger] a.result_columns@[i],
    ) == column_shape(b.result_columns@[i]) by {
        assert(s.result_columns[i] == t.result_columns[i]);
    }
    assert(s.where_clause.len() == t.where_clause.len());
    assert forall|i: int| 0 <= i < a.where_clause@.len() implies (
    #[trigger] a.where_clause@[i]).expr@ == b.where_clause@[i].expr@ by {
        assert(s.where_clause[i] == t.where_clause[i]);
    }
    assert(s.order_by.len() == t.order_by.len());
    assert forall|i: int| 0 <= i < a.order_by@.len() implies (*(
    #[trigger] a.order_by@[i]).0)@ == (*b.order_by@[i].0)@ && a.order_by@[i].1
        == b.order_by@[i].1 by {
        assert(s.order_by[i] == t.order_by[i]);
    }
    if a.group_by is Some {
        lists_agree(a.group_by->0.exprs@, b.group_by->0.exprs@);
        if a.group_by->0.having is Some {
            lists_agree(a.group_by->0.having->0@, b.group_by->0.having->0@);
        }
    }
    assert(s.subqueries.len() == t.subqueries.len());
    assert forall|i: int| 0 <= i < a.non_from_clause_subqueries@.len() implies same_subquery(
        #[trigger] a.non_from_clause_subqueries@[i],
        b.non_from_clause_subqueries@[i],
    ) by {
        assert(s.subqueries[i] == t.subqueries[i]);
        assert(a@.subqueries[i] == b@.subqueries[i]);
    }
}

proof fn lists_agree(a: Seq<Expr>, b: Seq<Expr>)
    ensures
        trees_of(a) == trees_of(b) ==> same_list(a, b),
{
    if trees_of(a) == trees_of(b) {
        assert(trees_of(a).len() == trees_of(b).len());
        assert forall|i: int| 0 <= i < a.len() implies (#[trigger] a[i])@ == b[i]@ by {
            assert(trees_of(a)[i] == trees_of(b)[i]);
        }
    }
}

} // verus!
