//! Deep copies of query plans.
use crate::ast::{Expr, ExprTree, SortOrder, SubqueryType, TableInternalId};
use crate::copy::{copy_boxed, copy_expr, copy_list};
use crate::copy_laws::{copied_plans_agree, same_plan, same_table};
use crate::plan::{
    ColumnUsedMask, FromClauseSubquery, GroupBy, JoinedTable, NonFromClauseSubquery, Operation,
    OuterQueryReference, QueryDestination, RecursiveCte, ResultSetColumn, Scan, Search, SelectPlan,
    SubqueryState, Table, TableReferences, VirtualTable, WhereTerm,
};
use crate::program::LimboError;
use crate::schema::{share, BTreeTable, CollationSeq, Column};
use std::sync::Arc;
use vstd::prelude::*;

verus! {

// ---------------------------------------------------------------------------------------------
// The mathematical model of a plan: a tree of plans, one inside the other.

/// A table, without the plan inside it.
pub enum TableShape {
    BTree(Arc<BTreeTable>),
    Virtual(Arc<VirtualTable>),
    FromClauseSubquery {
        name: String,
        columns: Arc<Vec<Column>>,
        result_columns_start_reg: Option<usize>,
    },
    RecursiveCte(Arc<RecursiveCte>),
}

/// A table of a query, without the plan inside it.
pub struct JoinedShape {
    pub op: Operation,
    pub table: TableShape,
    pub identifier: String,
    pub internal_id: TableInternalId,
    pub col_used_mask: Set<nat>,
    pub utilizes_covering_index: bool,
    pub database_id: usize,
}

/// A table of an enclosing query, without the plan inside it.
pub struct OuterShape {
    pub table: TableShape,
    pub identifier: String,
    pub internal_id: TableInternalId,
    pub col_used_mask: Set<nat>,
}

/// A result column.
pub struct ColumnShape {
    pub expr: ExprTree,
    pub name: Option<String>,
    pub collation: Result<Option<CollationSeq>, LimboError>,
}

/// A `GROUP BY` clause.
pub struct GroupShape {
    pub exprs: Seq<ExprTree>,
    pub having: Option<Seq<ExprTree>>,
}

/// A subquery, without the plan inside it.
pub struct SubqueryShape {
    pub internal_id: TableInternalId,
    pub query_type: SubqueryType,
    pub evaluated: bool,
    pub correlated: bool,
}

/// A plan, without the plans inside it.
pub struct PlanShape {
    pub joined_tables: Seq<JoinedShape>,
    pub outer_query_refs: Seq<OuterShape>,
    pub result_columns: Seq<ColumnShape>,
    pub where_clause: Seq<ExprTree>,
    pub group_by: Option<GroupShape>,
    pub order_by: Seq<(ExprTree, SortOrder)>,
    pub limit: Option<ExprTree>,
    pub offset: Option<ExprTree>,
    pub query_destination: QueryDestination,
    pub subqueries: Seq<SubqueryShape>,
}

/// A plan with the plans inside it: for each table, each table of an enclosing query and each
/// subquery the one it has, if any.
pub struct PlanTree {
    pub shape: PlanShape,
    pub tables: Seq<Option<PlanTree>>,
    pub outer: Seq<Option<PlanTree>>,
    pub subqueries: Seq<Option<PlanTree>>,
}

/// A table, without the plan inside it.
pub open spec fn table_shape(t: Table) -> TableShape {
    match t {
        Table::BTree(t) => TableShape::BTree(t),
        Table::Virtual(t) => TableShape::Virtual(t),
        Table::FromClauseSubquery(t) => TableShape::FromClauseSubquery {
            name: t.name,
            columns: t.columns,
            result_columns_start_reg: t.result_columns_start_reg,
        },
        Table::RecursiveCte(t) => TableShape::RecursiveCte(t),
    }
}

/// A table of a query, without the plan inside it.
pub open spec fn joined_shape(t: JoinedTable) -> JoinedShape {
    JoinedShape {
        op: t.op,
        table: table_shape(t.table),
        identifier: t.identifier,
        internal_id: t.internal_id,
        col_used_mask: t.col_used_mask@,
        utilizes_covering_index: t.utilizes_covering_index,
        database_id: t.database_id,
    }
}

/// A table of an enclosing query, without the plan inside it.
pub open spec fn outer_shape(t: OuterQueryReference) -> OuterShape {
    OuterShape {
        table: table_shape(t.table),
        identifier: t.identifier,
        internal_id: t.internal_id,
        col_used_mask: t.col_used_mask@,
    }
}

/// A result column.
pub open spec fn column_shape(c: ResultSetColumn) -> ColumnShape {
    ColumnShape { expr: c.expr@, name: c.name, collation: c.collation }
}

/// The trees of some expressions.
pub open spec fn trees_of(exprs: Seq<Expr>) -> Seq<ExprTree> {
    exprs.map_values(|e: Expr| e@)
}

/// A `GROUP BY` clause.
pub open spec fn group_shape(g: GroupBy) -> GroupShape {
    GroupShape {
        exprs: trees_of(g.exprs@),
        having: match g.having {
            Some(having) => Some(trees_of(having@)),
            None => None,
        },
    }
}

/// A subquery, without the plan inside it.
pub open spec fn subquery_shape(s: NonFromClauseSubquery) -> SubqueryShape {
    SubqueryShape {
        internal_id: s.internal_id,
        query_type: s.query_type,
        evaluated: s.state is Evaluated,
        correlated: s.correlated,
    }
}

/// The tree of an expression that may be missing.
pub open spec fn optional_tree_of(e: Option<Box<Expr>>) -> Option<ExprTree> {
    match e {
        Some(e) => Some((*e)@),
        None => None,
    }
}

/// A plan, without the plans inside it.
pub open spec fn plan_shape(p: SelectPlan) -> PlanShape {
    PlanShape {
        joined_tables: p.table_references.joined_tables@.map_values(
            |t: JoinedTable| joined_shape(t),
        ),
        outer_query_refs: p.table_references.outer_query_refs@.map_values(
            |t: OuterQueryReference| outer_shape(t),
        ),
        result_columns: p.result_columns@.map_values(|c: ResultSetColumn| column_shape(c)),
        where_clause: p.where_clause@.map_values(|w: WhereTerm| w.expr@),
        group_by: match p.group_by {
            Some(group_by) => Some(group_shape(group_by)),
            None => None,
        },
        order_by: p.order_by@.map_values(|o: (Box<Expr>, SortOrder)| ((*o.0)@, o.1)),
        limit: optional_tree_of(p.limit),
        offset: optional_tree_of(p.offset),
        query_destination: p.query_destination,
        subqueries: p.non_from_clause_subqueries@.map_values(
            |s: NonFromClauseSubquery| subquery_shape(s),
        ),
    }
}

/// The plan inside a table.
pub open spec fn table_plan(t: Table) -> Option<SelectPlan> {
    match t {
        Table::FromClauseSubquery(subquery) => Some(*subquery.plan),
        _ => None,
    }
}

/// The plan inside a subquery.
pub open spec fn subquery_plan(s: NonFromClauseSubquery) -> Option<SelectPlan> {
    match s.state {
        SubqueryState::Unevaluated { plan: Some(plan) } => Some(*plan),
        _ => None,
    }
}

/// A table is smaller than the plan it stands in.
pub proof fn table_decreases(p: SelectPlan, i: int)
    requires
        0 <= i < p.table_references.joined_tables@.len(),
    ensures
        decreases_to!(p => p.table_references.joined_tables@[i].table),
{
    let t = p.table_references.joined_tables@[i];
    assert(decreases_to!(p => p.table_references));
    assert(decreases_to!(p.table_references => p.table_references.joined_tables@));
    assert(decreases_to!(p.table_references.joined_tables@ => t));
    assert(decreases_to!(t => t.table));
}

/// A table of an enclosing query is smaller than the plan it stands in.
pub proof fn outer_decreases(p: SelectPlan, i: int)
    requires
        0 <= i < p.table_references.outer_query_refs@.len(),
    ensures
        decreases_to!(p => p.table_references.outer_query_refs@[i].table),
{
    let t = p.table_references.outer_query_refs@[i];
    assert(decreases_to!(p => p.table_references));
    assert(decreases_to!(p.table_references => p.table_references.outer_query_refs@));
    assert(decreases_to!(p.table_references.outer_query_refs@ => t));
    assert(decreases_to!(t => t.table));
}

/// The plan inside a table is smaller than the table.
pub proof fn table_plan_decreases(t: Table)
    requires
        table_plan(t) is Some,
    ensures
        decreases_to!(t => table_plan(t)->0),
{
    assert(decreases_to!(t => t->FromClauseSubquery_0));
    assert(decreases_to!(t->FromClauseSubquery_0 => *t->FromClauseSubquery_0.plan));
}

/// The plan inside a subquery is smaller than the plan around it.
pub proof fn subquery_plan_decreases(p: SelectPlan, i: int)
    requires
        0 <= i < p.non_from_clause_subqueries@.len(),
        subquery_plan(p.non_from_clause_subqueries@[i]) is Some,
    ensures
        decreases_to!(p => subquery_plan(p.non_from_clause_subqueries@[i])->0),
{
    let s = p.non_from_clause_subqueries@[i];
    assert(decreases_to!(p => p.non_from_clause_subqueries@));
    assert(decreases_to!(p.non_from_clause_subqueries@ => s));
    assert(decreases_to!(s => s.state));
    assert(decreases_to!(s.state => s.state->plan));
    assert(decreases_to!(s.state->plan => *(s.state->plan->0)));
}

/// A plan with the plans inside it.
pub open spec fn plan_tree(p: SelectPlan) -> PlanTree
    decreases p,
{
    let joined = p.table_references.joined_tables@;
    let outer = p.table_references.outer_query_refs@;
    let subqueries = p.non_from_clause_subqueries@;
    proof {
        assert forall|i: int|
            0 <= i < joined.len() && table_plan(
                (#[trigger] joined[i]).table,
            ) is Some implies decreases_to!(p => table_plan(joined[i].table)->0) by {
            table_decreases(p, i);
            table_plan_decreases(joined[i].table);
        }
        assert forall|i: int|
            0 <= i < outer.len() && table_plan(
                (#[trigger] outer[i]).table,
            ) is Some implies decreases_to!(p => table_plan(outer[i].table)->0) by {
            outer_decreases(p, i);
            table_plan_decreases(outer[i].table);
        }
        assert forall|i: int|
            0 <= i < subqueries.len() && subquery_plan(
                #[trigger] subqueries[i],
            ) is Some implies decreases_to!(p => subquery_plan(subqueries[i])->0) by {
            subquery_plan_decreases(p, i);
        }
    }
    PlanTree {
        shape: plan_shape(p),
        tables: Seq::new(
            joined.len(),
            |i: int|
                if 0 <= i < joined.len() && table_plan(joined[i].table) is Some {
                    Some(plan_tree(table_plan(joined[i].table)->0))
                } else {
                    None
                },
        ),
        outer: Seq::new(
            outer.len(),
            |i: int|
                if 0 <= i < outer.len() && table_plan(outer[i].table) is Some {
                    Some(plan_tree(table_plan(outer[i].table)->0))
                } else {
                    None
                },
        ),
        subqueries: Seq::new(
            subqueries.len(),
            |i: int|
                if 0 <= i < subqueries.len() && subquery_plan(subqueries[i]) is Some {
                    Some(plan_tree(subquery_plan(subqueries[i])->0))
                } else {
                    None
                },
        ),
    }
}

impl View for SelectPlan {
    type V = PlanTree;

    open spec fn view(&self) -> PlanTree {
        plan_tree(*self)
    }
}

/// The plan inside a table, with the plans inside it.
pub open spec fn table_tree(t: Table) -> Option<PlanTree> {
    match table_plan(t) {
        Some(plan) => Some(plan@),
        None => None,
    }
}

/// What there is to know of an [`OuterQueryReference`].
pub struct OuterQueryReferenceView {
    pub table: TableShape,
    /// The plan inside the table, if there is one.
    pub plan: Option<PlanTree>,
    pub identifier: String,
    pub internal_id: TableInternalId,
    pub col_used_mask: Set<nat>,
}

impl View for OuterQueryReference {
    type V = OuterQueryReferenceView;

    open spec fn view(&self) -> OuterQueryReferenceView {
        OuterQueryReferenceView {
            table: table_shape(self.table),
            plan: table_tree(self.table),
            identifier: self.identifier,
            internal_id: self.internal_id,
            col_used_mask: self.col_used_mask@,
        }
    }
}

/// A plan whose rows go somewhere else.
pub open spec fn directed(t: PlanTree, query_destination: QueryDestination) -> PlanTree {
    PlanTree { shape: PlanShape { query_destination, ..t.shape }, ..t }
}

/// Where the rows of a plan go has no part in the rest of it.
pub proof fn directed_plan(plan: SelectPlan, query_destination: QueryDestination)
    ensures
        (SelectPlan { query_destination, ..plan })@ == directed(plan@, query_destination),
{
    let other = SelectPlan { query_destination, ..plan };
    assert(other@.tables =~= plan@.tables);
    assert(other@.outer =~= plan@.outer);
    assert(other@.subqueries =~= plan@.subqueries);
}

// ---------------------------------------------------------------------------------------------
// Copies.

impl Clone for Operation {
    fn clone(&self) -> (r: Self)
        ensures
            r == *self,
    {
        match self {
            Operation::Scan(Scan::BTreeTable { index }) => Operation::Scan(
                Scan::BTreeTable {
                    index: match index {
                        Some(index) => Some(share(index)),
                        None => None,
                    },
                },
            ),
            Operation::Scan(Scan::VirtualTable) => Operation::Scan(Scan::VirtualTable),
            Operation::Scan(Scan::Subquery) => Operation::Scan(Scan::Subquery),
            Operation::Scan(Scan::RecursiveCte) => Operation::Scan(Scan::RecursiveCte),
            Operation::Search(Search::RowidEq) => Operation::Search(Search::RowidEq),
            Operation::Search(Search::Seek { index }) => Operation::Search(
                Search::Seek {
                    index: match index {
                        Some(index) => Some(share(index)),
                        None => None,
                    },
                },
            ),
            Operation::IndexMethodQuery { method_name } => Operation::IndexMethodQuery {
                method_name: method_name.clone(),
            },
            Operation::HashJoin => Operation::HashJoin,
        }
    }
}

impl Clone for QueryDestination {
    fn clone(&self) -> (r: Self)
        ensures
            r == *self,
    {
        match self {
            QueryDestination::ResultRows => QueryDestination::ResultRows,
            QueryDestination::CoroutineYield { yield_reg, coroutine_implementation_start } => {
                QueryDestination::CoroutineYield {
                    yield_reg: *yield_reg,
                    coroutine_implementation_start: *coroutine_implementation_start,
                }
            },
            QueryDestination::EphemeralIndex { cursor_id, index, is_delete } => {
                QueryDestination::EphemeralIndex {
                    cursor_id: *cursor_id,
                    index: share(index),
                    is_delete: *is_delete,
                }
            },
            QueryDestination::ExistsSubqueryResult { result_reg } => {
                QueryDestination::ExistsSubqueryResult { result_reg: *result_reg }
            },
            QueryDestination::RowValueSubqueryResult { result_reg_start, num_regs } => {
                QueryDestination::RowValueSubqueryResult {
                    result_reg_start: *result_reg_start,
                    num_regs: *num_regs,
                }
            },
            QueryDestination::Unset => QueryDestination::Unset,
        }
    }
}

impl Clone for ColumnUsedMask {
    fn clone(&self) -> (r: Self)
        ensures
            r@ == self@,
    {
        let mut r = ColumnUsedMask::default();
        r.union_with(self);
        assert(r@ =~= self@);
        r
    }
}

impl Clone for ResultSetColumn {
    fn clone(&self) -> (r: Self)
        ensures
            column_shape(r) == column_shape(*self),
    {
        ResultSetColumn {
            expr: copy_expr(&self.expr),
            name: self.name.clone(),
            collation: match &self.collation {
                Ok(collation) => Ok(*collation),
                Err(e) => Err(e.clone()),
            },
        }
    }
}

impl Clone for GroupBy {
    fn clone(&self) -> (r: Self)
        ensures
            group_shape(r) == group_shape(*self),
    {
        let exprs = copy_list(&self.exprs);
        assert(trees_of(exprs@) =~= trees_of(self.exprs@));
        let having = match &self.having {
            Some(having) => {
                let copy = copy_list(having);
                assert(trees_of(copy@) =~= trees_of(having@));
                Some(copy)
            },
            None => None,
        };
        GroupBy { exprs, having }
    }
}

fn copy_result_columns(columns: &Vec<ResultSetColumn>) -> (r: Vec<ResultSetColumn>)
    ensures
        r@.len() == columns@.len(),
        forall|i: int|
            0 <= i < columns@.len() ==> column_shape(#[trigger] r@[i]) == column_shape(columns@[i]),
{
    let mut r: Vec<ResultSetColumn> = Vec::new();
    let mut i: usize = 0;
    while i < columns.len()
        invariant
            i <= columns@.len(),
            r@.len() == i,
            forall|j: int|
                0 <= j < i ==> column_shape(#[trigger] r@[j]) == column_shape(columns@[j]),
        decreases columns@.len() - i,
    {
        r.push(columns[i].clone());
        i += 1;
    }
    r
}

fn copy_where(terms: &Vec<WhereTerm>) -> (r: Vec<WhereTerm>)
    ensures
        r@.len() == terms@.len(),
        forall|i: int| 0 <= i < terms@.len() ==> (#[trigger] r@[i]).expr@ == terms@[i].expr@,
{
    let mut r: Vec<WhereTerm> = Vec::new();
    let mut i: usize = 0;
    while i < terms.len()
        invariant
            i <= terms@.len(),
            r@.len() == i,
            forall|j: int| 0 <= j < i ==> (#[trigger] r@[j]).expr@ == terms@[j].expr@,
        decreases terms@.len() - i,
    {
        r.push(WhereTerm { expr: copy_expr(&terms[i].expr) });
        i += 1;
    }
    r
}

fn copy_order_by(terms: &Vec<(Box<Expr>, SortOrder)>) -> (r: Vec<(Box<Expr>, SortOrder)>)
    ensures
        r@.len() == terms@.len(),
        forall|i: int|
            0 <= i < terms@.len() ==> (*(#[trigger] r@[i]).0)@ == (*terms@[i].0)@ && r@[i].1
                == terms@[i].1,
{
    let mut r: Vec<(Box<Expr>, SortOrder)> = Vec::new();
    let mut i: usize = 0;
    while i < terms.len()
        invariant
            i <= terms@.len(),
            r@.len() == i,
            forall|j: int|
                0 <= j < i ==> (*(#[trigger] r@[j]).0)@ == (*terms@[j].0)@ && r@[j].1
                    == terms@[j].1,
        decreases terms@.len() - i,
    {
        r.push((Box::new(copy_expr(&terms[i].0)), terms[i].1));
        i += 1;
    }
    r
}

/// Two plans that may be missing are copies of each other.
pub open spec fn same_optional_plan(a: Option<SelectPlan>, b: Option<SelectPlan>) -> bool {
    match (a, b) {
        (Some(a), Some(b)) => plan_tree(a) == plan_tree(b),
        (None, None) => true,
        _ => false,
    }
}

/// A copy of a table, and of the plan inside it.
pub fn copy_table(table: &Table) -> (r: Table)
    ensures
        table_shape(r) == table_shape(*table),
        table_tree(r) == table_tree(*table),
        same_table(r, *table),
    decreases table, 0nat,
{
    match table {
        Table::BTree(table) => Table::BTree(share(table)),
        Table::Virtual(table) => Table::Virtual(share(table)),
        Table::FromClauseSubquery(subquery) => {
            proof {
                table_plan_decreases(*table);
            }
            Table::FromClauseSubquery(
                FromClauseSubquery {
                    name: subquery.name.clone(),
                    columns: share(&subquery.columns),
                    plan: Box::new(copy_plan(&subquery.plan)),
                    result_columns_start_reg: subquery.result_columns_start_reg,
                },
            )
        },
        Table::RecursiveCte(cte) => Table::RecursiveCte(share(cte)),
    }
}

fn copy_tables(plan: &SelectPlan) -> (r: Vec<JoinedTable>)
    ensures
        r@.len() == plan.table_references.joined_tables@.len(),
        forall|i: int|
            0 <= i < r@.len() ==> joined_shape(#[trigger] r@[i]) == joined_shape(
                plan.table_references.joined_tables@[i],
            ) && table_tree(r@[i].table) == table_tree(
                plan.table_references.joined_tables@[i].table,
            ),
    decreases plan, 0nat,
{
    let tables = &plan.table_references.joined_tables;
    let mut r: Vec<JoinedTable> = Vec::new();
    let mut i: usize = 0;
    while i < tables.len()
        invariant
            *tables == plan.table_references.joined_tables,
            i <= tables@.len(),
            r@.len() == i,
            forall|j: int|
                0 <= j < i ==> joined_shape(#[trigger] r@[j]) == joined_shape(tables@[j])
                    && table_tree(r@[j].table) == table_tree(tables@[j].table),
        decreases tables@.len() - i,
    {
        let t = &tables[i];
        proof {
            table_decreases(*plan, i as int);
        }
        r.push(
            JoinedTable {
                op: t.op.clone(),
                table: copy_table(&t.table),
                identifier: t.identifier.clone(),
                internal_id: t.internal_id,
                col_used_mask: t.col_used_mask.clone(),
                utilizes_covering_index: t.utilizes_covering_index,
                database_id: t.database_id,
            },
        );
        i += 1;
    }
    r
}

fn copy_outer(plan: &SelectPlan) -> (r: Vec<OuterQueryReference>)
    ensures
        r@.len() == plan.table_references.outer_query_refs@.len(),
        forall|i: int|
            0 <= i < r@.len() ==> (#[trigger] r@[i])@
                == plan.table_references.outer_query_refs@[i]@,
    decreases plan, 0nat,
{
    let refs = &plan.table_references.outer_query_refs;
    let mut r: Vec<OuterQueryReference> = Vec::new();
    let mut i: usize = 0;
    while i < refs.len()
        invariant
            *refs == plan.table_references.outer_query_refs,
            i <= refs@.len(),
            r@.len() == i,
            forall|j: int| 0 <= j < i ==> (#[trigger] r@[j])@ == refs@[j]@,
        decreases refs@.len() - i,
    {
        let t = &refs[i];
        proof {
            outer_decreases(*plan, i as int);
        }
        r.push(
            OuterQueryReference {
                table: copy_table(&t.table),
                identifier: t.identifier.clone(),
                internal_id: t.internal_id,
                col_used_mask: t.col_used_mask.clone(),
            },
        );
        i += 1;
    }
    r
}

fn copy_subqueries(plan: &SelectPlan) -> (r: Vec<NonFromClauseSubquery>)
    ensures
        r@.len() == plan.non_from_clause_subqueries@.len(),
        forall|i: int|
            0 <= i < r@.len() ==> subquery_shape(#[trigger] r@[i]) == subquery_shape(
                plan.non_from_clause_subqueries@[i],
            ) && same_optional_plan(
                subquery_plan(r@[i]),
                subquery_plan(plan.non_from_clause_subqueries@[i]),
            ),
    decreases plan, 0nat,
{
    let subqueries = &plan.non_from_clause_subqueries;
    let mut r: Vec<NonFromClauseSubquery> = Vec::new();
    let mut i: usize = 0;
    while i < subqueries.len()
        invariant
            *subqueries == plan.non_from_clause_subqueries,
            i <= subqueries@.len(),
            r@.len() == i,
            forall|j: int|
                0 <= j < i ==> subquery_shape(#[trigger] r@[j]) == subquery_shape(subqueries@[j])
                    && same_optional_plan(subquery_plan(r@[j]), subquery_plan(subqueries@[j])),
        decreases subqueries@.len() - i,
    {
        let s = &subqueries[i];
        let state = match &s.state {
            SubqueryState::Unevaluated { plan: Some(inner) } => {
                proof {
                    subquery_plan_decreases(*plan, i as int);
                }
                SubqueryState::Unevaluated { plan: Some(Box::new(copy_plan(inner))) }
            },
            SubqueryState::Unevaluated { plan: None } => SubqueryState::Unevaluated { plan: None },
            SubqueryState::Evaluated => SubqueryState::Evaluated,
        };
        r.push(
            NonFromClauseSubquery {
                internal_id: s.internal_id,
                query_type: s.query_type,
                state,
                correlated: s.correlated,
            },
        );
        i += 1;
    }
    r
}

/// A copy of a plan, and of the plans inside it.
pub fn copy_plan(plan: &SelectPlan) -> (r: SelectPlan)
    ensures
        r@ == plan@,
        same_plan(r, *plan),
    decreases plan, 1nat,
{
    let joined_tables = copy_tables(plan);
    let outer_query_refs = copy_outer(plan);
    let r = SelectPlan {
        table_references: TableReferences { joined_tables, outer_query_refs },
        result_columns: copy_result_columns(&plan.result_columns),
        where_clause: copy_where(&plan.where_clause),
        group_by: match &plan.group_by {
            Some(group_by) => Some(group_by.clone()),
            None => None,
        },
        order_by: copy_order_by(&plan.order_by),
        limit: copy_boxed(&plan.limit),
        offset: copy_boxed(&plan.offset),
        query_destination: plan.query_destination.clone(),
        non_from_clause_subqueries: copy_subqueries(plan),
    };
    proof {
        let a = plan_shape(r);
        let b = plan_shape(*plan);
        assert(a.joined_tables =~= b.joined_tables);
        assert(a.outer_query_refs =~= b.outer_query_refs) by {
            assert forall|i: int| 0 <= i < a.outer_query_refs.len() implies a.outer_query_refs[i]
                == b.outer_query_refs[i] by {
                assert(r.table_references.outer_query_refs@[i]@
                    == plan.table_references.outer_query_refs@[i]@);
            }
        }
        assert(a.result_columns =~= b.result_columns);
        assert(a.where_clause =~= b.where_clause);
        assert(a.order_by =~= b.order_by);
        assert(a.subqueries =~= b.subqueries);
        assert(a == b);
        assert(r@.tables =~= plan@.tables) by {
            assert forall|i: int| 0 <= i < r@.tables.len() implies r@.tables[i]
                == plan@.tables[i] by {
                assert(table_tree(r.table_references.joined_tables@[i].table) == table_tree(
                    plan.table_references.joined_tables@[i].table,
                ));
            }
        }
        assert(r@.outer =~= plan@.outer) by {
            assert forall|i: int| 0 <= i < r@.outer.len() implies r@.outer[i] == plan@.outer[i] by {
                assert(r.table_references.outer_query_refs@[i]@
                    == plan.table_references.outer_query_refs@[i]@);
            }
        }
        assert(r@.subqueries =~= plan@.subqueries) by {
            assert forall|i: int| 0 <= i < r@.subqueries.len() implies r@.subqueries[i]
                == plan@.subqueries[i] by {
                assert(same_optional_plan(
                    subquery_plan(r.non_from_clause_subqueries@[i]),
                    subquery_plan(plan.non_from_clause_subqueries@[i]),
                ));
            }
        }
        copied_plans_agree(r, *plan);
    }
    r
}

impl Clone for SelectPlan {
    fn clone(&self) -> (r: Self)
        ensures
            r@ == self@,
    {
        copy_plan(self)
    }
}

} // verus!
