//! What becomes of a subquery that is visited: what the compiler is asked, which entry the list of
//! subqueries gets, and what the expression becomes.
use crate::ast::{leaf, ExprKind, ExprTree, Literal, SubqueryType, TableInternalId};
use crate::compiler::{optimizes, prepares, SelectCompiler};
use crate::plan::{
    correlates, NonFromClauseSubquery, Plan, QueryDestination, ResultSetColumn, SelectPlan,
    SubqueryPosition, SubqueryState,
};
use crate::planner::{
    collation_failure, directed_to_index, directed_to_registers, enters, ephemeral_index,
    exists_finished, in_finished, lhs_columns, limited_to_one, row_value_finished, unevaluated,
};
use crate::program::{outcome, CursorTypeView, CursorView, ErrorView, LimboError, ProgramView};
use crate::schema::IndexView;
use crate::text::decimal;
use crate::walk::{in_replaced, result_kind, settled, visited, Clause, PlanState};
use turso_parser::ast::Select;
use vstd::prelude::*;

verus! {

/// What the compiler was asked for the plan of a subquery, and what it answered.
pub struct PlanAnswer {
    pub asked: ProgramView,
    pub destination: QueryDestination,
    pub program: ProgramView,
    pub planned: SelectPlan,
    pub improved: SelectPlan,
}

/// The `SELECT` of a subquery.
pub open spec fn select_of(kind: ExprKind) -> Option<Select> {
    match kind {
        ExprKind::Exists(select) => Some(select),
        ExprKind::Subquery(select) => Some(select),
        ExprKind::InSelect { rhs, .. } => Some(rhs),
        _ => None,
    }
}

/// The compiler is asked once for a plan of the `SELECT`, with the tables of the clause to refer
/// to, and once to improve it. A number is taken for the subquery before, and a register for the
/// result of `EXISTS`; nothing else.
pub open spec fn asks_for_plan<C: SelectCompiler>(
    c: C,
    clause: Clause,
    before: ProgramView,
    kind: ExprKind,
    a: PlanAnswer,
) -> bool {
    &&& select_of(kind) matches Some(select) && prepares(
        c,
        a.asked,
        select,
        clause.resolver,
        clause.refs,
        a.destination,
        a.program,
        Ok(Plan::Select(a.planned)),
    )
    &&& optimizes(c, a.planned, clause.resolver.schema, Ok(a.improved))
    &&& a.asked == (ProgramView {
        next_table_id: before.next_table_id + 1,
        next_free_register: if kind is Exists {
            before.next_free_register + 1
        } else {
            before.next_free_register
        },
        ..before
    })
    &&& a.destination == if kind is Exists {
        QueryDestination::ExistsSubqueryResult { result_reg: before.next_free_register as usize }
    } else {
        QueryDestination::Unset
    }
}

/// A plan uses a column of a table further out.
pub open spec fn uses_outer_column(plan: SelectPlan) -> bool {
    exists|i: int, column: nat|
        0 <= i < plan.table_references.outer_query_refs@.len()
            && #[trigger] plan.table_references.outer_query_refs@[i].col_used_mask@.contains(column)
}

/// A plan is another one with a limit of one row.
pub open spec fn stops_after_one_row(plan: SelectPlan) -> bool {
    &&& plan.limit matches Some(limit)
    &&& (*limit)@.children.len() == 0
    &&& (*limit)@.kind matches ExprKind::Literal(Literal::Numeric(digits))
    &&& digits@ == "1"@
}

/// The index that holds the rows of an `IN` subquery: a column for each result column, in
/// ascending order, under its name and with its collation.
pub open spec fn holds_rows(index: IndexView, plan: SelectPlan, id: nat) -> bool {
    let columns = plan.result_columns@;
    &&& index.name == "ephemeral_index_where_sub_"@ + ("t"@ + decimal(id))
    &&& index.table_name == Seq::<char>::empty()
    &&& index.ephemeral
    &&& !index.has_rowid
    &&& !index.unique
    &&& index.root_page == 0
    &&& index.index_method is None
    &&& index.columns.len() == columns.len()
    &&& forall|i: int|
        0 <= i < columns.len() ==> {
            let column = #[trigger] index.columns[i];
            &&& column.order is Asc
            &&& column.pos_in_table == i
            &&& columns[i].collation matches Ok(collation) && column.collation == collation
            &&& match columns[i].name {
                Some(name) => column.name == name@,
                None => column.name.len() == 0,
            }
        }
}

/// The entry of a subquery: its plan waits, and it is noted whether that uses a column of a table
/// further out.
pub open spec fn is_entry(
    e: NonFromClauseSubquery,
    id: nat,
    query_type: SubqueryType,
    plan: SelectPlan,
) -> bool {
    &&& e.internal_id.0 == id as usize
    &&& e.query_type == query_type
    &&& e.state matches SubqueryState::Unevaluated { plan: Some(waiting) } && *waiting == plan
    &&& e.correlated <==> uses_outer_column(plan)
}

/// What the rows of a subquery are put to, what its result is read from and what the expression
/// becomes all agree.
pub open spec fn becomes_result(
    before: PlanState,
    t: ExprTree,
    after: PlanState,
    tree: ExprTree,
    a: PlanAnswer,
    plan: SelectPlan,
) -> bool {
    let id = before.program.next_table_id;
    let result_id = TableInternalId(id as usize);
    let e = after.subqueries.last();
    match t.kind {
        ExprKind::Exists(_) => {
            let query_type = SubqueryType::Exists {
                result_reg: before.program.next_free_register as usize,
            };
            &&& is_entry(e, id, query_type, plan)
            &&& stops_after_one_row(plan)
            &&& plan == (SelectPlan { limit: plan.limit, ..a.improved })
            &&& after.program == a.program
            &&& tree.kind == (ExprKind::SubqueryResult {
                subquery_id: result_id,
                not_in: false,
                query_type,
            })
            &&& tree.children == t.children
        },
        ExprKind::Subquery(_) => {
            let n = a.improved.result_columns@.len();
            let start = a.program.next_free_register as usize;
            let query_type = SubqueryType::RowValue {
                result_reg_start: start,
                num_regs: n as usize,
            };
            &&& is_entry(e, id, query_type, plan)
            &&& stops_after_one_row(plan)
            &&& plan == (SelectPlan {
                limit: plan.limit,
                query_destination: QueryDestination::RowValueSubqueryResult {
                    result_reg_start: start,
                    num_regs: n as usize,
                },
                ..a.improved
            })
            &&& after.program == (ProgramView {
                next_free_register: a.program.next_free_register + n,
                ..a.program
            })
            &&& tree.kind == (ExprKind::SubqueryResult {
                subquery_id: result_id,
                not_in: false,
                query_type,
            })
            &&& tree.children == t.children
        },
        ExprKind::InSelect { not, .. } => {
            let cursor_id = a.program.cursors.len() as usize;
            let query_type = SubqueryType::In { cursor_id };
            &&& is_entry(e, id, query_type, plan)
            &&& plan == (SelectPlan { query_destination: plan.query_destination, ..a.improved })
            &&& plan.query_destination matches QueryDestination::EphemeralIndex {
                cursor_id: destination,
                index,
                is_delete,
            } && destination == cursor_id && !is_delete && holds_rows(
                (*index)@,
                a.improved,
                id,
            ) && after.program == (ProgramView {
                cursors: a.program.cursors.push(
                    CursorView { key: None, cursor_type: CursorTypeView::BTreeIndex((*index)@) },
                ),
                ..a.program
            })
            &&& lhs_columns(t.children[0].tree) == a.improved.result_columns@.len()
            &&& tree.kind == (ExprKind::SubqueryResult {
                subquery_id: result_id,
                not_in: not,
                query_type,
            })
            &&& tree.children == seq![t.children[0]]
        },
        _ => false,
    }
}

/// A plan that is settled was prepared and then improved.
pub proof fn settled_steps<C: SelectCompiler>(
    c: C,
    before: ProgramView,
    select: Select,
    clause: Clause,
    destination: QueryDestination,
    after: ProgramView,
    result: Result<SelectPlan, ErrorView>,
) -> (planned: SelectPlan)
    requires
        settled(
            c,
            before,
            select,
            clause.resolver,
            clause.refs,
            destination,
            after,
            result,
        ),
        result is Ok,
    ensures
        prepares(
            c,
            before,
            select,
            clause.resolver,
            clause.refs,
            destination,
            after,
            Ok(Plan::Select(planned)),
        ),
        optimizes(c, planned, clause.resolver.schema, Ok(result->Ok_0)),
{
    let reply: Result<Plan, LimboError> = choose|reply: Result<Plan, LimboError>|
        {
            &&& #[trigger] prepares(
                c,
                before,
                select,
                clause.resolver,
                clause.refs,
                destination,
                after,
                reply,
            )
            &&& match reply {
                Err(e) => result == Err::<SelectPlan, ErrorView>(e@),
                Ok(Plan::CompoundSelect) => result is Err,
                Ok(Plan::Select(plan)) => exists|improved: Result<SelectPlan, LimboError>|
                    #[trigger] optimizes(c, plan, clause.resolver.schema, improved) && result
                        == outcome(improved),
            }
        };
    let planned = reply->Ok_0->Select_0;
    assert(reply == Ok::<Plan, LimboError>(Plan::Select(planned)));
    let improved: Result<SelectPlan, LimboError> = choose|improved: Result<SelectPlan, LimboError>|
        #[trigger] optimizes(c, planned, clause.resolver.schema, improved) && result
            == outcome(improved);
    assert(improved == Ok::<SelectPlan, LimboError>(result->Ok_0));
    planned
}

/// It is noted of a plan that it is correlated if and only if it uses a column of a table further
/// out.
pub proof fn correlated_plans_use_outer_columns(plan: SelectPlan)
    ensures
        correlates(plan) <==> uses_outer_column(plan),
{
    let refs = plan.table_references.outer_query_refs@;
    if correlates(plan) {
        let i = choose|i: int|
            0 <= i < refs.len() && (#[trigger] refs[i]).col_used_mask@ != Set::<nat>::empty();
        let used = refs[i].col_used_mask@;
        if forall|column: nat| !used.contains(column) {
            assert(used =~= Set::<nat>::empty());
        }
        let column = choose|column: nat| used.contains(column);
        assert(refs[i].col_used_mask@.contains(column));
    }
    if uses_outer_column(plan) {
        let (i, column): (int, nat) = choose|i: int, column: nat|
            0 <= i < refs.len() && #[trigger] refs[i].col_used_mask@.contains(column);
        assert(refs[i].col_used_mask@ != Set::<nat>::empty());
    }
}

/// The clauses in which a subquery may use columns of the query around it.
pub open spec fn is_open_clause(position: SubqueryPosition) -> bool {
    match position {
        SubqueryPosition::ResultColumn => true,
        SubqueryPosition::Where => true,
        SubqueryPosition::GroupBy => true,
        SubqueryPosition::Having => false,
        SubqueryPosition::OrderBy => false,
        SubqueryPosition::LimitOffset => false,
    }
}

/// A subquery that is visited with success becomes a result: the compiler is asked for its plan,
/// the plan enters the list behind the others, and the expression says where the result will be.
/// A subquery that uses a column of a table further out only enters where that is supported.
pub proof fn visited_subquery_becomes_a_result<C: SelectCompiler>(
    c: C,
    clause: Clause,
    before: PlanState,
    t: ExprTree,
    after: PlanState,
    tree: ExprTree,
    result: Result<(), ErrorView>,
) -> (r: (PlanAnswer, SelectPlan))
    requires
        visited(c, clause, before, t, after, tree, result),
        result is Ok,
        select_of(t.kind) is Some,
    ensures
        asks_for_plan(c, clause, before.program, t.kind, r.0),
        becomes_result(before, t, after, tree, r.0, r.1),
        after.subqueries.len() == before.subqueries.len() + 1,
        after.subqueries.drop_last() == before.subqueries,
        uses_outer_column(r.1) ==> is_open_clause(clause.position),
{
    assert(after.subqueries.len() > 0 ==> after.subqueries.drop_last().len()
        == after.subqueries.len() - 1);
    match t.kind {
        ExprKind::Exists(select) => visited_exists(c, clause, before, t, after, tree, result),
        ExprKind::Subquery(select) => visited_row_value(c, clause, before, t, after, tree, result),
        _ => visited_in(c, clause, before, t, after, tree, result),
    }
}

proof fn visited_exists<C: SelectCompiler>(
    c: C,
    clause: Clause,
    before: PlanState,
    t: ExprTree,
    after: PlanState,
    tree: ExprTree,
    result: Result<(), ErrorView>,
) -> (r: (PlanAnswer, SelectPlan))
    requires
        visited(c, clause, before, t, after, tree, result),
        result is Ok,
        t.kind is Exists,
    ensures
        asks_for_plan(c, clause, before.program, t.kind, r.0),
        becomes_result(before, t, after, tree, r.0, r.1),
        after.subqueries.len() == before.subqueries.len() + 1,
        after.subqueries.drop_last() == before.subqueries,
        uses_outer_column(r.1) ==> is_open_clause(clause.position),
{
    let select = t.kind->Exists_0;
    let result_reg = before.program.register(0);
    let asked = before.program.with_table_id().with_registers(1);
    let destination = QueryDestination::ExistsSubqueryResult { result_reg };
    let planned: Result<SelectPlan, ErrorView> = choose|planned: Result<SelectPlan, ErrorView>|
        {
            &&& #[trigger] settled(
                c,
                asked,
                select,
                clause.resolver,
                clause.refs,
                destination,
                after.program,
                planned,
            )
            &&& match planned {
                Err(e) => result is Err,
                Ok(plan) => exists_finished(
                    plan,
                    before.program.table_id(),
                    result_reg,
                    clause.position,
                    before.subqueries,
                    after.subqueries,
                    result,
                ),
            }
        };
    let improved = planned->Ok_0;
    let first = settled_steps(c, asked, select, clause, destination, after.program, planned);
    let a = PlanAnswer { asked, destination, program: after.program, planned: first, improved };
    let plan: SelectPlan = choose|limited: SelectPlan| #[trigger]
        limited_to_one(improved, limited) && enters(
            before.subqueries,
            unevaluated(
                before.program.table_id(),
                SubqueryType::Exists { result_reg },
                limited,
            ),
            clause.position,
            after.subqueries,
            result,
        );
    correlated_plans_use_outer_columns(plan);
    assert(after.subqueries.drop_last() =~= before.subqueries);
    (a, plan)
}

proof fn visited_row_value<C: SelectCompiler>(
    c: C,
    clause: Clause,
    before: PlanState,
    t: ExprTree,
    after: PlanState,
    tree: ExprTree,
    result: Result<(), ErrorView>,
) -> (r: (PlanAnswer, SelectPlan))
    requires
        visited(c, clause, before, t, after, tree, result),
        result is Ok,
        t.kind is Subquery,
    ensures
        asks_for_plan(c, clause, before.program, t.kind, r.0),
        becomes_result(before, t, after, tree, r.0, r.1),
        after.subqueries.len() == before.subqueries.len() + 1,
        after.subqueries.drop_last() == before.subqueries,
        uses_outer_column(r.1) ==> is_open_clause(clause.position),
{
    let select = t.kind->Subquery_0;
    let id = before.program.table_id();
    let asked = before.program.with_table_id();
    let destination = QueryDestination::Unset;
    let (program, planned): (ProgramView, Result<SelectPlan, ErrorView>) = choose|
        program: ProgramView,
        planned: Result<SelectPlan, ErrorView>,
    |
        {
            &&& #[trigger] settled(
                c,
                asked,
                select,
                clause.resolver,
                clause.refs,
                destination,
                program,
                planned,
            )
            &&& match planned {
                Err(e) => result is Err,
                Ok(plan) => {
                    &&& tree.kind matches ExprKind::SubqueryResult { query_type, .. } && tree.kind
                        == result_kind(id, false, query_type) && row_value_finished(
                        plan,
                        id,
                        clause.position,
                        program,
                        before.subqueries,
                        after.program,
                        after.subqueries,
                        query_type,
                        result,
                    )
                },
            }
        };
    let improved = planned->Ok_0;
    let first = settled_steps(c, asked, select, clause, destination, program, planned);
    let a = PlanAnswer { asked, destination, program, planned: first, improved };
    let n = improved.result_columns@.len();
    let start = program.register(0);
    let query_type = SubqueryType::RowValue { result_reg_start: start, num_regs: n as usize };
    let plan: SelectPlan = choose|directed: SelectPlan| #[trigger]
        directed_to_registers(improved, directed, start, n as usize) && enters(
            before.subqueries,
            unevaluated(id, query_type, directed),
            clause.position,
            after.subqueries,
            result,
        );
    correlated_plans_use_outer_columns(plan);
    assert(after.subqueries.drop_last() =~= before.subqueries);
    (a, plan)
}

proof fn visited_in<C: SelectCompiler>(
    c: C,
    clause: Clause,
    before: PlanState,
    t: ExprTree,
    after: PlanState,
    tree: ExprTree,
    result: Result<(), ErrorView>,
) -> (r: (PlanAnswer, SelectPlan))
    requires
        visited(c, clause, before, t, after, tree, result),
        result is Ok,
        t.kind is InSelect,
    ensures
        asks_for_plan(c, clause, before.program, t.kind, r.0),
        becomes_result(before, t, after, tree, r.0, r.1),
        after.subqueries.len() == before.subqueries.len() + 1,
        after.subqueries.drop_last() == before.subqueries,
        uses_outer_column(r.1) ==> is_open_clause(clause.position),
{
    let select = t.kind->InSelect_rhs;
    let not = t.kind->InSelect_not;
    let lhs = t.children[0];
    let id = before.program.table_id();
    let asked = before.program.with_table_id();
    let destination = QueryDestination::Unset;
    let (program, planned): (ProgramView, Result<SelectPlan, ErrorView>) = choose|
        program: ProgramView,
        planned: Result<SelectPlan, ErrorView>,
    |
        {
            &&& #[trigger] settled(
                c,
                asked,
                select,
                clause.resolver,
                clause.refs,
                destination,
                program,
                planned,
            )
            &&& match planned {
                Err(e) => result is Err,
                Ok(plan) => in_replaced(
                    plan,
                    lhs,
                    not,
                    id,
                    clause.position,
                    PlanState { program, ..before },
                    after,
                    tree,
                    result,
                ),
            }
        };
    let improved = planned->Ok_0;
    let first = settled_steps(c, asked, select, clause, destination, program, planned);
    let a = PlanAnswer { asked, destination, program, planned: first, improved };
    let found: Option<SubqueryType> = choose|query_type: Option<SubqueryType>|
        {
            &&& #[trigger] in_finished(
                improved,
                lhs.tree,
                id,
                clause.position,
                program,
                before.subqueries,
                after.program,
                after.subqueries,
                query_type,
                result,
            )
            &&& tree == match query_type {
                Some(query_type) => ExprTree {
                    kind: result_kind(id, not, query_type),
                    children: seq![lhs],
                },
                None => leaf(ExprKind::Literal(Literal::Null)),
            }
        };
    let columns = improved.result_columns@;
    let cursor = program.cursor();
    let index = ephemeral_index(columns, id);
    no_collation_failure(columns, 0);
    let plan: SelectPlan = choose|directed: SelectPlan| #[trigger]
        directed_to_index(improved, directed, cursor, index) && enters(
            before.subqueries,
            unevaluated(id, SubqueryType::In { cursor_id: cursor }, directed),
            clause.position,
            after.subqueries,
            result,
        );
    correlated_plans_use_outer_columns(plan);
    assert(after.subqueries.drop_last() =~= before.subqueries);
    assert(holds_rows(index, improved, before.program.next_table_id));
    (a, plan)
}

/// Where no column fails to say how it compares, each of them says so.
pub proof fn no_collation_failure(columns: Seq<ResultSetColumn>, start: nat)
    ensures
        collation_failure(columns, start) is None ==> forall|i: int|
            start <= i < columns.len() ==> (#[trigger] columns[i]).collation is Ok,
    decreases columns.len() - start,
{
    if start < columns.len() && columns[start as int].collation is Ok {
        no_collation_failure(columns, start + 1);
    }
}

} // verus!
