//! Planning the subqueries of a query that are not in its `FROM` clause.
//!
//! Each such subquery is planned on its own, and the expression that held it is replaced by
//! [`Expr::SubqueryResult`], which says where the result will be found.
use crate::ast::{Expr, ExprKind, ExprTree, Literal, SortOrder, SubqueryType, TableInternalId};
use crate::plan::{
    correlates, NonFromClauseSubquery, QueryDestination, ResultSetColumn, SelectPlan,
    SubqueryPosition, SubqueryState,
};
use crate::program::{
    capacity_error, out_of_capacity, outcome, parse_error, CursorType, CursorTypeView, ErrorView,
    LimboError, ProgramBuilder, ProgramView,
};
use crate::schema::{share, Index, IndexColumn, IndexColumnView, IndexView};
use crate::text::{decimal, joined, table_id_text};
use std::sync::Arc;
use vstd::prelude::*;

verus! {

// ---------------------------------------------------------------------------------------------
// From a planned subquery to its entry in the list of subqueries.

/// The limit of a subquery of which one row decides.
pub open spec fn is_one(limit: ExprTree) -> bool {
    &&& limit.kind matches ExprKind::Literal(Literal::Numeric(digits)) && digits@ == "1"@
    &&& limit.children.len() == 0
}

/// The plan with a limit of one row.
pub open spec fn limited_to_one(plan: SelectPlan, limited: SelectPlan) -> bool {
    &&& limited == SelectPlan { limit: limited.limit, ..plan }
    &&& limited.limit matches Some(limit) && is_one((*limit)@)
}

/// The entry of a subquery that is planned and not yet evaluated.
pub open spec fn unevaluated(
    internal_id: TableInternalId,
    query_type: SubqueryType,
    plan: SelectPlan,
) -> NonFromClauseSubquery {
    NonFromClauseSubquery {
        internal_id,
        query_type,
        state: SubqueryState::Unevaluated { plan: Some(Box::new(plan)) },
        correlated: correlates(plan),
    }
}

/// The message for a correlated subquery where none is supported.
pub open spec fn unsupported_correlation(position: SubqueryPosition) -> ErrorView {
    ErrorView::ParseError(
        "correlated subqueries in "@ + position.clause() + " clause are not supported yet"@,
    )
}

/// A subquery enters the list, unless it is correlated where that is not supported.
pub open spec fn enters(
    subqueries: Seq<NonFromClauseSubquery>,
    subquery: NonFromClauseSubquery,
    position: SubqueryPosition,
    after: Seq<NonFromClauseSubquery>,
    result: Result<(), ErrorView>,
) -> bool {
    if subquery.correlated && !position.may_correlate() {
        after == subqueries && result == Err::<(), ErrorView>(unsupported_correlation(position))
    } else {
        after == subqueries.push(subquery) && result == Ok::<(), ErrorView>(())
    }
}

/// Refuses a correlated subquery where none is supported.
fn handle_unsupported_correlation(correlated: bool, position: SubqueryPosition) -> (r: Result<
    (),
    LimboError,
>)
    ensures
        outcome(r) == (if correlated && !position.may_correlate() {
            Err::<(), ErrorView>(unsupported_correlation(position))
        } else {
            Ok(())
        }),
{
    if correlated && !position.allow_correlated() {
        let mut message = joined("correlated subqueries in ", position.name());
        message.append(" clause are not supported yet");
        return Err(parse_error(message.as_str()));
    }
    Ok(())
}

/// Puts a planned subquery into the list, unless it is correlated where that is not supported.
fn enter_subquery(
    out_subqueries: &mut Vec<NonFromClauseSubquery>,
    internal_id: TableInternalId,
    query_type: SubqueryType,
    plan: SelectPlan,
    position: SubqueryPosition,
) -> (r: Result<(), LimboError>)
    ensures
        enters(
            old(out_subqueries)@,
            unevaluated(internal_id, query_type, plan),
            position,
            final(out_subqueries)@,
            outcome(r),
        ),
{
    let correlated = plan.is_correlated();
    match handle_unsupported_correlation(correlated, position) {
        Ok(_) => {},
        Err(e) => {
            return Err(e);
        },
    }
    out_subqueries.push(
        NonFromClauseSubquery {
            internal_id,
            query_type,
            state: SubqueryState::Unevaluated { plan: Some(Box::new(plan)) },
            correlated,
        },
    );
    Ok(())
}

/// The literal `1`.
fn one() -> (r: Box<Expr>)
    ensures
        is_one((*r)@),
{
    Box::new(Expr::Literal(Literal::Numeric("1".to_owned())))
}

/// An `EXISTS` subquery is satisfied after one row; its result is one register.
pub open spec fn exists_finished(
    plan: SelectPlan,
    internal_id: TableInternalId,
    result_reg: usize,
    position: SubqueryPosition,
    subqueries: Seq<NonFromClauseSubquery>,
    after: Seq<NonFromClauseSubquery>,
    result: Result<(), ErrorView>,
) -> bool {
    exists|limited: SelectPlan| #[trigger]
        limited_to_one(plan, limited) && enters(
            subqueries,
            unevaluated(internal_id, SubqueryType::Exists { result_reg }, limited),
            position,
            after,
            result,
        )
}

/// Finishes an `EXISTS` subquery from its plan.
pub fn finish_exists(
    plan: SelectPlan,
    internal_id: TableInternalId,
    result_reg: usize,
    position: SubqueryPosition,
    out_subqueries: &mut Vec<NonFromClauseSubquery>,
) -> (r: Result<(), LimboError>)
    ensures
        exists_finished(
            plan,
            internal_id,
            result_reg,
            position,
            old(out_subqueries)@,
            final(out_subqueries)@,
            outcome(r),
        ),
{
    let ghost prepared = plan;
    let mut plan = plan;
    plan.limit = Some(one());
    assert(limited_to_one(prepared, plan));
    enter_subquery(
        out_subqueries,
        internal_id,
        SubqueryType::Exists { result_reg },
        plan,
        position,
    )
}

/// The plan of a row value, with a limit of one row, whose columns go to registers.
pub open spec fn directed_to_registers(
    plan: SelectPlan,
    directed: SelectPlan,
    result_reg_start: usize,
    num_regs: usize,
) -> bool {
    &&& directed == SelectPlan {
        limit: directed.limit,
        query_destination: QueryDestination::RowValueSubqueryResult { result_reg_start, num_regs },
        ..plan
    }
    &&& directed.limit matches Some(limit) && is_one((*limit)@)
}

/// A row value takes a register for each of its columns, and is satisfied after one row. The
/// register range is only known once the subquery is planned.
pub open spec fn row_value_finished(
    plan: SelectPlan,
    internal_id: TableInternalId,
    position: SubqueryPosition,
    program: ProgramView,
    subqueries: Seq<NonFromClauseSubquery>,
    program_after: ProgramView,
    after: Seq<NonFromClauseSubquery>,
    query_type: SubqueryType,
    result: Result<(), ErrorView>,
) -> bool {
    let num_regs = plan.result_columns@.len();
    if !program.has_room(num_regs, 0, 0) {
        &&& program_after == program
        &&& after == subqueries
        &&& query_type == SubqueryType::RowValue { result_reg_start: 0, num_regs: 0 }
        &&& result == Err::<(), ErrorView>(out_of_capacity())
    } else {
        let start = program.register(0);
        &&& program_after == program.with_registers(num_regs)
        &&& query_type == SubqueryType::RowValue {
            result_reg_start: start,
            num_regs: num_regs as usize,
        }
        &&& exists|directed: SelectPlan| #[trigger]
            directed_to_registers(plan, directed, start, num_regs as usize) && enters(
                subqueries,
                unevaluated(internal_id, query_type, directed),
                position,
                after,
                result,
            )
    }
}

/// Finishes a row value from its plan, and returns where its result will be.
pub fn finish_row_value(
    plan: SelectPlan,
    internal_id: TableInternalId,
    position: SubqueryPosition,
    program: &mut ProgramBuilder,
    out_subqueries: &mut Vec<NonFromClauseSubquery>,
) -> (r: (SubqueryType, Result<(), LimboError>))
    ensures
        row_value_finished(
            plan,
            internal_id,
            position,
            old(program)@,
            old(out_subqueries)@,
            final(program)@,
            final(out_subqueries)@,
            r.0,
            outcome(r.1),
        ),
{
    let ghost prepared = plan;
    let mut plan = plan;
    let num_regs = plan.result_columns.len();
    if !program.has_room(num_regs, 0, 0) {
        return (
            SubqueryType::RowValue { result_reg_start: 0, num_regs: 0 },
            Err(capacity_error()),
        );
    }
    let result_reg_start = program.alloc_registers(num_regs);
    plan.query_destination = QueryDestination::RowValueSubqueryResult { result_reg_start, num_regs };
    plan.limit = Some(one());
    let query_type = SubqueryType::RowValue { result_reg_start, num_regs };
    assert(directed_to_registers(prepared, plan, result_reg_start, num_regs));
    let entered = enter_subquery(out_subqueries, internal_id, query_type, plan, position);
    (query_type, entered)
}

/// How many columns the left side of an `IN` has: parentheses around a single expression do not
/// count, those around several make a row of them.
pub open spec fn lhs_columns(lhs: ExprTree) -> nat
    decreases lhs,
{
    if lhs.kind is Parenthesized {
        if lhs.children.len() == 1 {
            lhs_columns(lhs.children[0].tree)
        } else {
            lhs.children.len()
        }
    } else {
        1
    }
}

/// How many columns the left side of an `IN` has.
pub fn lhs_column_count(lhs: &Expr) -> (r: usize)
    ensures
        r == lhs_columns(lhs@),
    decreases lhs,
{
    match lhs {
        Expr::Parenthesized(exprs) => {
            if exprs.len() == 1 {
                lhs_column_count(&exprs[0])
            } else {
                exprs.len()
            }
        },
        _ => 1,
    }
}

/// The first failure, from `start` on, to say how a result column compares.
pub open spec fn collation_failure(columns: Seq<ResultSetColumn>, start: nat) -> Option<LimboError>
    decreases columns.len() - start,
{
    if start >= columns.len() {
        None
    } else {
        match columns[start as int].collation {
            Err(e) => Some(e),
            Ok(_) => collation_failure(columns, start + 1),
        }
    }
}

/// The column of the index that holds the result column at position `i`.
pub open spec fn index_column(columns: Seq<ResultSetColumn>, i: int) -> IndexColumnView {
    IndexColumnView {
        name: match columns[i].name {
            Some(name) => name@,
            None => seq![],
        },
        order: SortOrder::Asc,
        pos_in_table: i as nat,
        collation: columns[i].collation->Ok_0,
    }
}

/// The index that holds the rows of an `IN` subquery.
pub open spec fn ephemeral_index(
    columns: Seq<ResultSetColumn>,
    internal_id: TableInternalId,
) -> IndexView {
    IndexView {
        name: "ephemeral_index_where_sub_"@ + ("t"@ + decimal(internal_id.0 as nat)),
        table_name: seq![],
        columns: Seq::new(columns.len(), |i: int| index_column(columns, i)),
        ephemeral: true,
        has_rowid: false,
        root_page: 0,
        unique: false,
        index_method: None,
    }
}

/// The columns of the index that holds the rows of an `IN` subquery.
fn index_columns(columns: &Vec<ResultSetColumn>) -> (r: Result<Vec<IndexColumn>, LimboError>)
    ensures
        match collation_failure(columns@, 0) {
            Some(e) => r == Err::<Vec<IndexColumn>, LimboError>(e),
            None => r matches Ok(v) && v@.map_values(|c: IndexColumn| c@) == Seq::new(
                columns@.len(),
                |i: int| index_column(columns@, i),
            ),
        },
{
    let mut r: Vec<IndexColumn> = Vec::new();
    let mut i: usize = 0;
    while i < columns.len()
        invariant
            i <= columns@.len(),
            r@.len() == i,
            collation_failure(columns@, 0) == collation_failure(columns@, i as nat),
            forall|j: int| 0 <= j < i ==> (#[trigger] r@[j])@ == index_column(columns@, j),
        decreases columns@.len() - i,
    {
        let column = &columns[i];
        let name = match &column.name {
            Some(name) => name.clone(),
            None => String::new(),
        };
        match &column.collation {
            Ok(collation) => {
                r.push(
                    IndexColumn {
                        name,
                        order: SortOrder::Asc,
                        pos_in_table: i,
                        collation: *collation,
                    },
                );
                assert(r@[i as int]@.name =~= index_column(columns@, i as int).name);
            },
            Err(e) => {
                return Err(e.clone());
            },
        }
        i += 1;
    }
    assert(r@.map_values(|c: IndexColumn| c@) =~= Seq::new(
        columns@.len(),
        |i: int| index_column(columns@, i),
    ));
    Ok(r)
}

/// The plan of an `IN` subquery, whose rows go to an index.
pub open spec fn directed_to_index(
    plan: SelectPlan,
    directed: SelectPlan,
    cursor: usize,
    index_view: IndexView,
) -> bool {
    &&& directed == SelectPlan { query_destination: directed.query_destination, ..plan }
    &&& directed.query_destination matches QueryDestination::EphemeralIndex {
        cursor_id,
        index,
        is_delete,
    } && cursor_id == cursor && (*index)@ == index_view && !is_delete
}

/// The message for an `IN` whose two sides do not have the same number of columns.
pub open spec fn column_count_mismatch() -> ErrorView {
    ErrorView::ParseError(
        "lhs of IN subquery must have the same number of columns as the subquery"@,
    )
}

/// An `IN` subquery puts its rows into an index of its own. `query_type` is where the result will
/// be, once that is decided.
pub open spec fn in_finished(
    plan: SelectPlan,
    lhs: ExprTree,
    internal_id: TableInternalId,
    position: SubqueryPosition,
    program: ProgramView,
    subqueries: Seq<NonFromClauseSubquery>,
    program_after: ProgramView,
    after: Seq<NonFromClauseSubquery>,
    query_type: Option<SubqueryType>,
    result: Result<(), ErrorView>,
) -> bool {
    let columns = plan.result_columns@;
    if lhs_columns(lhs) != columns.len() || collation_failure(columns, 0) is Some {
        &&& program_after == program
        &&& after == subqueries
        &&& query_type is None
        &&& result == Err::<(), ErrorView>(
            if lhs_columns(lhs) != columns.len() {
                column_count_mismatch()
            } else {
                collation_failure(columns, 0)->0@
            },
        )
    } else {
        let cursor = program.cursor();
        let index = ephemeral_index(columns, internal_id);
        &&& program_after == program.with_cursor(None, CursorTypeView::BTreeIndex(index))
        &&& query_type == Some(SubqueryType::In { cursor_id: cursor })
        &&& exists|directed: SelectPlan| #[trigger]
            directed_to_index(plan, directed, cursor, index) && enters(
                subqueries,
                unevaluated(internal_id, SubqueryType::In { cursor_id: cursor }, directed),
                position,
                after,
                result,
            )
    }
}

/// Finishes an `IN` subquery from its plan and its left side, and returns where its result will
/// be, if that was decided.
pub fn finish_in(
    plan: SelectPlan,
    lhs: &Expr,
    internal_id: TableInternalId,
    position: SubqueryPosition,
    program: &mut ProgramBuilder,
    out_subqueries: &mut Vec<NonFromClauseSubquery>,
) -> (r: (Option<SubqueryType>, Result<(), LimboError>))
    ensures
        in_finished(
            plan,
            lhs@,
            internal_id,
            position,
            old(program)@,
            old(out_subqueries)@,
            final(program)@,
            final(out_subqueries)@,
            r.0,
            outcome(r.1),
        ),
{
    let ghost prepared = plan;
    let mut plan = plan;
    if lhs_column_count(lhs) != plan.result_columns.len() {
        return (
            None,
            Err(
                parse_error(
                    "lhs of IN subquery must have the same number of columns as the subquery",
                ),
            ),
        );
    }
    let columns = match index_columns(&plan.result_columns) {
        Ok(columns) => columns,
        Err(e) => {
            return (None, Err(e));
        },
    };
    let name = joined("ephemeral_index_where_sub_", table_id_text(internal_id.0).as_str());
    let index = Arc::new(
        Index {
            name,
            table_name: String::new(),
            columns,
            ephemeral: true,
            has_rowid: false,
            root_page: 0,
            unique: false,
            index_method: None,
        },
    );
    assert((*index)@.table_name =~= seq![]);
    let cursor_id = program.alloc_cursor_id(CursorType::BTreeIndex(share(&index)));
    plan.query_destination = QueryDestination::EphemeralIndex { cursor_id, index, is_delete: false };
    assert(directed_to_index(
        prepared,
        plan,
        cursor_id,
        ephemeral_index(prepared.result_columns@, internal_id),
    ));
    let query_type = SubqueryType::In { cursor_id };
    let entered = enter_subquery(out_subqueries, internal_id, query_type, plan, position);
    (Some(query_type), entered)
}

} // verus!
