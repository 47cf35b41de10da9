//! Which subqueries are planned and which are refused, clause by clause, and which tables they can
//! refer to.
use crate::ast::{Child, ExprKind, ExprTree, Role, SubqueryType};
use crate::clauses::{
    same_but_clauses, section_clause, sections, sections_steps, sections_walked, visible,
    QueryScope,
};
use crate::compiler::{optimizes, prepares, ResolverView, Schema, SelectCompiler};
use crate::entry_laws::{
    asks_for_plan, correlated_plans_use_outer_columns, select_of, settled_steps, uses_outer_column,
    PlanAnswer,
};
use crate::plan::{
    correlates, NonFromClauseSubquery, Plan, QueryDestination, ResultSetColumn, SelectPlan,
    SubqueryPosition, Table, TableReferences,
};
use crate::plan_copy::{OuterQueryReferenceView, TableShape};
use crate::planner::{
    collation_failure, directed_to_index, directed_to_registers, enters, ephemeral_index,
    exists_finished, lhs_columns, limited_to_one, row_value_finished, unevaluated,
    unsupported_correlation,
};
use crate::program::{outcome, ErrorView, LimboError, ProgramView};
use crate::walk::{
    children_walked, compound_select, in_replaced, registers_taken, settled, visited, walk_steps,
    walked, walks_steps, Clause, PlanState,
};
use turso_parser::ast::Select;
use vstd::prelude::*;

verus! {

// ---------------------------------------------------------------------------------------------
// The tables that are offered.

/// What is offered of a table is the table itself, with the plan inside it.
pub open spec fn offers_table(offered: OuterQueryReferenceView, t: Table) -> bool {
    match t {
        Table::BTree(table) => offered.table == TableShape::BTree(table) && offered.plan is None,
        Table::Virtual(table) => offered.table == TableShape::Virtual(table)
            && offered.plan is None,
        Table::FromClauseSubquery(table) => offered.table == (TableShape::FromClauseSubquery {
            name: table.name,
            columns: table.columns,
            result_columns_start_reg: table.result_columns_start_reg,
        }) && offered.plan == Some((*table.plan)@),
        Table::RecursiveCte(table) => offered.table == TableShape::RecursiveCte(table)
            && offered.plan is None,
    }
}

/// Every table of a query, and behind them every table further out, whatever is used of it so far,
/// is offered to the subqueries of the query, with no column of it used yet.
pub open spec fn offers_all_tables(
    offered: Seq<OuterQueryReferenceView>,
    tables: TableReferences,
) -> bool {
    let joined = tables.joined_tables@;
    let outer = tables.outer_query_refs@;
    &&& offered.len() == joined.len() + outer.len()
    &&& forall|i: int|
        0 <= i < joined.len() ==> {
            &&& (#[trigger] offered[i]).identifier == joined[i].identifier
            &&& offered[i].internal_id == joined[i].internal_id
            &&& offers_table(offered[i], joined[i].table)
            &&& offered[i].col_used_mask == Set::<nat>::empty()
        }
    &&& forall|i: int|
        joined.len() <= i < joined.len() + outer.len() ==> {
            let t = outer[i - joined.len()];
            &&& (#[trigger] offered[i]).identifier == t.identifier
            &&& offered[i].internal_id == t.internal_id
            &&& offers_table(offered[i], t.table)
            &&& offered[i].col_used_mask == Set::<nat>::empty()
        }
}

/// The subqueries of a query can refer to every table of it and to every table further out.
pub proof fn all_tables_are_offered(tables: TableReferences)
    ensures
        offers_all_tables(visible(tables), tables),
{
}

// ---------------------------------------------------------------------------------------------
// Why a subquery is refused.

/// The compiler has a plan for every `SELECT`, and it is known how the columns of it compare.
pub open spec fn plans_everything<C: SelectCompiler>(c: C) -> bool {
    &&& forall|
        before: ProgramView,
        select: Select,
        resolver: ResolverView,
        refs: Seq<OuterQueryReferenceView>,
        destination: QueryDestination,
        after: ProgramView,
        reply: Result<Plan, LimboError>,
    | #[trigger]
        prepares(c, before, select, resolver, refs, destination, after, reply) ==> (
        reply matches Ok(Plan::Select(_)))
    &&& forall|plan: SelectPlan, schema: Schema, reply: Result<SelectPlan, LimboError>| #[trigger]
        optimizes(c, plan, schema, reply) ==> (reply matches Ok(improved) && forall|i: int|
            0 <= i < improved.result_columns@.len() ==> (
            #[trigger] improved.result_columns@[i]).collation is Ok)
}

/// The clause in which a correlated subquery is refused, as the message calls it.
pub open spec fn refused_in(position: SubqueryPosition) -> Option<Seq<char>> {
    match position {
        SubqueryPosition::ResultColumn => None,
        SubqueryPosition::Where => None,
        SubqueryPosition::GroupBy => None,
        SubqueryPosition::Having => Some("HAVING"@),
        SubqueryPosition::OrderBy => Some("ORDER BY"@),
        SubqueryPosition::LimitOffset => Some("LIMIT/OFFSET"@),
    }
}

/// The message that correlated subqueries are not supported in a clause.
pub open spec fn says_not_supported(clause: Seq<char>) -> ErrorView {
    ErrorView::ParseError(
        "correlated subqueries in "@ + clause + " clause are not supported yet"@,
    )
}

/// The message that the two sides of an `IN` do not fit.
pub open spec fn says_sides_differ() -> ErrorView {
    ErrorView::ParseError(
        "lhs of IN subquery must have the same number of columns as the subquery"@,
    )
}

/// The message that numbers or registers have run out.
pub open spec fn says_no_room() -> ErrorView {
    ErrorView::InternalError("program builder is out of capacity"@)
}

/// What is left of an expression without the parentheses around a single expression.
pub open spec fn without_parentheses(t: ExprTree) -> ExprTree
    decreases t,
{
    if t.kind is Parenthesized && t.children.len() == 1 {
        without_parentheses(t.children[0].tree)
    } else {
        t
    }
}

/// The left side of an `IN` is a row of so many columns: the members of a parenthesized list, or
/// else the one expression that it is.
pub open spec fn is_row_of(lhs: ExprTree, columns: nat) -> bool {
    let t = without_parentheses(lhs);
    if t.kind is Parenthesized {
        columns == t.children.len()
    } else {
        columns == 1
    }
}

proof fn columns_make_a_row(lhs: ExprTree)
    ensures
        forall|columns: nat| is_row_of(lhs, columns) <==> columns == lhs_columns(lhs),
    decreases lhs,
{
    if lhs.kind is Parenthesized && lhs.children.len() == 1 {
        let inner = lhs.children[0].tree;
        columns_make_a_row(inner);
        assert(without_parentheses(lhs) == without_parentheses(inner));
        assert forall|columns: nat| is_row_of(lhs, columns) <==> columns == lhs_columns(lhs) by {
            assert(is_row_of(inner, columns) <==> columns == lhs_columns(inner));
        }
    }
}

/// There is no number left for a subquery, or no register for its result.
pub open spec fn has_no_room(before: ProgramView, kind: ExprKind, a: PlanAnswer) -> bool {
    ||| before.next_table_id >= usize::MAX
    ||| kind is Exists && before.next_free_register >= usize::MAX
    ||| kind is Subquery && a.program.next_free_register + a.improved.result_columns@.len()
        > usize::MAX
}

/// The two sides of an `IN` do not have the same number of columns.
pub open spec fn sides_differ(t: ExprTree, a: PlanAnswer) -> bool {
    t.kind is InSelect && !is_row_of(t.children[0].tree, a.improved.result_columns@.len())
}

/// A subquery uses a column of a table further out in a clause where that is not supported.
pub open spec fn is_refused(position: SubqueryPosition, a: PlanAnswer) -> bool {
    refused_in(position) is Some && uses_outer_column(a.improved)
}

proof fn settled_plan<C: SelectCompiler>(
    c: C,
    before: ProgramView,
    select: Select,
    clause: Clause,
    destination: QueryDestination,
    after: ProgramView,
    result: Result<SelectPlan, ErrorView>,
)
    requires
        settled(
            c,
            before,
            select,
            clause.resolver,
            clause.refs,
            destination,
            after,
            result,
        ),
        plans_everything(c),
    ensures
        result matches Ok(plan) && collation_failure(plan.result_columns@, 0) is None,
{
    let plan = result->Ok_0;
    collations_known(plan.result_columns@, 0);
}

proof fn collations_known(columns: Seq<ResultSetColumn>, start: nat)
    requires
        forall|i: int| 0 <= i < columns.len() ==> (#[trigger] columns[i]).collation is Ok,
    ensures
        collation_failure(columns, start) is None,
    decreases columns.len() - start,
{
    if start < columns.len() {
        assert(columns[start as int].collation is Ok);
        collations_known(columns, start + 1);
    }
}

/// What the clauses are called in messages, and which of them a correlated subquery may stand in.
pub proof fn clauses_have_their_names(position: SubqueryPosition)
    ensures
        position is ResultColumn ==> position.may_correlate() && position.clause()
            == "SELECT list"@,
        position is Where ==> position.may_correlate() && position.clause() == "WHERE"@,
        position is GroupBy ==> position.may_correlate() && position.clause() == "GROUP BY"@,
        position is Having ==> !position.may_correlate() && position.clause() == "HAVING"@,
        position is OrderBy ==> !position.may_correlate() && position.clause() == "ORDER BY"@,
        position is LimitOffset ==> !position.may_correlate() && position.clause()
            == "LIMIT/OFFSET"@,
{
}

proof fn refused_by_position(position: SubqueryPosition)
    ensures
        position.may_correlate() <==> refused_in(position) is None,
        refused_in(position) matches Some(clause) ==> unsupported_correlation(position)
            == says_not_supported(clause),
{
}

/// What a visit of a subquery comes to, if the compiler has a plan for every `SELECT`. It fails
/// where there is no room, where the two sides of an `IN` do not fit, and where the subquery uses a
/// column of a table further out in a clause that does not support it. Otherwise it succeeds. In
/// particular no subquery of the result columns, of `WHERE` or of `GROUP BY` is refused for using a
/// column of a table further out.
pub open spec fn comes_to<C: SelectCompiler>(
    c: C,
    clause: Clause,
    before: ProgramView,
    t: ExprTree,
    a: PlanAnswer,
    result: Result<(), ErrorView>,
) -> bool {
    let starts = before.next_table_id < usize::MAX && (t.kind is Exists ==>
        before.next_free_register < usize::MAX);
    &&& starts ==> asks_for_plan(c, clause, before, t.kind, a)
    &&& result == if has_no_room(before, t.kind, a) {
        Err::<(), ErrorView>(says_no_room())
    } else if sides_differ(t, a) {
        Err(says_sides_differ())
    } else if is_refused(clause.position, a) {
        Err(says_not_supported(refused_in(clause.position)->0))
    } else {
        Ok(())
    }
}

/// A visit of a subquery comes to what it should.
pub proof fn visit_comes_to<C: SelectCompiler>(
    c: C,
    clause: Clause,
    before: PlanState,
    t: ExprTree,
    after: PlanState,
    tree: ExprTree,
    result: Result<(), ErrorView>,
) -> (a: PlanAnswer)
    requires
        visited(c, clause, before, t, after, tree, result),
        select_of(t.kind) is Some,
        plans_everything(c),
        before.program.next_free_register <= usize::MAX,
        before.program.next_label <= usize::MAX,
    ensures
        comes_to(c, clause, before.program, t, a, result),
{
    refused_by_position(clause.position);
    if !before.program.has_room(registers_taken(t.kind), 0, 1) {
        arbitrary()
    } else {
        match t.kind {
            ExprKind::Exists(select) => exists_comes_to(c, clause, before, t, after, tree, result),
            ExprKind::Subquery(select) => row_value_comes_to(
                c,
                clause,
                before,
                t,
                after,
                tree,
                result,
            ),
            _ => in_comes_to(c, clause, before, t, after, tree, result),
        }
    }
}

proof fn exists_comes_to<C: SelectCompiler>(
    c: C,
    clause: Clause,
    before: PlanState,
    t: ExprTree,
    after: PlanState,
    tree: ExprTree,
    result: Result<(), ErrorView>,
) -> (a: PlanAnswer)
    requires
        visited(c, clause, before, t, after, tree, result),
        before.program.has_room(registers_taken(t.kind), 0, 1),
        t.kind is Exists,
        plans_everything(c),
    ensures
        comes_to(c, clause, before.program, t, a, result),
{
    refused_by_position(clause.position);
    let select = t.kind->Exists_0;
    let result_reg = before.program.register(0);
    let asked = before.program.with_table_id().with_registers(1);
    let destination = QueryDestination::ExistsSubqueryResult { result_reg };
    let planned: Result<SelectPlan, ErrorView> = choose|planned: Result<SelectPlan, ErrorView>|
        {
            &&& #[trigger] settled(
                c,
                asked,
                select,
                clause.resolver,
                clause.refs,
                destination,
                after.program,
                planned,
            )
            &&& match planned {
                Err(e) => true,
                Ok(plan) => exists_finished(
                    plan,
                    before.program.table_id(),
                    result_reg,
                    clause.position,
                    before.subqueries,
                    after.subqueries,
                    result,
                ),
            }
        };
    settled_plan(c, asked, select, clause, destination, after.program, planned);
    let first = settled_steps(c, asked, select, clause, destination, after.program, planned);
    let improved = planned->Ok_0;
    let query_type = SubqueryType::Exists { result_reg };
    let plan: SelectPlan = choose|limited: SelectPlan| #[trigger]
        limited_to_one(improved, limited) && enters(
            before.subqueries,
            unevaluated(before.program.table_id(), query_type, limited),
            clause.position,
            after.subqueries,
            result,
        );
    correlated_plans_use_outer_columns(plan);
    assert(plan.table_references == improved.table_references);
    assert(uses_outer_column(plan) == uses_outer_column(improved));
    PlanAnswer { asked, destination, program: after.program, planned: first, improved }
}

proof fn row_value_comes_to<C: SelectCompiler>(
    c: C,
    clause: Clause,
    before: PlanState,
    t: ExprTree,
    after: PlanState,
    tree: ExprTree,
    result: Result<(), ErrorView>,
) -> (a: PlanAnswer)
    requires
        visited(c, clause, before, t, after, tree, result),
        before.program.has_room(registers_taken(t.kind), 0, 1),
        t.kind is Subquery,
        plans_everything(c),
    ensures
        comes_to(c, clause, before.program, t, a, result),
{
    refused_by_position(clause.position);
    let select = t.kind->Subquery_0;
    let id = before.program.table_id();
    let asked = before.program.with_table_id();
    let destination = QueryDestination::Unset;
    let (program, planned): (ProgramView, Result<SelectPlan, ErrorView>) = choose|
        program: ProgramView,
        planned: Result<SelectPlan, ErrorView>,
    |
        {
            &&& #[trigger] settled(
                c,
                asked,
                select,
                clause.resolver,
                clause.refs,
                destination,
                program,
                planned,
            )
            &&& match planned {
                Err(e) => true,
                Ok(plan) => exists|query_type: SubqueryType| #[trigger]
                    row_value_finished(
                        plan,
                        id,
                        clause.position,
                        program,
                        before.subqueries,
                        after.program,
                        after.subqueries,
                        query_type,
                        result,
                    ),
            }
        };
    settled_plan(c, asked, select, clause, destination, program, planned);
    let first = settled_steps(c, asked, select, clause, destination, program, planned);
    let improved = planned->Ok_0;
    let n = improved.result_columns@.len();
    let start = program.register(0);
    if program.has_room(n, 0, 0) {
        let query_type = SubqueryType::RowValue { result_reg_start: start, num_regs: n as usize };
        let plan: SelectPlan = choose|directed: SelectPlan| #[trigger]
            directed_to_registers(improved, directed, start, n as usize) && enters(
                before.subqueries,
                unevaluated(id, query_type, directed),
                clause.position,
                after.subqueries,
                result,
            );
        correlated_plans_use_outer_columns(plan);
        assert(plan.table_references == improved.table_references);
        assert(uses_outer_column(plan) == uses_outer_column(improved));
    }
    PlanAnswer { asked, destination, program, planned: first, improved }
}

proof fn in_comes_to<C: SelectCompiler>(
    c: C,
    clause: Clause,
    before: PlanState,
    t: ExprTree,
    after: PlanState,
    tree: ExprTree,
    result: Result<(), ErrorView>,
) -> (a: PlanAnswer)
    requires
        visited(c, clause, before, t, after, tree, result),
        before.program.has_room(registers_taken(t.kind), 0, 1),
        t.kind is InSelect,
        plans_everything(c),
    ensures
        comes_to(c, clause, before.program, t, a, result),
{
    refused_by_position(clause.position);
    let select = t.kind->InSelect_rhs;
    let lhs = t.children[0];
    columns_make_a_row(lhs.tree);
    let id = before.program.table_id();
    let asked = before.program.with_table_id();
    let destination = QueryDestination::Unset;
    let (program, planned): (ProgramView, Result<SelectPlan, ErrorView>) = choose|
        program: ProgramView,
        planned: Result<SelectPlan, ErrorView>,
    |
        {
            &&& #[trigger] settled(
                c,
                asked,
                select,
                clause.resolver,
                clause.refs,
                destination,
                program,
                planned,
            )
            &&& match planned {
                Err(e) => true,
                Ok(plan) => in_replaced(
                    plan,
                    lhs,
                    t.kind->InSelect_not,
                    id,
                    clause.position,
                    PlanState { program, ..before },
                    after,
                    tree,
                    result,
                ),
            }
        };
    settled_plan(c, asked, select, clause, destination, program, planned);
    let first = settled_steps(c, asked, select, clause, destination, program, planned);
    let improved = planned->Ok_0;
    let columns = improved.result_columns@;
    let cursor = program.cursor();
    let index = ephemeral_index(columns, id);
    if lhs_columns(lhs.tree) == columns.len() {
        let plan: SelectPlan = choose|directed: SelectPlan| #[trigger]
            directed_to_index(improved, directed, cursor, index) && enters(
                before.subqueries,
                unevaluated(id, SubqueryType::In { cursor_id: cursor }, directed),
                clause.position,
                after.subqueries,
                result,
            );
        correlated_plans_use_outer_columns(plan);
        assert(plan.table_references == improved.table_references);
        assert(uses_outer_column(plan) == uses_outer_column(improved));
    }
    PlanAnswer { asked, destination, program, planned: first, improved }
}

// ---------------------------------------------------------------------------------------------
// What the compiler fails with.

/// The compiler has no plan for a `SELECT`, or cannot improve it, and the error says why; or the
/// plan is one of several queries put together.
pub open spec fn plan_fails_with<C: SelectCompiler>(
    c: C,
    clause: Clause,
    select: Select,
    e: ErrorView,
) -> bool {
    ||| exists|p: ProgramView, to: QueryDestination, q: ProgramView, error: LimboError|
        #[trigger] prepares(c, p, select, clause.resolver, clause.refs, to, q, Err(error)) && e
            == error@
    ||| {
        &&& e == ErrorView::ParseError(
            "compound SELECT queries not supported yet in WHERE clause subqueries"@,
        )
        &&& exists|p: ProgramView, to: QueryDestination, q: ProgramView| #[trigger]
            prepares(
                c,
                p,
                select,
                clause.resolver,
                clause.refs,
                to,
                q,
                Ok(Plan::CompoundSelect),
            )
    }
    ||| exists|plan: SelectPlan, error: LimboError| #[trigger]
        optimizes(c, plan, clause.resolver.schema, Err(error)) && e == error@
}

/// It cannot be said how the first of the columns compares for which that cannot be said.
pub open spec fn is_first_collation_failure(columns: Seq<ResultSetColumn>, e: ErrorView) -> bool {
    exists|i: int|
        {
            &&& 0 <= i < columns.len()
            &&& (#[trigger] columns[i]).collation matches Err(error) && e == error@
            &&& forall|j: int| 0 <= j < i ==> (#[trigger] columns[j]).collation is Ok
        }
}

proof fn first_collation_failure(columns: Seq<ResultSetColumn>, start: nat)
    requires
        forall|j: int|
            0 <= j < start && j < columns.len() ==> (#[trigger] columns[j]).collation is Ok,
    ensures
        collation_failure(columns, start) matches Some(error) ==> is_first_collation_failure(
            columns,
            error@,
        ),
    decreases columns.len() - start,
{
    if start < columns.len() {
        match columns[start as int].collation {
            Err(_) => {},
            Ok(_) => {
                first_collation_failure(columns, start + 1);
            },
        }
    }
}

/// A visit of a subquery fails with what the compiler fails with; or, for an `IN` whose two sides
/// fit, with what keeps the first column from saying how it compares; or for the reasons that do
/// not lie with the compiler.
pub open spec fn visit_fails_with<C: SelectCompiler>(
    c: C,
    clause: Clause,
    t: ExprTree,
    e: ErrorView,
) -> bool {
    ||| e == says_no_room()
    ||| select_of(t.kind) is Some && plan_fails_with(c, clause, select_of(t.kind)->0, e)
    ||| exists|plan: SelectPlan, improved: SelectPlan|
        {
            &&& #[trigger] optimizes(c, plan, clause.resolver.schema, Ok(improved))
            &&& {
                ||| {
                    &&& t.kind is InSelect
                    &&& !is_row_of(t.children[0].tree, improved.result_columns@.len())
                    &&& e == says_sides_differ()
                }
                ||| {
                    &&& t.kind is InSelect
                    &&& is_row_of(t.children[0].tree, improved.result_columns@.len())
                    &&& is_first_collation_failure(improved.result_columns@, e)
                }
                ||| {
                    &&& refused_in(clause.position) is Some
                    &&& uses_outer_column(improved)
                    &&& e == says_not_supported(refused_in(clause.position)->0)
                }
            }
        }
}

proof fn settling_fails<C: SelectCompiler>(
    c: C,
    before: ProgramView,
    select: Select,
    clause: Clause,
    destination: QueryDestination,
    after: ProgramView,
    result: Result<SelectPlan, ErrorView>,
)
    requires
        settled(
            c,
            before,
            select,
            clause.resolver,
            clause.refs,
            destination,
            after,
            result,
        ),
    ensures
        result matches Err(e) ==> plan_fails_with(c, clause, select, e),
        result matches Ok(improved) ==> exists|plan: SelectPlan| #[trigger]
            optimizes(c, plan, clause.resolver.schema, Ok(improved)),
{
    let reply: Result<Plan, LimboError> = choose|reply: Result<Plan, LimboError>|
        {
            &&& #[trigger] prepares(
                c,
                before,
                select,
                clause.resolver,
                clause.refs,
                destination,
                after,
                reply,
            )
            &&& match reply {
                Err(e) => result == Err::<SelectPlan, ErrorView>(e@),
                Ok(Plan::CompoundSelect) => result == Err::<SelectPlan, ErrorView>(
                    compound_select(),
                ),
                Ok(Plan::Select(plan)) => exists|improved: Result<SelectPlan, LimboError>|
                    #[trigger] optimizes(c, plan, clause.resolver.schema, improved) && result
                        == outcome(improved),
            }
        };
    match reply {
        Err(_) => {},
        Ok(Plan::CompoundSelect) => {
            assert(reply == Ok::<Plan, LimboError>(Plan::CompoundSelect));
        },
        Ok(Plan::Select(plan)) => {
            let improved = choose|improved: Result<SelectPlan, LimboError>| #[trigger]
                optimizes(c, plan, clause.resolver.schema, improved) && result == outcome(
                    improved,
                );
            match improved {
                Ok(x) => {
                    assert(optimizes(c, plan, clause.resolver.schema, Ok(x)));
                },
                Err(x) => {
                    assert(optimizes(c, plan, clause.resolver.schema, Err(x)));
                },
            }
        },
    }
}

proof fn entering_fails(
    subqueries: Seq<NonFromClauseSubquery>,
    plan: SelectPlan,
    improved: SelectPlan,
    subquery: NonFromClauseSubquery,
    position: SubqueryPosition,
    after: Seq<NonFromClauseSubquery>,
    result: Result<(), ErrorView>,
)
    requires
        enters(subqueries, subquery, position, after, result),
        subquery.correlated == correlates(plan),
        plan.table_references == improved.table_references,
    ensures
        result matches Err(e) ==> {
            &&& refused_in(position) is Some
            &&& uses_outer_column(improved)
            &&& e == says_not_supported(refused_in(position)->0)
        },
{
    refused_by_position(position);
    correlated_plans_use_outer_columns(plan);
    assert(uses_outer_column(plan) == uses_outer_column(improved));
}

/// A visit fails for no other reason.
pub proof fn visit_failure_has_a_reason<C: SelectCompiler>(
    c: C,
    clause: Clause,
    before: PlanState,
    t: ExprTree,
    after: PlanState,
    tree: ExprTree,
    result: Result<(), ErrorView>,
)
    requires
        visited(c, clause, before, t, after, tree, result),
    ensures
        result matches Err(e) ==> visit_fails_with(c, clause, t, e),
{
    if result is Err && before.program.has_room(registers_taken(t.kind), 0, 1) {
        match t.kind {
            ExprKind::Exists(select) => exists_fails(c, clause, before, t, after, tree, result),
            ExprKind::Subquery(select) => row_value_fails(
                c,
                clause,
                before,
                t,
                after,
                tree,
                result,
            ),
            _ => in_fails(c, clause, before, t, after, tree, result),
        }
    }
}

proof fn exists_fails<C: SelectCompiler>(
    c: C,
    clause: Clause,
    before: PlanState,
    t: ExprTree,
    after: PlanState,
    tree: ExprTree,
    result: Result<(), ErrorView>,
)
    requires
        visited(c, clause, before, t, after, tree, result),
        before.program.has_room(registers_taken(t.kind), 0, 1),
        t.kind is Exists,
        result is Err,
    ensures
        visit_fails_with(c, clause, t, result->Err_0),
{
    let select = t.kind->Exists_0;
    let result_reg = before.program.register(0);
    let asked = before.program.with_table_id().with_registers(1);
    let destination = QueryDestination::ExistsSubqueryResult { result_reg };
    let planned: Result<SelectPlan, ErrorView> = choose|planned: Result<SelectPlan, ErrorView>|
        {
            &&& #[trigger] settled(
                c,
                asked,
                select,
                clause.resolver,
                clause.refs,
                destination,
                after.program,
                planned,
            )
            &&& match planned {
                Err(e) => result == Err::<(), ErrorView>(e),
                Ok(plan) => exists_finished(
                    plan,
                    before.program.table_id(),
                    result_reg,
                    clause.position,
                    before.subqueries,
                    after.subqueries,
                    result,
                ),
            }
        };
    settling_fails(c, asked, select, clause, destination, after.program, planned);
    if let Ok(improved) = planned {
        let query_type = SubqueryType::Exists { result_reg };
        let plan: SelectPlan = choose|limited: SelectPlan| #[trigger]
            limited_to_one(improved, limited) && enters(
                before.subqueries,
                unevaluated(before.program.table_id(), query_type, limited),
                clause.position,
                after.subqueries,
                result,
            );
        entering_fails(
            before.subqueries,
            plan,
            improved,
            unevaluated(before.program.table_id(), query_type, plan),
            clause.position,
            after.subqueries,
            result,
        );
    }
}

proof fn row_value_fails<C: SelectCompiler>(
    c: C,
    clause: Clause,
    before: PlanState,
    t: ExprTree,
    after: PlanState,
    tree: ExprTree,
    result: Result<(), ErrorView>,
)
    requires
        visited(c, clause, before, t, after, tree, result),
        before.program.has_room(registers_taken(t.kind), 0, 1),
        t.kind is Subquery,
        result is Err,
    ensures
        visit_fails_with(c, clause, t, result->Err_0),
{
    let select = t.kind->Subquery_0;
    let id = before.program.table_id();
    let asked = before.program.with_table_id();
    let destination = QueryDestination::Unset;
    let (program, planned): (ProgramView, Result<SelectPlan, ErrorView>) = choose|
        program: ProgramView,
        planned: Result<SelectPlan, ErrorView>,
    |
        {
            &&& #[trigger] settled(
                c,
                asked,
                select,
                clause.resolver,
                clause.refs,
                destination,
                program,
                planned,
            )
            &&& match planned {
                Err(e) => result == Err::<(), ErrorView>(e),
                Ok(plan) => exists|query_type: SubqueryType| #[trigger]
                    row_value_finished(
                        plan,
                        id,
                        clause.position,
                        program,
                        before.subqueries,
                        after.program,
                        after.subqueries,
                        query_type,
                        result,
                    ),
            }
        };
    settling_fails(c, asked, select, clause, destination, program, planned);
    if let Ok(improved) = planned {
        let n = improved.result_columns@.len();
        let start = program.register(0);
        if program.has_room(n, 0, 0) {
            let query_type = SubqueryType::RowValue {
                result_reg_start: start,
                num_regs: n as usize,
            };
            let plan: SelectPlan = choose|directed: SelectPlan| #[trigger]
                directed_to_registers(improved, directed, start, n as usize) && enters(
                    before.subqueries,
                    unevaluated(id, query_type, directed),
                    clause.position,
                    after.subqueries,
                    result,
                );
            entering_fails(
                before.subqueries,
                plan,
                improved,
                unevaluated(id, query_type, plan),
                clause.position,
                after.subqueries,
                result,
            );
        }
    }
}

proof fn in_fails<C: SelectCompiler>(
    c: C,
    clause: Clause,
    before: PlanState,
    t: ExprTree,
    after: PlanState,
    tree: ExprTree,
    result: Result<(), ErrorView>,
)
    requires
        visited(c, clause, before, t, after, tree, result),
        before.program.has_room(registers_taken(t.kind), 0, 1),
        t.kind is InSelect,
        result is Err,
    ensures
        visit_fails_with(c, clause, t, result->Err_0),
{
    let select = t.kind->InSelect_rhs;
    let lhs = t.children[0];
    columns_make_a_row(lhs.tree);
    let id = before.program.table_id();
    let asked = before.program.with_table_id();
    let destination = QueryDestination::Unset;
    let (program, planned): (ProgramView, Result<SelectPlan, ErrorView>) = choose|
        program: ProgramView,
        planned: Result<SelectPlan, ErrorView>,
    |
        {
            &&& #[trigger] settled(
                c,
                asked,
                select,
                clause.resolver,
                clause.refs,
                destination,
                program,
                planned,
            )
            &&& match planned {
                Err(e) => result == Err::<(), ErrorView>(e),
                Ok(plan) => in_replaced(
                    plan,
                    lhs,
                    t.kind->InSelect_not,
                    id,
                    clause.position,
                    PlanState { program, ..before },
                    after,
                    tree,
                    result,
                ),
            }
        };
    settling_fails(c, asked, select, clause, destination, program, planned);
    if let Ok(improved) = planned {
        let columns = improved.result_columns@;
        let cursor = program.cursor();
        let index = ephemeral_index(columns, id);
        first_collation_failure(columns, 0);
        if lhs_columns(lhs.tree) == columns.len() && collation_failure(columns, 0) is None {
            let plan: SelectPlan = choose|directed: SelectPlan| #[trigger]
                directed_to_index(improved, directed, cursor, index) && enters(
                    before.subqueries,
                    unevaluated(id, SubqueryType::In { cursor_id: cursor }, directed),
                    clause.position,
                    after.subqueries,
                    result,
                );
            entering_fails(
                before.subqueries,
                plan,
                improved,
                unevaluated(id, SubqueryType::In { cursor_id: cursor }, plan),
                clause.position,
                after.subqueries,
                result,
            );
        }
    }
}

// ---------------------------------------------------------------------------------------------
// Walking expressions.

/// There is a subquery somewhere in an expression.
pub open spec fn contains_subquery(t: ExprTree) -> bool
    decreases t,
{
    ||| select_of(t.kind) is Some
    ||| exists|i: int|
        0 <= i < t.children.len() && contains_subquery((#[trigger] t.children[i]).tree)
}

/// There is an `IN` with a subquery somewhere in an expression.
pub open spec fn contains_in(t: ExprTree) -> bool
    decreases t,
{
    ||| t.kind is InSelect
    ||| exists|i: int| 0 <= i < t.children.len() && contains_in((#[trigger] t.children[i]).tree)
}

/// There is a subquery somewhere in several expressions.
pub open spec fn contain_subquery(children: Seq<Child>) -> bool {
    exists|i: int| 0 <= i < children.len() && contains_subquery((#[trigger] children[i]).tree)
}

/// There is an `IN` with a subquery somewhere in several expressions.
pub open spec fn contain_in(children: Seq<Child>) -> bool {
    exists|i: int| 0 <= i < children.len() && contains_in((#[trigger] children[i]).tree)
}

/// A plan that the compiler gives for a subquery of a clause uses a column of a table further out.
pub open spec fn some_plan_correlates<C: SelectCompiler>(c: C, clause: Clause) -> bool {
    exists|program: ProgramView, kind: ExprKind, a: PlanAnswer| #[trigger]
        asks_for_plan(c, clause, program, kind, a) && uses_outer_column(a.improved)
}

/// A clause fails for one of three reasons, if the compiler has a plan for every `SELECT`: numbers
/// or registers have run out; the two sides of an `IN` do not fit; or a subquery uses a column of a
/// table further out, and the clause is one of those where that is not supported.
pub open spec fn is_reason<C: SelectCompiler>(
    c: C,
    clause: Clause,
    is_in: bool,
    e: ErrorView,
) -> bool {
    ||| e == says_no_room()
    ||| is_in && e == says_sides_differ()
    ||| {
        &&& refused_in(clause.position) is Some
        &&& e == says_not_supported(refused_in(clause.position)->0)
        &&& some_plan_correlates(c, clause)
    }
}

proof fn visit_fails_for_a_reason<C: SelectCompiler>(
    c: C,
    clause: Clause,
    before: PlanState,
    t: ExprTree,
    after: PlanState,
    tree: ExprTree,
    result: Result<(), ErrorView>,
)
    requires
        visited(c, clause, before, t, after, tree, result),
        plans_everything(c),
    ensures
        result matches Err(e) ==> select_of(t.kind) is Some && is_reason(
            c,
            clause,
            t.kind is InSelect,
            e,
        ),
{
    if result is Err && before.program.has_room(registers_taken(t.kind), 0, 1) {
        let a = match t.kind {
            ExprKind::Exists(select) => exists_comes_to(c, clause, before, t, after, tree, result),
            ExprKind::Subquery(select) => row_value_comes_to(
                c,
                clause,
                before,
                t,
                after,
                tree,
                result,
            ),
            _ => in_comes_to(c, clause, before, t, after, tree, result),
        };
        assert(comes_to(c, clause, before.program, t, a, result));
        if is_refused(clause.position, a) {
            assert(asks_for_plan(c, clause, before.program, t.kind, a));
        }
    }
}

proof fn walk_fails_for_a_reason<C: SelectCompiler>(
    c: C,
    clause: Clause,
    before: PlanState,
    t: ExprTree,
    after: PlanState,
    tree: ExprTree,
    result: Result<(), ErrorView>,
)
    requires
        walked(c, clause, before, t, after, tree, result),
        plans_everything(c),
    ensures
        result matches Err(e) ==> contains_subquery(t) && is_reason(
            c,
            clause,
            contains_in(t),
            e,
        ),
    decreases t,
{
    let (mid, seen, r) = walk_steps(c, clause, before, t, after, tree, result);
    visit_fails_for_a_reason(c, clause, before, t, mid, seen, r);
    if r is Ok {
        walks_fail_for_a_reason(c, clause, mid, t.children, after, tree.children, result);
        if contain_in(t.children) {
            let i = choose|i: int|
                0 <= i < t.children.len() && contains_in((#[trigger] t.children[i]).tree);
            assert(contains_in(t.children[i].tree));
            assert(contains_in(t));
        }
        if contain_subquery(t.children) {
            let i = choose|i: int|
                0 <= i < t.children.len() && contains_subquery((#[trigger] t.children[i]).tree);
            assert(contains_subquery(t.children[i].tree));
            assert(contains_subquery(t));
        }
    }
}

/// If the compiler has a plan for every `SELECT`, walking expressions fails only for a reason that
/// lies in a subquery of them and the clause.
pub proof fn walks_fail_for_a_reason<C: SelectCompiler>(
    c: C,
    clause: Clause,
    before: PlanState,
    children: Seq<Child>,
    after: PlanState,
    walked_children: Seq<Child>,
    result: Result<(), ErrorView>,
)
    requires
        children_walked(c, clause, before, children, after, walked_children, result),
        plans_everything(c),
    ensures
        result matches Err(e) ==> contain_subquery(children) && is_reason(
            c,
            clause,
            contain_in(children),
            e,
        ),
    decreases children,
{
    if children.len() > 0 {
        let (mid, r) = walks_steps(c, clause, before, children, after, walked_children, result);
        let earlier = children.drop_last();
        walks_fail_for_a_reason(
            c,
            clause,
            before,
            earlier,
            mid,
            walked_children.drop_last(),
            r,
        );
        if r is Ok {
            walk_fails_for_a_reason(
                c,
                clause,
                mid,
                children.last().tree,
                after,
                walked_children.last().tree,
                result,
            );
        }
        if contain_in(earlier) {
            let i = choose|i: int|
                0 <= i < earlier.len() && contains_in((#[trigger] earlier[i]).tree);
            assert(contains_in(children[i].tree));
        }
        if contains_in(children.last().tree) {
            assert(contains_in(children[children.len() - 1].tree));
        }
        if contain_subquery(earlier) {
            let i = choose|i: int|
                0 <= i < earlier.len() && contains_subquery((#[trigger] earlier[i]).tree);
            assert(contains_subquery(children[i].tree));
        }
        if contains_subquery(children.last().tree) {
            assert(contains_subquery(children[children.len() - 1].tree));
        }
    }
}

// ---------------------------------------------------------------------------------------------
// The clauses of a query, by name.

/// The conditions of `WHERE`.
pub open spec fn where_exprs(plan: SelectPlan) -> Seq<Child> {
    Seq::new(
        plan.where_clause@.len(),
        |i: int| Child { role: Role::Operand, tree: plan.where_clause@[i].expr@ },
    )
}

/// The expressions of `GROUP BY`.
pub open spec fn group_by_exprs(plan: SelectPlan) -> Seq<Child> {
    match plan.group_by {
        None => seq![],
        Some(group_by) => Seq::new(
            group_by.exprs@.len(),
            |i: int| Child { role: Role::Operand, tree: group_by.exprs@[i]@ },
        ),
    }
}

/// The conditions of `HAVING`.
pub open spec fn having_exprs(plan: SelectPlan) -> Seq<Child> {
    match plan.group_by {
        None => seq![],
        Some(group_by) => match group_by.having {
            None => seq![],
            Some(having) => Seq::new(
                having@.len(),
                |i: int| Child { role: Role::Operand, tree: having@[i]@ },
            ),
        },
    }
}

/// The result columns.
pub open spec fn column_exprs(plan: SelectPlan) -> Seq<Child> {
    Seq::new(
        plan.result_columns@.len(),
        |i: int| Child { role: Role::Operand, tree: plan.result_columns@[i].expr@ },
    )
}

/// The expressions of `ORDER BY`.
pub open spec fn order_by_exprs(plan: SelectPlan) -> Seq<Child> {
    Seq::new(
        plan.order_by@.len(),
        |i: int| Child { role: Role::Operand, tree: (*plan.order_by@[i].0)@ },
    )
}

/// The expression of `LIMIT`, if there is one.
pub open spec fn limit_exprs(plan: SelectPlan) -> Seq<Child> {
    match plan.limit {
        None => seq![],
        Some(limit) => seq![Child { role: Role::Operand, tree: (*limit)@ }],
    }
}

/// The expression of `OFFSET`, if there is one.
pub open spec fn offset_exprs(plan: SelectPlan) -> Seq<Child> {
    match plan.offset {
        None => seq![],
        Some(offset) => seq![Child { role: Role::Operand, tree: (*offset)@ }],
    }
}

proof fn sections_by_name(plan: SelectPlan)
    ensures
        sections(plan).len() == 7,
        sections(plan)[0] == where_exprs(plan),
        sections(plan)[1] == group_by_exprs(plan),
        sections(plan)[2] == having_exprs(plan),
        sections(plan)[3] == column_exprs(plan),
        sections(plan)[4] == order_by_exprs(plan),
        sections(plan)[5] == limit_exprs(plan),
        sections(plan)[6] == offset_exprs(plan),
{
    assert(sections(plan)[0] =~= where_exprs(plan));
    assert(sections(plan)[1] =~= group_by_exprs(plan));
    assert(sections(plan)[2] =~= having_exprs(plan));
    assert(sections(plan)[3] =~= column_exprs(plan));
    assert(sections(plan)[4] =~= order_by_exprs(plan));
}

/// How far the planning of a query is behind each of its clauses.
pub struct ClauseStates {
    pub after_where: PlanState,
    pub after_group_by: PlanState,
    pub after_having: PlanState,
    pub after_columns: PlanState,
    pub after_order_by: PlanState,
    pub after_limit: PlanState,
}

/// The clauses of a query are walked one after the other: `WHERE`, `GROUP BY`, `HAVING`, the result
/// columns, `ORDER BY`, `LIMIT` and `OFFSET`, each under its own name. The subqueries of the last
/// two see no table.
pub open spec fn clauses_are_walked<C: SelectCompiler>(
    c: C,
    scope: QueryScope,
    before: PlanState,
    plan: SelectPlan,
    s: ClauseStates,
    after: PlanState,
    planned: SelectPlan,
) -> bool {
    let resolver = scope.resolver;
    let refs = scope.refs;
    &&& children_walked(
        c,
        Clause { resolver, refs, position: SubqueryPosition::Where },
        before,
        where_exprs(plan),
        s.after_where,
        where_exprs(planned),
        Ok(()),
    )
    &&& children_walked(
        c,
        Clause { resolver, refs, position: SubqueryPosition::GroupBy },
        s.after_where,
        group_by_exprs(plan),
        s.after_group_by,
        group_by_exprs(planned),
        Ok(()),
    )
    &&& children_walked(
        c,
        Clause { resolver, refs, position: SubqueryPosition::Having },
        s.after_group_by,
        having_exprs(plan),
        s.after_having,
        having_exprs(planned),
        Ok(()),
    )
    &&& children_walked(
        c,
        Clause { resolver, refs, position: SubqueryPosition::ResultColumn },
        s.after_having,
        column_exprs(plan),
        s.after_columns,
        column_exprs(planned),
        Ok(()),
    )
    &&& children_walked(
        c,
        Clause { resolver, refs, position: SubqueryPosition::OrderBy },
        s.after_columns,
        order_by_exprs(plan),
        s.after_order_by,
        order_by_exprs(planned),
        Ok(()),
    )
    &&& children_walked(
        c,
        Clause { resolver, refs: seq![], position: SubqueryPosition::LimitOffset },
        s.after_order_by,
        limit_exprs(plan),
        s.after_limit,
        limit_exprs(planned),
        Ok(()),
    )
    &&& children_walked(
        c,
        Clause { resolver, refs: seq![], position: SubqueryPosition::LimitOffset },
        s.after_limit,
        offset_exprs(plan),
        after,
        offset_exprs(planned),
        Ok(()),
    )
}

/// Planning the subqueries of a query with success walks each of its clauses under its own name.
pub proof fn each_clause_is_walked_by_name<C: SelectCompiler>(
    c: C,
    scope: QueryScope,
    before: PlanState,
    plan: SelectPlan,
    after: PlanState,
    planned: SelectPlan,
    result: Result<(), ErrorView>,
) -> (s: ClauseStates)
    requires
        sections_walked(c, scope, before, sections(plan), after, sections(planned), result),
        result is Ok,
    ensures
        clauses_are_walked(c, scope, before, plan, s, after, planned),
{
    sections_by_name(plan);
    sections_by_name(planned);
    let f7 = sections(plan);
    let l7 = sections(planned);
    match result {
        Ok(unit) => {
            assert(unit == ());
        },
        Err(_) => {},
    }
    let (s6, r6) = sections_steps(c, scope, before, f7, after, l7, result);
    let f6 = f7.drop_last();
    let l6 = l7.drop_last();
    let (s5, r5) = sections_steps(c, scope, before, f6, s6, l6, r6);
    let f5 = f6.drop_last();
    let l5 = l6.drop_last();
    let (s4, r4) = sections_steps(c, scope, before, f5, s5, l5, r5);
    let f4 = f5.drop_last();
    let l4 = l5.drop_last();
    let (s3, r3) = sections_steps(c, scope, before, f4, s4, l4, r4);
    let f3 = f4.drop_last();
    let l3 = l4.drop_last();
    let (s2, r2) = sections_steps(c, scope, before, f3, s3, l3, r3);
    let f2 = f3.drop_last();
    let l2 = l3.drop_last();
    let (s1, r1) = sections_steps(c, scope, before, f2, s2, l2, r2);
    let f1 = f2.drop_last();
    let l1 = l2.drop_last();
    let (s0, r0) = sections_steps(c, scope, before, f1, s1, l1, r1);
    assert(s0 == before);
    ClauseStates {
        after_where: s1,
        after_group_by: s2,
        after_having: s3,
        after_columns: s4,
        after_order_by: s5,
        after_limit: s6,
    }
}

proof fn section_that_fails<C: SelectCompiler>(
    c: C,
    scope: QueryScope,
    before: PlanState,
    first: Seq<Seq<Child>>,
    after: PlanState,
    last: Seq<Seq<Child>>,
    result: Result<(), ErrorView>,
) -> (i: int)
    requires
        sections_walked(c, scope, before, first, after, last, result),
        plans_everything(c),
        result is Err,
    ensures
        0 <= i < first.len(),
        contain_subquery(first[i]),
        is_reason(c, section_clause(scope, i), contain_in(first[i]), result->Err_0),
    decreases first.len(),
{
    let (mid, r) = sections_steps(c, scope, before, first, after, last, result);
    if r is Err {
        section_that_fails(c, scope, before, first.drop_last(), mid, last.drop_last(), r)
    } else {
        walks_fail_for_a_reason(
            c,
            section_clause(scope, first.len() - 1),
            mid,
            first.last(),
            after,
            last.last(),
            result,
        );
        first.len() - 1
    }
}

/// Planning the subqueries of a query fails, if the compiler has a plan for every `SELECT`, only
/// - where numbers or registers have run out;
/// - where an `IN` stands whose two sides do not fit;
/// - for a correlated subquery in `HAVING`, in `ORDER BY`, or in `LIMIT` or `OFFSET`, and the
///   message names the clause that it stands in.
pub open spec fn fails_for_a_reason<C: SelectCompiler>(
    c: C,
    scope: QueryScope,
    plan: SelectPlan,
    e: ErrorView,
) -> bool {
    let resolver = scope.resolver;
    let refs = scope.refs;
    ||| e == says_no_room() && {
        ||| contain_subquery(where_exprs(plan))
        ||| contain_subquery(group_by_exprs(plan))
        ||| contain_subquery(having_exprs(plan))
        ||| contain_subquery(column_exprs(plan))
        ||| contain_subquery(order_by_exprs(plan))
        ||| contain_subquery(limit_exprs(plan))
        ||| contain_subquery(offset_exprs(plan))
    }
    ||| e == says_sides_differ() && {
        ||| contain_in(where_exprs(plan))
        ||| contain_in(group_by_exprs(plan))
        ||| contain_in(having_exprs(plan))
        ||| contain_in(column_exprs(plan))
        ||| contain_in(order_by_exprs(plan))
        ||| contain_in(limit_exprs(plan))
        ||| contain_in(offset_exprs(plan))
    }
    ||| {
        &&& e == says_not_supported("HAVING"@)
        &&& contain_subquery(having_exprs(plan))
        &&& some_plan_correlates(c, Clause { resolver, refs, position: SubqueryPosition::Having })
    }
    ||| {
        &&& e == says_not_supported("ORDER BY"@)
        &&& contain_subquery(order_by_exprs(plan))
        &&& some_plan_correlates(c, Clause { resolver, refs, position: SubqueryPosition::OrderBy })
    }
    ||| {
        &&& e == says_not_supported("LIMIT/OFFSET"@)
        &&& contain_subquery(limit_exprs(plan)) || contain_subquery(offset_exprs(plan))
        &&& some_plan_correlates(
            c,
            Clause { resolver, refs: seq![], position: SubqueryPosition::LimitOffset },
        )
    }
}

/// Planning the subqueries of a query fails only for a reason that lies in the clauses by name.
pub proof fn planning_fails_for_a_reason<C: SelectCompiler>(
    c: C,
    scope: QueryScope,
    before: PlanState,
    plan: SelectPlan,
    after: PlanState,
    planned: SelectPlan,
    result: Result<(), ErrorView>,
)
    requires
        sections_walked(c, scope, before, sections(plan), after, sections(planned), result),
        plans_everything(c),
    ensures
        result matches Err(e) ==> fails_for_a_reason(c, scope, plan, e),
{
    sections_by_name(plan);
    if result is Err {
        let i = section_that_fails(
            c,
            scope,
            before,
            sections(plan),
            after,
            sections(planned),
            result,
        );
        assert(i == 0 || i == 1 || i == 2 || i == 3 || i == 4 || i == 5 || i == 6);
    }
}

/// Correlated subqueries among the result columns, in `WHERE` and in `GROUP BY` are planned: if no
/// other clause holds a subquery, and no `IN` stands in these, planning a query succeeds, room for
/// the numbers and registers given.
pub proof fn correlated_subqueries_are_planned<C: SelectCompiler>(
    c: C,
    scope: QueryScope,
    before: PlanState,
    plan: SelectPlan,
    after: PlanState,
    planned: SelectPlan,
    result: Result<(), ErrorView>,
)
    requires
        sections_walked(c, scope, before, sections(plan), after, sections(planned), result),
        plans_everything(c),
        !contain_subquery(having_exprs(plan)),
        !contain_subquery(order_by_exprs(plan)),
        !contain_subquery(limit_exprs(plan)),
        !contain_subquery(offset_exprs(plan)),
        !contain_in(where_exprs(plan)),
        !contain_in(group_by_exprs(plan)),
        !contain_in(column_exprs(plan)),
    ensures
        result is Ok || result == Err::<(), ErrorView>(says_no_room()),
{
    planning_fails_for_a_reason(c, scope, before, plan, after, planned, result);
    in_is_a_subquery(having_exprs(plan));
    in_is_a_subquery(order_by_exprs(plan));
    in_is_a_subquery(limit_exprs(plan));
    in_is_a_subquery(offset_exprs(plan));
}

proof fn in_is_one_subquery(t: ExprTree)
    ensures
        contains_in(t) ==> contains_subquery(t),
    decreases t,
{
    if contains_in(t) && !(t.kind is InSelect) {
        let i = choose|i: int|
            0 <= i < t.children.len() && contains_in((#[trigger] t.children[i]).tree);
        in_is_one_subquery(t.children[i].tree);
    }
}

proof fn in_is_a_subquery(children: Seq<Child>)
    ensures
        contain_in(children) ==> contain_subquery(children),
{
    if contain_in(children) {
        let i = choose|i: int|
            0 <= i < children.len() && contains_in((#[trigger] children[i]).tree);
        in_is_one_subquery(children[i].tree);
    }
}

/// Planning the subqueries of a query changes nothing of its clauses but the expressions: what a
/// result column is called and how it compares, the directions of `ORDER BY`, how many terms a
/// clause has and where the rows go all stay.
pub proof fn only_expressions_change(before: SelectPlan, after: SelectPlan)
    requires
        same_but_clauses(before, after),
    ensures
        after.where_clause@.len() == before.where_clause@.len(),
        after.result_columns@.len() == before.result_columns@.len(),
        forall|i: int|
            0 <= i < before.result_columns@.len() ==> {
                &&& (#[trigger] after.result_columns@[i]).name == before.result_columns@[i].name
                &&& after.result_columns@[i].collation == before.result_columns@[i].collation
            },
        after.order_by@.len() == before.order_by@.len(),
        forall|i: int|
            0 <= i < before.order_by@.len() ==> (#[trigger] after.order_by@[i]).1
                == before.order_by@[i].1,
        match (before.group_by, after.group_by) {
            (Some(b), Some(a)) => a.exprs@.len() == b.exprs@.len() && match (b.having, a.having) {
                (Some(h), Some(k)) => k@.len() == h@.len(),
                (None, None) => true,
                _ => false,
            },
            (None, None) => true,
            _ => false,
        },
        after.limit is Some <==> before.limit is Some,
        after.offset is Some <==> before.offset is Some,
        after.query_destination == before.query_destination,
{
}

} // verus!
