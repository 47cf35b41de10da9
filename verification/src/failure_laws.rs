//! Why emitting code fails.
use crate::ast::{ExprTree, SubqueryType, TableInternalId};
use crate::clause_laws::says_no_room;
use crate::compiler::{
    emits_query, emits_select, translates_condition, translates_expr, ConditionMetadata,
    ResolverView, Schema, SelectCompiler, TableReferencesView,
};
use crate::cte_code::{
    anchor_closed, anchor_here, cte_layout, cte_loop, ephemeral_table, loop_entered, tables_opened,
    CteLayout, OtherTable,
};
use crate::from_clause::{
    coroutine_emitted, coroutine_steps, cte_table_emitted, plan_line, table_emitted, tables_emitted,
    tables_steps,
};
use crate::from_laws::cte_of;
use crate::member_laws::{external_count, is_external, tables_of_member};
use crate::nested::{frame_fits, frame_steps, subquery_emitted};
use crate::plan::{JoinedTable, OneSelect, RecursiveCte, SelectPlan, SelectTable, Table};
use crate::plan_copy::PlanTree;
use crate::program::{
    keyed_cursor, BranchOffset, CursorKey, CursorTypeView, ErrorView, LimboError, ProgramView,
};
use crate::recursive_cte::{
    anchor_fits, bound_columns, bound_conditions, conditions_steps, conditions_translated,
    cte_emitted, cte_steps, exprs_steps, exprs_translated, first_other, has_star, loop_fits,
    loops_emitted, loops_steps, member_conditions, member_emitted, member_resolver, member_tables,
    tables_looked_up,
};
use crate::text::lowercase;
use vstd::prelude::*;

verus! {

/// The compiler fails like this when it is asked for the code of a query.
pub open spec fn query_failed<C: SelectCompiler>(c: C, e: ErrorView) -> bool {
    exists|
        before: ProgramView,
        plan: PlanTree,
        labels: ProgramView,
        schema: Schema,
        after: ProgramView,
        plan_after: SelectPlan,
        error: LimboError,
    | #[trigger]
        emits_query(c, before, plan, labels, schema, after, plan_after, Err(error)) && e == error@
}

/// The compiler fails like this when it translates a condition.
pub open spec fn condition_failed<C: SelectCompiler>(c: C, e: ErrorView) -> bool {
    exists|
        before: ProgramView,
        tables: TableReferencesView,
        condition: ExprTree,
        metadata: ConditionMetadata,
        resolver: ResolverView,
        after: ProgramView,
        error: LimboError,
    | #[trigger]
        translates_condition(c, before, tables, condition, metadata, resolver, after, Err(error))
            && e == error@
}

/// The compiler fails like this when it translates an expression.
pub open spec fn expr_failed<C: SelectCompiler>(c: C, e: ErrorView) -> bool {
    exists|
        before: ProgramView,
        expr: ExprTree,
        register: usize,
        resolver: ResolverView,
        after: ProgramView,
        error: LimboError,
    | #[trigger]
        translates_expr(c, before, expr, register, resolver, after, Err(error)) && e == error@
}

// ---------------------------------------------------------------------------------------------
// Subqueries.

/// There is no register, label or level left for a subquery.
pub open spec fn subquery_has_no_room(
    before: ProgramView,
    query_type: SubqueryType,
    is_correlated: bool,
) -> bool {
    ||| !(query_type is In) && before.next_free_register >= usize::MAX
    ||| !is_correlated && before.next_label >= usize::MAX
    ||| before.nested_level >= usize::MAX
}

/// Emitting a subquery outside the `FROM` clause fails only where there is no room, or where the
/// compiler fails to emit its plan, with the same error, or where the compiler left no level to go
/// back from.
pub proof fn subquery_fails_for_a_reason<C: SelectCompiler>(
    c: C,
    before: ProgramView,
    resolver: ResolverView,
    plan: SelectPlan,
    query_type: SubqueryType,
    is_correlated: bool,
    after: ProgramView,
    e: ErrorView,
)
    requires
        subquery_emitted(
            c,
            before,
            resolver,
            plan,
            query_type,
            is_correlated,
            after,
            Err(e),
        ),
        before.next_free_register <= usize::MAX,
        before.next_label <= usize::MAX,
        before.next_table_id <= usize::MAX,
    ensures
        ({
            ||| e == says_no_room() && subquery_has_no_room(before, query_type, is_correlated)
            ||| exists|p: ProgramView, q: ProgramView, error: LimboError| #[trigger]
                emits_select(c, p, resolver, plan, q, Err(error)) && e == error@
            ||| e == ErrorView::InternalError("subquery nesting is unbalanced"@) && exists|
                p: ProgramView,
                q: ProgramView,
            | #[trigger]
                emits_select(c, p, resolver, plan, q, Ok(())) && q.nested_level == 0
        }),
{
    if frame_fits(before, query_type, is_correlated) {
        let (q, reply) = frame_steps(
            c,
            before,
            resolver,
            plan,
            query_type,
            is_correlated,
            after,
            Err(e),
        );
        match reply {
            Err(error) => {},
            Ok(unit) => {
                assert(unit == ());
            },
        }
    }
}

/// Emitting a subquery of the `FROM` clause fails only where there is no room, or where the
/// compiler fails to emit a query, with the same error.
pub proof fn coroutine_fails_for_a_reason<C: SelectCompiler>(
    c: C,
    before: ProgramView,
    plan: SelectPlan,
    schema: Schema,
    after: ProgramView,
    plan_after: SelectPlan,
    e: ErrorView,
)
    requires
        coroutine_emitted(c, before, plan, schema, after, plan_after, Err(e)),
        before.next_table_id <= usize::MAX,
    ensures
        ({
            ||| e == says_no_room() && {
                ||| before.next_free_register >= usize::MAX
                ||| before.next_label + 3 + 3 * plan.table_references.joined_tables@.len()
                    > usize::MAX
            }
            ||| query_failed(c, e)
        }),
{
    if before.has_room(1, 3 + 3 * plan.table_references.joined_tables@.len(), 0) {
        let (q, reply) = coroutine_steps(c, before, plan, schema, after, plan_after, Err(e));
    }
}

// ---------------------------------------------------------------------------------------------
// Recursive common table expressions.

/// A message says that there is no table of a name, or that it is not a regular one.
pub open spec fn says_unreadable(table: SelectTable, e: ErrorView) -> bool {
    table matches SelectTable::Table { name, .. } && {
        ||| e == ErrorView::ParseError("no such table: "@ + lowercase(name.value@))
        ||| e == ErrorView::ParseError(
            "Table '"@ + lowercase(name.value@) + "' in recursive member must be a regular table"@,
        )
    }
}

/// A recursive member is refused: it is `VALUES`, an external table of it cannot be read, it has
/// more than one of them, or it has a `*` among the result columns.
pub open spec fn is_member_refused(cte: RecursiveCte, e: ErrorView) -> bool {
    ||| {
        &&& *cte.recursive_member is Values
        &&& e == ErrorView::ParseError("Recursive member cannot be VALUES"@)
    }
    ||| exists|i: int|
        {
            &&& 0 <= i < tables_of_member(cte).len()
            &&& is_external(#[trigger] tables_of_member(cte)[i], cte.name@)
            &&& says_unreadable(tables_of_member(cte)[i], e)
        }
    ||| {
        &&& external_count(tables_of_member(cte), cte.name@) > 1
        &&& e == ErrorView::ParseError(
            "Recursive CTEs with multiple external tables are not yet supported"@,
        )
    }
    ||| {
        &&& *cte.recursive_member matches OneSelect::Select { columns, .. }
        &&& exists|i: int| 0 <= i < columns@.len() && !(#[trigger] columns@[i] is Expr)
        &&& e == ErrorView::ParseError("Recursive member cannot use *"@)
    }
}

/// A recursive common table expression is refused, or there is no room for it, or the compiler
/// fails at one of its parts.
pub open spec fn cte_fails_for_a_reason<C: SelectCompiler>(
    c: C,
    cte: RecursiveCte,
    e: ErrorView,
) -> bool {
    ||| e == says_no_room()
    ||| cte.anchor_plan is None && e == ErrorView::ParseError(
        "Recursive CTE anchor_plan is missing"@,
    )
    ||| is_member_refused(cte, e)
    ||| query_failed(c, e)
    ||| condition_failed(c, e)
    ||| expr_failed(c, e)
}

proof fn exprs_fail<C: SelectCompiler>(
    c: C,
    before: ProgramView,
    exprs: Seq<ExprTree>,
    first: usize,
    resolver: ResolverView,
    after: ProgramView,
    e: ErrorView,
)
    requires
        exprs_translated(c, before, exprs, first, resolver, after, Err(e)),
    ensures
        expr_failed(c, e),
    decreases exprs.len(),
{
    let (mid, r) = exprs_steps(c, before, exprs, first, resolver, after, Err(e));
    if r is Err {
        exprs_fail(c, before, exprs.drop_last(), first, resolver, mid, e);
    }
}

proof fn conditions_fail<C: SelectCompiler>(
    c: C,
    before: ProgramView,
    tables: TableReferencesView,
    conditions: Seq<ExprTree>,
    next: BranchOffset,
    resolver: ResolverView,
    after: ProgramView,
    e: ErrorView,
)
    requires
        conditions_translated(c, before, tables, conditions, next, resolver, after, Err(e)),
    ensures
        condition_failed(c, e),
    decreases conditions.len(),
{
    let (mid, r) = conditions_steps(
        c,
        before,
        tables,
        conditions,
        next,
        resolver,
        after,
        Err(e),
    );
    if r is Err {
        conditions_fail(c, before, tables, conditions.drop_last(), next, resolver, mid, e);
    }
}

proof fn loops_fail<C: SelectCompiler>(
    c: C,
    before: ProgramView,
    l: CteLayout,
    internal_id: TableInternalId,
    tables: TableReferencesView,
    other: Option<OtherTable>,
    exprs: Seq<ExprTree>,
    conditions: Seq<ExprTree>,
    resolver: ResolverView,
    after: ProgramView,
    e: ErrorView,
)
    requires
        loops_emitted(
            c,
            before,
            l,
            internal_id,
            tables,
            other,
            exprs,
            conditions,
            resolver,
            after,
            Err(e),
        ),
    ensures
        e == says_no_room() || condition_failed(c, e) || expr_failed(c, e),
{
    if loop_fits(before, l, other, exprs.len()) {
        let (tested, test, computed, r) = loops_steps(
            c,
            before,
            l,
            internal_id,
            tables,
            other,
            exprs,
            conditions,
            resolver,
            after,
            Err(e),
        );
        let k = cte_loop(before, other);
        let local = member_resolver(resolver, internal_id, l, k, other);
        if test is Err {
            conditions_fail(
                c,
                loop_entered(before, l, other),
                tables,
                conditions,
                k.innermost_next(),
                local,
                tested,
                e,
            );
        } else if r is Err {
            exprs_fail(c, tested, exprs, l.result, local, computed, e);
        }
    }
}

proof fn lookup_fails(
    schema: Schema,
    cte_name: Seq<char>,
    p: ProgramView,
    tables: Seq<SelectTable>,
)
    ensures
        tables_looked_up(schema, cte_name, p, tables).error matches Some(e) ==> {
            ||| e == says_no_room()
            ||| exists|i: int|
                {
                    &&& 0 <= i < tables.len()
                    &&& is_external(#[trigger] tables[i], cte_name)
                    &&& says_unreadable(tables[i], e)
                }
        },
        tables_looked_up(schema, cte_name, p, tables).error is None ==> tables_looked_up(
            schema,
            cte_name,
            p,
            tables,
        ).others.len() == external_count(tables, cte_name),
    decreases tables.len(),
{
    if tables.len() > 0 {
        let earlier = tables.drop_last();
        lookup_fails(schema, cte_name, p, earlier);
        let so_far = tables_looked_up(schema, cte_name, p, earlier);
        if let Some(e) = so_far.error {
            if e != says_no_room() {
                let i = choose|i: int|
                    {
                        &&& 0 <= i < earlier.len()
                        &&& is_external(#[trigger] earlier[i], cte_name)
                        &&& says_unreadable(earlier[i], e)
                    };
                assert(tables[i] == earlier[i]);
            }
        } else {
            assert(tables.last() == tables[tables.len() - 1]);
        }
    }
}

proof fn member_fails<C: SelectCompiler>(
    c: C,
    before: ProgramView,
    cte: RecursiveCte,
    l: CteLayout,
    internal_id: TableInternalId,
    resolver: ResolverView,
    after: ProgramView,
    e: ErrorView,
)
    requires
        member_emitted(c, before, cte, l, internal_id, resolver, after, Err(e)),
    ensures
        e == says_no_room() || is_member_refused(cte, e) || condition_failed(c, e) || expr_failed(
            c,
            e,
        ),
{
    if let OneSelect::Select { columns, from, where_clause, .. } = *cte.recursive_member {
        let tables = tables_of_member(cte);
        let found = tables_looked_up(resolver.schema, cte.name@, before, tables);
        lookup_fails(resolver.schema, cte.name@, before, tables);
        if found.error is None && found.others.len() <= 1 && !has_star(
            columns@,
        ) {
            loops_fail(
                c,
                found.program,
                l,
                internal_id,
                member_tables(cte, internal_id, found.others),
                first_other(found.others),
                bound_columns(
                    cte,
                    internal_id,
                    found.others,
                    tables,
                    columns@,
                ),
                bound_conditions(
                    cte,
                    internal_id,
                    found.others,
                    tables,
                    member_conditions(from, where_clause),
                ),
                resolver,
                after,
                e,
            );
        }
    }
}

/// Emitting a recursive common table expression fails only for a reason.
pub proof fn cte_failure_has_a_reason<C: SelectCompiler>(
    c: C,
    before: ProgramView,
    cte: RecursiveCte,
    output: usize,
    internal_id: TableInternalId,
    resolver: ResolverView,
    after: ProgramView,
    e: ErrorView,
)
    requires
        cte_emitted(c, before, cte, output, internal_id, resolver, after, Err(e)),
    ensures
        cte_fails_for_a_reason(c, cte, e),
{
    if anchor_fits(before, cte, output) {
        let (q, plan_after, reply) = cte_steps(
            c,
            before,
            cte,
            output,
            internal_id,
            resolver,
            after,
            Err(e),
        );
        let l = cte_layout(before, cte.columns@.len() as usize, output);
        let opened = tables_opened(before, l, ephemeral_table(cte.name@, cte.columns@));
        let a = anchor_here(opened);
        if let Ok(result_reg) = reply {
            if result_reg + l.columns <= usize::MAX {
                member_fails(
                    c,
                    anchor_closed(q, l, a, result_reg),
                    cte,
                    l,
                    internal_id,
                    resolver,
                    after,
                    e,
                );
            }
        }
    }
}

/// Emitting a table of the `FROM` clause fails only for a reason that lies in a subquery or a
/// recursive expression; any other table succeeds.
pub open spec fn table_fails_for_a_reason<C: SelectCompiler>(
    c: C,
    t: JoinedTable,
    e: ErrorView,
) -> bool {
    match t.table {
        Table::BTree(_) => false,
        Table::Virtual(_) => false,
        Table::FromClauseSubquery(_) => e == says_no_room() || query_failed(c, e),
        Table::RecursiveCte(cte) => cte_fails_for_a_reason(c, *cte, e),
    }
}

proof fn table_failure_has_a_reason<C: SelectCompiler>(
    c: C,
    resolver: ResolverView,
    before: ProgramView,
    t: JoinedTable,
    after: ProgramView,
    t_after: JoinedTable,
    e: ErrorView,
)
    requires
        table_emitted(c, resolver, before, t, after, t_after, Err(e)),
    ensures
        table_fails_for_a_reason(c, t, e),
{
    let p = before.explain(true, plan_line(t));
    match t.table {
        Table::FromClauseSubquery(subquery) => {
            let (q, plan, r): (ProgramView, SelectPlan, Result<usize, ErrorView>) = choose|
                q: ProgramView,
                plan: SelectPlan,
                r: Result<usize, ErrorView>,
            |
                {
                    &&& #[trigger] coroutine_emitted(
                        c,
                        p,
                        *subquery.plan,
                        resolver.schema,
                        q,
                        plan,
                        r,
                    )
                    &&& match r {
                        Err(error) => error == e,
                        Ok(start) => false,
                    }
                };
            if p.has_room(1, 3 + 3 * subquery.plan.table_references.joined_tables@.len(), 0) {
                let (program, reply) = coroutine_steps(
                    c,
                    p,
                    *subquery.plan,
                    resolver.schema,
                    q,
                    plan,
                    r,
                );
            }
        },
        Table::RecursiveCte(cte) => {
            let q = choose|q: ProgramView| #[trigger]
                cte_table_emitted(c, resolver, p, *cte, t.internal_id, q, Err(e));
            let key = CursorKey { table: t.internal_id };
            match keyed_cursor(p.cursors, key, 0) {
                Some(id) => {
                    cte_failure_has_a_reason(
                        c,
                        p,
                        cte_of(t),
                        id as usize,
                        t.internal_id,
                        resolver,
                        q,
                        e,
                    );
                },
                None => {
                    cte_failure_has_a_reason(
                        c,
                        p.with_cursor(
                            Some(key),
                            CursorTypeView::BTreeTable(
                                ephemeral_table(cte.name@, cte.columns@),
                            ),
                        ),
                        cte_of(t),
                        p.cursor(),
                        t.internal_id,
                        resolver,
                        q,
                        e,
                    );
                },
            }
        },
        _ => {},
    }
}

/// Making the tables of the `FROM` clause ready fails only for a reason that lies in one of them.
pub proof fn tables_fail_for_a_reason<C: SelectCompiler>(
    c: C,
    resolver: ResolverView,
    before: ProgramView,
    tables: Seq<JoinedTable>,
    after: ProgramView,
    tables_after: Seq<JoinedTable>,
    e: ErrorView,
) -> (i: int)
    requires
        tables_emitted(c, resolver, before, tables, after, tables_after, Err(e)),
    ensures
        0 <= i < tables.len(),
        table_fails_for_a_reason(c, tables[i], e),
    decreases tables.len(),
{
    let (mid, r) = tables_steps(c, resolver, before, tables, after, tables_after, Err(e));
    if r is Err {
        tables_fail_for_a_reason(
            c,
            resolver,
            before,
            tables.drop_last(),
            mid,
            tables_after.drop_last(),
            e,
        )
    } else {
        table_failure_has_a_reason(c, resolver, mid, tables.last(), after, tables_after.last(), e);
        tables.len() - 1
    }
}

} // verus!
