//! What encloses a line of the query plan.
use crate::ast::{ExprTree, TableInternalId};
use crate::compiler::{
    emits_query, translates_condition, translates_expr, ConditionMetadata, ResolverView, Schema,
    SelectCompiler, TableReferencesView,
};
use crate::cte_code::{
    anchor_closed, anchor_here, anchor_opened, cte_layout, cte_loop, ephemeral_table, loop_entered,
    loop_finished, tables_opened, CteLayout, OtherTable,
};
use crate::from_clause::{
    constant_row_noted, coroutine_emitted, coroutine_steps, plan_line, table_emitted, table_steps,
    tables_emitted, tables_steps,
};
use crate::plan::{JoinedTable, OneSelect, RecursiveCte, SelectPlan, SelectTable, Table};
use crate::plan_copy::PlanTree;
use crate::program::{
    keyed_cursor, BranchOffset, CursorKey, CursorTypeView, ErrorView, LimboError, ProgramView,
};
use crate::recursive_cte::{
    anchor_fits, bound_columns, bound_conditions, conditions_steps, conditions_translated,
    cte_emitted, cte_steps, exprs_steps, exprs_translated, first_other, from_tables, loops_emitted,
    loops_steps, member_conditions, member_emitted, member_resolver, member_tables,
    tables_looked_up,
};
use vstd::prelude::*;

verus! {

/// The same lines enclose what follows.
pub open spec fn keeps_lines(before: ProgramView, after: ProgramView) -> bool {
    &&& after.query_mode == before.query_mode
    &&& after.explain_parents == before.explain_parents
}

/// Where the rest of the compiler succeeds, it ends every line that it began.
pub open spec fn gives_lines_back<C: SelectCompiler>(c: C) -> bool {
    &&& forall|
        before: ProgramView,
        plan: PlanTree,
        labels: ProgramView,
        schema: Schema,
        after: ProgramView,
        plan_after: SelectPlan,
        reply: Result<usize, LimboError>,
    | #[trigger]
        emits_query(c, before, plan, labels, schema, after, plan_after, reply) && reply is Ok
            ==> keeps_lines(before, after)
    &&& forall|
        before: ProgramView,
        tables: TableReferencesView,
        condition: ExprTree,
        metadata: ConditionMetadata,
        resolver: ResolverView,
        after: ProgramView,
        reply: Result<(), LimboError>,
    | #[trigger]
        translates_condition(c, before, tables, condition, metadata, resolver, after, reply)
            && reply is Ok ==> keeps_lines(before, after)
    &&& forall|
        before: ProgramView,
        expr: ExprTree,
        target_register: usize,
        resolver: ResolverView,
        after: ProgramView,
        reply: Result<usize, LimboError>,
    | #[trigger]
        translates_expr(c, before, expr, target_register, resolver, after, reply) && reply is Ok
            ==> keeps_lines(before, after)
}

/// A plan line that encloses something is taken back at the end of it.
pub proof fn plan_lines_are_balanced(p: ProgramView, detail: Seq<char>, q: ProgramView)
    requires
        keeps_lines(p.explain(true, detail), q),
    ensures
        keeps_lines(p, q.pop_explain()),
{
    assert(p.explain_parents.push(p.insns.len() as usize).drop_last() =~= p.explain_parents);
}

// ---------------------------------------------------------------------------------------------
// Subqueries and recursive common table expressions.

proof fn coroutine_keeps_lines<C: SelectCompiler>(
    c: C,
    before: ProgramView,
    plan: SelectPlan,
    schema: Schema,
    after: ProgramView,
    plan_after: SelectPlan,
    result: Result<usize, ErrorView>,
)
    requires
        gives_lines_back(c),
        coroutine_emitted(c, before, plan, schema, after, plan_after, result),
        result is Ok,
    ensures
        keeps_lines(before, after),
{
    let (q, reply) = coroutine_steps(c, before, plan, schema, after, plan_after, result);
    assert(keeps_lines(before, q));
}

proof fn lookup_keeps_lines(
    schema: Schema,
    cte_name: Seq<char>,
    p: ProgramView,
    tables: Seq<SelectTable>,
)
    ensures
        keeps_lines(p, tables_looked_up(schema, cte_name, p, tables).program),
    decreases tables.len(),
{
    if tables.len() > 0 {
        lookup_keeps_lines(schema, cte_name, p, tables.drop_last());
    }
}

proof fn exprs_keep_lines<C: SelectCompiler>(
    c: C,
    before: ProgramView,
    exprs: Seq<ExprTree>,
    first: usize,
    resolver: ResolverView,
    after: ProgramView,
    result: Result<(), ErrorView>,
)
    requires
        gives_lines_back(c),
        exprs_translated(c, before, exprs, first, resolver, after, result),
        result is Ok,
    ensures
        keeps_lines(before, after),
    decreases exprs.len(),
{
    if exprs.len() > 0 {
        let (mid, r) = exprs_steps(c, before, exprs, first, resolver, after, result);
        exprs_keep_lines(c, before, exprs.drop_last(), first, resolver, mid, r);
    }
}

proof fn conditions_keep_lines<C: SelectCompiler>(
    c: C,
    before: ProgramView,
    tables: TableReferencesView,
    conditions: Seq<ExprTree>,
    next: BranchOffset,
    resolver: ResolverView,
    after: ProgramView,
    result: Result<(), ErrorView>,
)
    requires
        gives_lines_back(c),
        conditions_translated(c, before, tables, conditions, next, resolver, after, result),
        result is Ok,
    ensures
        keeps_lines(before, after),
    decreases conditions.len(),
{
    if conditions.len() > 0 {
        let (mid, r) = conditions_steps(
            c,
            before,
            tables,
            conditions,
            next,
            resolver,
            after,
            result,
        );
        conditions_keep_lines(
            c,
            before,
            tables,
            conditions.drop_last(),
            next,
            resolver,
            mid,
            r,
        );
    }
}

proof fn loops_keep_lines<C: SelectCompiler>(
    c: C,
    before: ProgramView,
    l: CteLayout,
    internal_id: TableInternalId,
    tables: TableReferencesView,
    other: Option<OtherTable>,
    exprs: Seq<ExprTree>,
    conditions: Seq<ExprTree>,
    resolver: ResolverView,
    after: ProgramView,
    result: Result<(), ErrorView>,
)
    requires
        gives_lines_back(c),
        loops_emitted(
            c,
            before,
            l,
            internal_id,
            tables,
            other,
            exprs,
            conditions,
            resolver,
            after,
            result,
        ),
        result is Ok,
    ensures
        keeps_lines(before, after),
{
    let k = cte_loop(before, other);
    let local = member_resolver(resolver, internal_id, l, k, other);
    let entered = loop_entered(before, l, other);
    let (tested, test, computed, r) = loops_steps(
        c,
        before,
        l,
        internal_id,
        tables,
        other,
        exprs,
        conditions,
        resolver,
        after,
        result,
    );
    assert(keeps_lines(before, entered));
    conditions_keep_lines(
        c,
        entered,
        tables,
        conditions,
        k.innermost_next(),
        local,
        tested,
        test,
    );
    exprs_keep_lines(c, tested, exprs, l.result, local, computed, r);
    assert(keeps_lines(computed, loop_finished(computed, l, k)));
}

proof fn member_keeps_lines<C: SelectCompiler>(
    c: C,
    before: ProgramView,
    cte: RecursiveCte,
    l: CteLayout,
    internal_id: TableInternalId,
    resolver: ResolverView,
    after: ProgramView,
    result: Result<(), ErrorView>,
)
    requires
        gives_lines_back(c),
        member_emitted(c, before, cte, l, internal_id, resolver, after, result),
        result is Ok,
    ensures
        keeps_lines(before, after),
{
    if let OneSelect::Select { columns, from, where_clause, .. } = *cte.recursive_member {
        let tables = from_tables(from);
        let found = tables_looked_up(resolver.schema, cte.name@, before, tables);
        lookup_keeps_lines(resolver.schema, cte.name@, before, tables);
        loops_keep_lines(
            c,
            found.program,
            l,
            internal_id,
            member_tables(cte, internal_id, found.others),
            first_other(found.others),
            bound_columns(cte, internal_id, found.others, tables, columns@),
            bound_conditions(
                cte,
                internal_id,
                found.others,
                tables,
                member_conditions(from, where_clause),
            ),
            resolver,
            after,
            result,
        );
    }
}

proof fn cte_keeps_lines<C: SelectCompiler>(
    c: C,
    before: ProgramView,
    cte: RecursiveCte,
    output: usize,
    internal_id: TableInternalId,
    resolver: ResolverView,
    after: ProgramView,
    result: Result<(), ErrorView>,
)
    requires
        gives_lines_back(c),
        cte_emitted(c, before, cte, output, internal_id, resolver, after, result),
        result is Ok,
    ensures
        keeps_lines(before, after),
{
    assert(anchor_fits(before, cte, output));
    let l = cte_layout(before, cte.columns@.len() as usize, output);
    let opened = tables_opened(before, l, ephemeral_table(cte.name@, cte.columns@));
    let a = anchor_here(opened);
    let (q, _, reply) = cte_steps(c, before, cte, output, internal_id, resolver, after, result);
    assert(keeps_lines(before, anchor_opened(opened)));
    assert(keeps_lines(before, q));
    if let Ok(result_reg) = reply {
        let closed = anchor_closed(q, l, a, result_reg);
        assert(keeps_lines(q, closed));
        member_keeps_lines(c, closed, cte, l, internal_id, resolver, after, result);
    }
}

// ---------------------------------------------------------------------------------------------
// The tables of a `FROM` clause.

/// The recursive expression that a table is.
spec fn cte_of(table: Table) -> RecursiveCte {
    *table->RecursiveCte_0
}

proof fn table_keeps_lines<C: SelectCompiler>(
    c: C,
    resolver: ResolverView,
    before: ProgramView,
    t: JoinedTable,
    after: ProgramView,
    t_after: JoinedTable,
    result: Result<(), ErrorView>,
)
    requires
        gives_lines_back(c),
        table_emitted(c, resolver, before, t, after, t_after, result),
        result is Ok,
    ensures
        keeps_lines(before, after),
{
    let p = before.explain(true, plan_line(t));
    let (q, plan, r) = table_steps(c, resolver, before, t, after, t_after, result);
    match t.table {
        Table::FromClauseSubquery(subquery) => {
            coroutine_keeps_lines(c, p, *subquery.plan, resolver.schema, q, plan, r);
        },
        Table::RecursiveCte(cte) => {
            let key = CursorKey { table: t.internal_id };
            let (opened, output) = match keyed_cursor(p.cursors, key, 0) {
                Some(id) => (p, id as usize),
                None => (
                    p.with_cursor(
                        Some(key),
                        CursorTypeView::BTreeTable(ephemeral_table(cte.name@, cte.columns@)),
                    ),
                    p.cursor(),
                ),
            };
            assert(keeps_lines(p, opened));
            cte_keeps_lines(
                c,
                opened,
                cte_of(t.table),
                output,
                t.internal_id,
                resolver,
                q,
                result,
            );
        },
        _ => {},
    }
    plan_lines_are_balanced(before, plan_line(t), q);
}

proof fn tables_keep_lines<C: SelectCompiler>(
    c: C,
    resolver: ResolverView,
    before: ProgramView,
    tables: Seq<JoinedTable>,
    after: ProgramView,
    tables_after: Seq<JoinedTable>,
    result: Result<(), ErrorView>,
)
    requires
        gives_lines_back(c),
        tables_emitted(c, resolver, before, tables, after, tables_after, result),
        result is Ok,
    ensures
        keeps_lines(before, after),
    decreases tables.len(),
{
    if tables.len() > 0 {
        let (mid, r) = tables_steps(c, resolver, before, tables, after, tables_after, result);
        tables_keep_lines(
            c,
            resolver,
            before,
            tables.drop_last(),
            mid,
            tables_after.drop_last(),
            r,
        );
        table_keeps_lines(c, resolver, mid, tables.last(), after, tables_after.last(), result);
    }
}

/// Once the subqueries of a `FROM` clause are emitted, the same plan lines enclose what follows as
/// before, if the rest of the compiler ends every line that it began.
pub proof fn emitted_tables_keep_lines<C: SelectCompiler>(
    c: C,
    resolver: ResolverView,
    before: ProgramView,
    tables: Seq<JoinedTable>,
    after: ProgramView,
    tables_after: Seq<JoinedTable>,
)
    requires
        gives_lines_back(c),
        tables_emitted(
            c,
            resolver,
            constant_row_noted(before, tables.len()),
            tables,
            after,
            tables_after,
            Ok(()),
        ),
    ensures
        keeps_lines(before, after),
{
    tables_keep_lines(
        c,
        resolver,
        constant_row_noted(before, tables.len()),
        tables,
        after,
        tables_after,
        Ok(()),
    );
}

} // verus!
