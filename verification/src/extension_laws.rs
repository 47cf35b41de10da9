//! Emitting only ever adds to a program.
use crate::ast::{ExprTree, SubqueryType, TableInternalId};
use crate::code_laws::{
    anchor_labels_lead_somewhere, coroutine_labels_lead_somewhere, keeps_labels, leads_somewhere,
    loop_labels_lead_somewhere, still_leads_somewhere,
};
use crate::compiler::{
    emits_query, emits_select, translates_condition, translates_expr, ConditionMetadata,
    ResolverView, Schema, SelectCompiler, TableReferencesView,
};
use crate::cte_code::{
    anchor_closed, anchor_here, anchor_opened, cte_layout, cte_loop, ephemeral_table, loop_entered,
    loop_finished, tables_opened, CteLayout, CteLoop, OtherTable,
};
use crate::from_clause::{
    coroutine_emitted, coroutine_here, coroutine_opened, coroutine_steps, plan_line, table_emitted,
    table_steps, tables_emitted, tables_steps,
};
use crate::nested::{frame_answered, frame_here, frame_opened, subquery_emitted};
use crate::plan::{JoinedTable, OneSelect, RecursiveCte, SelectPlan, SelectTable, Table};
use crate::plan_copy::PlanTree;
use crate::program::{
    keyed_cursor, BranchOffset, CursorKey, CursorTypeView, ErrorView, LimboError, ProgramView,
};
use crate::recursive_cte::{
    anchor_fits, bound_columns, bound_conditions, conditions_steps, conditions_translated,
    cte_emitted, cte_steps, exprs_steps, exprs_translated, first_other, from_tables, has_star,
    loop_fits, loops_emitted, loops_steps, member_conditions, member_emitted, member_resolver,
    member_tables, tables_looked_up,
};
use vstd::prelude::*;

verus! {

/// A program goes on from another: nothing that was emitted, tied or opened is changed, and
/// nothing that was handed out is taken back.
pub open spec fn extends(before: ProgramView, after: ProgramView) -> bool {
    &&& after.query_mode == before.query_mode
    &&& before.next_free_register <= after.next_free_register
    &&& before.next_table_id <= after.next_table_id
    &&& before.next_label <= after.next_label
    &&& before.insns.len() <= after.insns.len()
    &&& forall|i: int| 0 <= i < before.insns.len() ==> #[trigger] after.insns[i] == before.insns[i]
    &&& before.cursors.len() <= after.cursors.len()
    &&& forall|i: int|
        0 <= i < before.cursors.len() ==> #[trigger] after.cursors[i] == before.cursors[i]
    &&& keeps_labels(before, after)
}

/// The rest of the compiler only ever adds to a program.
pub open spec fn only_extends<C: SelectCompiler>(c: C) -> bool {
    &&& forall|
        before: ProgramView,
        plan: PlanTree,
        labels: ProgramView,
        schema: Schema,
        after: ProgramView,
        plan_after: SelectPlan,
        reply: Result<usize, LimboError>,
    | #[trigger]
        emits_query(c, before, plan, labels, schema, after, plan_after, reply) ==> extends(
            before,
            after,
        )
    &&& forall|
        before: ProgramView,
        resolver: ResolverView,
        plan: SelectPlan,
        after: ProgramView,
        reply: Result<(), LimboError>,
    | #[trigger]
        emits_select(c, before, resolver, plan, after, reply) ==> extends(before, after)
    &&& forall|
        before: ProgramView,
        tables: TableReferencesView,
        condition: ExprTree,
        metadata: ConditionMetadata,
        resolver: ResolverView,
        after: ProgramView,
        reply: Result<(), LimboError>,
    | #[trigger]
        translates_condition(c, before, tables, condition, metadata, resolver, after, reply)
            ==> extends(before, after)
    &&& forall|
        before: ProgramView,
        expr: ExprTree,
        target_register: usize,
        resolver: ResolverView,
        after: ProgramView,
        reply: Result<usize, LimboError>,
    | #[trigger]
        translates_expr(c, before, expr, target_register, resolver, after, reply) ==> extends(
            before,
            after,
        )
}

/// A program that goes on from one that goes on from another goes on from that one too.
pub proof fn extends_on(first: ProgramView, second: ProgramView, third: ProgramView)
    requires
        extends(first, second),
        extends(second, third),
    ensures
        extends(first, third),
{
}

// ---------------------------------------------------------------------------------------------
// Subqueries.

/// Emitting a subquery of a `FROM` clause only adds to the program, if that is so of the rest of
/// the compiler. On success every label of its coroutine leads somewhere.
pub proof fn coroutine_extends<C: SelectCompiler>(
    c: C,
    before: ProgramView,
    plan: SelectPlan,
    schema: Schema,
    after: ProgramView,
    plan_after: SelectPlan,
    result: Result<usize, ErrorView>,
)
    requires
        only_extends(c),
        coroutine_emitted(c, before, plan, schema, after, plan_after, result),
    ensures
        extends(before, after),
        result is Ok ==> {
            let k = coroutine_here(before, plan.table_references.joined_tables@.len());
            &&& leads_somewhere(after, k.start)
            &&& leads_somewhere(after, k.end)
            &&& leads_somewhere(after, k.body_end)
        },
{
    let tables = plan.table_references.joined_tables@.len();
    if before.has_room(1, 3 + 3 * tables, 0) {
        let (q, _) = coroutine_steps(c, before, plan, schema, after, plan_after, result);
        assert(extends(before, coroutine_opened(before, tables)));
        assert(extends(before, q));
        coroutine_labels_lead_somewhere(before, tables, q);
    }
}

/// Emitting a subquery that is not in a `FROM` clause only adds to the program, if that is so of
/// the rest of the compiler.
pub proof fn nested_subquery_extends<C: SelectCompiler>(
    c: C,
    before: ProgramView,
    resolver: ResolverView,
    plan: SelectPlan,
    query_type: SubqueryType,
    is_correlated: bool,
    after: ProgramView,
    result: Result<(), ErrorView>,
)
    requires
        only_extends(c),
        subquery_emitted(
            c,
            before,
            resolver,
            plan,
            query_type,
            is_correlated,
            after,
            result,
        ),
    ensures
        extends(before, after),
        result is Ok && !is_correlated ==> leads_somewhere(after, before.label(0)),
{
    if after != before {
        let opened = frame_opened(before, query_type, is_correlated);
        let f = frame_here(before, query_type, is_correlated);
        let (q, reply): (ProgramView, Result<(), LimboError>) = choose|
            q: ProgramView,
            reply: Result<(), LimboError>,
        |
            {
                &&& #[trigger] emits_select(c, opened, resolver, plan, q, reply)
                &&& frame_answered(q, reply, f, after, result)
            };
        assert(extends(before, opened));
        assert(extends(before, q));
        if result is Ok && !is_correlated {
            assert(after.labels[after.labels.len() - 1].label == before.label(0));
        }
    }
}

// ---------------------------------------------------------------------------------------------
// Recursive common table expressions.

/// Looking up tables only adds to the program.
pub proof fn lookup_extends(
    schema: Schema,
    cte_name: Seq<char>,
    p: ProgramView,
    tables: Seq<SelectTable>,
)
    ensures
        extends(p, tables_looked_up(schema, cte_name, p, tables).program),
    decreases tables.len(),
{
    if tables.len() > 0 {
        lookup_extends(schema, cte_name, p, tables.drop_last());
    }
}

/// Translating expressions only adds to the program, if that is so of the rest of the compiler.
pub proof fn exprs_extend<C: SelectCompiler>(
    c: C,
    before: ProgramView,
    exprs: Seq<ExprTree>,
    first: usize,
    resolver: ResolverView,
    after: ProgramView,
    result: Result<(), ErrorView>,
)
    requires
        only_extends(c),
        exprs_translated(c, before, exprs, first, resolver, after, result),
    ensures
        extends(before, after),
    decreases exprs.len(),
{
    if exprs.len() > 0 {
        let (mid, r) = exprs_steps(c, before, exprs, first, resolver, after, result);
        exprs_extend(c, before, exprs.drop_last(), first, resolver, mid, r);
    }
}

/// Translating conditions only adds to the program, if that is so of the rest of the compiler.
pub proof fn conditions_extend<C: SelectCompiler>(
    c: C,
    before: ProgramView,
    tables: TableReferencesView,
    conditions: Seq<ExprTree>,
    next: BranchOffset,
    resolver: ResolverView,
    after: ProgramView,
    result: Result<(), ErrorView>,
)
    requires
        only_extends(c),
        conditions_translated(c, before, tables, conditions, next, resolver, after, result),
    ensures
        extends(before, after),
    decreases conditions.len(),
{
    if conditions.len() > 0 {
        let (mid, r) = conditions_steps(
            c,
            before,
            tables,
            conditions,
            next,
            resolver,
            after,
            result,
        );
        conditions_extend(
            c,
            before,
            tables,
            conditions.drop_last(),
            next,
            resolver,
            mid,
            r,
        );
    }
}

/// Entering the loops of a recursive member only adds to the program.
pub proof fn entering_extends(p: ProgramView, l: CteLayout, other: Option<OtherTable>)
    ensures
        extends(p, loop_entered(p, l, other)),
{
}

/// Ending the loops of a recursive member only adds to the program.
pub proof fn finishing_extends(p: ProgramView, l: CteLayout, k: CteLoop)
    ensures
        extends(p, loop_finished(p, l, k)),
{
}

/// Emitting the loops of a recursive member only adds to the program, if that is so of the rest of
/// the compiler. On success every label of the loops leads somewhere.
pub proof fn loops_extend<C: SelectCompiler>(
    c: C,
    before: ProgramView,
    l: CteLayout,
    internal_id: TableInternalId,
    tables: TableReferencesView,
    other: Option<OtherTable>,
    exprs: Seq<ExprTree>,
    conditions: Seq<ExprTree>,
    resolver: ResolverView,
    after: ProgramView,
    result: Result<(), ErrorView>,
)
    requires
        only_extends(c),
        loops_emitted(
            c,
            before,
            l,
            internal_id,
            tables,
            other,
            exprs,
            conditions,
            resolver,
            after,
            result,
        ),
    ensures
        extends(before, after),
        result is Ok ==> {
            let k = cte_loop(before, other);
            &&& leads_somewhere(after, k.start)
            &&& leads_somewhere(after, k.row_start)
            &&& leads_somewhere(after, k.row_next)
            &&& k.other matches Some(other) ==> leads_somewhere(after, other.start)
                && leads_somewhere(after, other.next)
            &&& leads_somewhere(after, k.done)
        },
{
    if loop_fits(before, l, other, exprs.len()) {
        let k = cte_loop(before, other);
        let local = member_resolver(resolver, internal_id, l, k, other);
        let entered = loop_entered(before, l, other);
        let (tested, test, computed, r) = loops_steps(
            c,
            before,
            l,
            internal_id,
            tables,
            other,
            exprs,
            conditions,
            resolver,
            after,
            result,
        );
        entering_extends(before, l, other);
        conditions_extend(
            c,
            entered,
            tables,
            conditions,
            k.innermost_next(),
            local,
            tested,
            test,
        );
        extends_on(before, entered, tested);
        if test is Ok {
            exprs_extend(c, tested, exprs, l.result, local, computed, r);
            extends_on(before, tested, computed);
            if result is Ok {
                extends_on(entered, tested, computed);
                finishing_extends(computed, l, k);
                extends_on(before, computed, after);
                loop_labels_lead_somewhere(before, l, other, computed);
            }
        }
    }
}

/// Emitting a recursive member only adds to the program, if that is so of the rest of the
/// compiler.
pub proof fn member_extends<C: SelectCompiler>(
    c: C,
    before: ProgramView,
    cte: RecursiveCte,
    l: CteLayout,
    internal_id: TableInternalId,
    resolver: ResolverView,
    after: ProgramView,
    result: Result<(), ErrorView>,
)
    requires
        only_extends(c),
        member_emitted(c, before, cte, l, internal_id, resolver, after, result),
    ensures
        extends(before, after),
{
    if let OneSelect::Select { columns, from, where_clause, .. } = *cte.recursive_member {
        let tables = from_tables(from);
        let found = tables_looked_up(resolver.schema, cte.name@, before, tables);
        lookup_extends(resolver.schema, cte.name@, before, tables);
        if found.error is None && found.others.len() <= 1 && !has_star(columns@) {
            loops_extend(
                c,
                found.program,
                l,
                internal_id,
                member_tables(cte, internal_id, found.others),
                first_other(found.others),
                bound_columns(cte, internal_id, found.others, tables, columns@),
                bound_conditions(
                    cte,
                    internal_id,
                    found.others,
                    tables,
                    member_conditions(from, where_clause),
                ),
                resolver,
                after,
                result,
            );
        }
    }
}

/// How many tables the anchor reads.
spec fn anchor_table_count(cte: RecursiveCte) -> nat {
    (*cte.anchor_plan->0).table_references.joined_tables@.len()
}

/// Emitting a recursive common table expression only adds to the program, if that is so of the
/// rest of the compiler. On success every label of the coroutine of its anchor leads somewhere.
pub proof fn cte_extends<C: SelectCompiler>(
    c: C,
    before: ProgramView,
    cte: RecursiveCte,
    output: usize,
    internal_id: TableInternalId,
    resolver: ResolverView,
    after: ProgramView,
    result: Result<(), ErrorView>,
)
    requires
        only_extends(c),
        cte_emitted(c, before, cte, output, internal_id, resolver, after, result),
    ensures
        extends(before, after),
        result is Ok ==> {
            let l = cte_layout(before, cte.columns@.len() as usize, output);
            let a = anchor_here(tables_opened(before, l, ephemeral_table(cte.name@, cte.columns@)));
            &&& leads_somewhere(after, a.start)
            &&& leads_somewhere(after, a.insert_loop)
            &&& leads_somewhere(after, a.end)
        },
{
    let l = cte_layout(before, cte.columns@.len() as usize, output);
    let opened = tables_opened(before, l, ephemeral_table(cte.name@, cte.columns@));
    assert(extends(before, opened));
    if anchor_fits(before, cte, output) {
        let a = anchor_here(opened);
        let tables = anchor_table_count(cte);
        let given = anchor_opened(opened).with_labels(3 * tables);
        let (q, _, reply) = cte_steps(
            c,
            before,
            cte,
            output,
            internal_id,
            resolver,
            after,
            result,
        );
        assert(extends(before, given));
        assert(extends(before, q));
        if let Ok(result_reg) = reply {
            if result_reg + l.columns <= usize::MAX {
                let closed = anchor_closed(q, l, a, result_reg);
                assert(extends(q, closed));
                member_extends(c, closed, cte, l, internal_id, resolver, after, result);
                anchor_labels_lead_somewhere(opened, q, l, result_reg);
                still_leads_somewhere(closed, after, a.start);
                still_leads_somewhere(closed, after, a.insert_loop);
                still_leads_somewhere(closed, after, a.end);
            }
        }
    }
}

// ---------------------------------------------------------------------------------------------
// The tables of a `FROM` clause.

/// The recursive expression that a table is.
spec fn cte_of(table: Table) -> RecursiveCte {
    *table->RecursiveCte_0
}

/// Emitting one table of a `FROM` clause only adds to the program, if that is so of the rest of the
/// compiler.
pub proof fn table_extends<C: SelectCompiler>(
    c: C,
    resolver: ResolverView,
    before: ProgramView,
    t: JoinedTable,
    after: ProgramView,
    t_after: JoinedTable,
    result: Result<(), ErrorView>,
)
    requires
        only_extends(c),
        table_emitted(c, resolver, before, t, after, t_after, result),
    ensures
        extends(before, after),
{
    let p = before.explain(true, plan_line(t));
    assert(extends(before, p));
    let (q, plan, r) = table_steps(c, resolver, before, t, after, t_after, result);
    match t.table {
        Table::FromClauseSubquery(subquery) => {
            coroutine_extends(c, p, *subquery.plan, resolver.schema, q, plan, r);
        },
        Table::RecursiveCte(cte) => {
            let key = CursorKey { table: t.internal_id };
            match keyed_cursor(p.cursors, key, 0) {
                Some(id) => {
                    cte_extends(
                        c,
                        p,
                        cte_of(t.table),
                        id as usize,
                        t.internal_id,
                        resolver,
                        q,
                        result,
                    );
                },
                None => {
                    let opened = p.with_cursor(
                        Some(key),
                        CursorTypeView::BTreeTable(ephemeral_table(cte.name@, cte.columns@)),
                    );
                    assert(extends(p, opened));
                    cte_extends(
                        c,
                        opened,
                        cte_of(t.table),
                        p.cursor(),
                        t.internal_id,
                        resolver,
                        q,
                        result,
                    );
                },
            }
        },
        _ => {},
    }
}

/// Emitting the subqueries of a `FROM` clause only adds to the program, if that is so of the rest
/// of the compiler.
pub proof fn tables_extend<C: SelectCompiler>(
    c: C,
    resolver: ResolverView,
    before: ProgramView,
    tables: Seq<JoinedTable>,
    after: ProgramView,
    tables_after: Seq<JoinedTable>,
    result: Result<(), ErrorView>,
)
    requires
        only_extends(c),
        tables_emitted(c, resolver, before, tables, after, tables_after, result),
    ensures
        extends(before, after),
    decreases tables.len(),
{
    if tables.len() > 0 {
        let (mid, r) = tables_steps(c, resolver, before, tables, after, tables_after, result);
        tables_extend(
            c,
            resolver,
            before,
            tables.drop_last(),
            mid,
            tables_after.drop_last(),
            r,
        );
        if r is Ok {
            table_extends(
                c,
                resolver,
                mid,
                tables.last(),
                after,
                tables_after.last(),
                result,
            );
        }
    }
}

} // verus!
