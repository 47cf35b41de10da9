//! Emitting the subqueries of a `FROM` clause.
use crate::ast::TableInternalId;
use crate::compiler::{emits_query, ResolverView, Schema, SelectCompiler, TranslateCtx};
use crate::cte_code::ephemeral_table;
use crate::plan::{
    table_name, FromClauseSubquery, JoinedTable, Operation, QueryDestination, RecursiveCte, Scan,
    Search, SelectPlan, Table, TableReferences,
};
use crate::program::{
    capacity_error, keyed_cursor, out_of_capacity, outcome, BranchOffset, CursorKey, CursorType,
    CursorTypeView, ErrorView, Insn, LimboError, ProgramBuilder, ProgramView,
};
use crate::recursive_cte::{cte_emitted, emit_recursive_cte, make_ephemeral_table, reached};
use crate::schema::share;
use crate::text::joined;
use vstd::prelude::*;

verus! {

// ---------------------------------------------------------------------------------------------
// One subquery.

/// The coroutine of a subquery.
#[derive(Clone, Copy, Debug, PartialEq, Eq, Structural)]
pub struct Coroutine {
    pub yield_reg: usize,
    pub start: BranchOffset,
    pub end: BranchOffset,
    pub body_end: BranchOffset,
}

/// The coroutine of a subquery over `tables` tables whose code begins here.
pub open spec fn coroutine_here(p: ProgramView, tables: nat) -> Coroutine {
    Coroutine {
        yield_reg: p.register(0),
        start: p.label(0),
        end: p.label(1),
        body_end: p.label(2 + 3 * tables),
    }
}

/// Where the rows of the subquery go.
pub open spec fn coroutine_destination(k: Coroutine) -> QueryDestination {
    QueryDestination::CoroutineYield {
        yield_reg: k.yield_reg,
        coroutine_implementation_start: k.start,
    }
}

/// Where the labels of the loops of the subquery begin.
pub open spec fn coroutine_labels(p: ProgramView) -> ProgramView {
    p.with_registers(1).with_labels(2)
}

/// The code of the subquery is about to follow.
pub open spec fn coroutine_opened(p: ProgramView, tables: nat) -> ProgramView {
    let k = coroutine_here(p, tables);
    coroutine_labels(p).with_labels(3 * tables).with_labels(1).op(
        Insn::InitCoroutine {
            yield_reg: k.yield_reg,
            jump_on_definition: k.body_end,
            start_offset: k.start,
        },
    ).assign_next(k.start)
}

/// The code of the subquery ends.
pub open spec fn coroutine_closed(p: ProgramView, k: Coroutine) -> ProgramView {
    p.assign_here(k.end).op(Insn::EndCoroutine { yield_reg: k.yield_reg }).assign_next(k.body_end)
}

/// Begins the coroutine of a subquery over `tables` tables.
pub fn open_coroutine(
    program: &mut ProgramBuilder,
    t_ctx: &TranslateCtx,
    tables: usize,
) -> (r: (Coroutine, TranslateCtx))
    requires
        old(program)@.has_room(1, 3 + 3 * tables as nat, 0),
    ensures
        r.0 == coroutine_here(old(program)@, tables as nat),
        r.1.is_new(
            coroutine_labels(old(program)@),
            tables as nat,
            t_ctx.resolver@.schema,
        ),
        final(program)@ == coroutine_opened(old(program)@, tables as nat),
{
    let yield_reg = program.alloc_register();
    let start = program.allocate_label();
    let end = program.allocate_label();
    let ctx = TranslateCtx::new(program, share(&t_ctx.resolver.schema), tables);
    let body_end = program.allocate_label();
    program.emit_insn(
        Insn::InitCoroutine { yield_reg, jump_on_definition: body_end, start_offset: start },
    );
    program.preassign_label_to_next_insn(start);
    (Coroutine { yield_reg, start, end, body_end }, ctx)
}

/// The subquery is emitted, or not, and its coroutine ends.
pub open spec fn coroutine_answered(
    before: ProgramView,
    reply: Result<usize, LimboError>,
    k: Coroutine,
    after: ProgramView,
    result: Result<usize, ErrorView>,
) -> bool {
    &&& result == outcome(reply)
    &&& after == if reply is Ok {
        coroutine_closed(before, k)
    } else {
        before
    }
}

/// Ends the coroutine of a subquery, unless the subquery failed.
pub fn finish_coroutine(
    program: &mut ProgramBuilder,
    reply: Result<usize, LimboError>,
    k: Coroutine,
) -> (r: Result<usize, LimboError>)
    ensures
        coroutine_answered(old(program)@, reply, k, final(program)@, outcome(r)),
{
    match reply {
        Err(e) => Err(e),
        Ok(result_columns_start) => {
            program.resolve_label_here(k.end);
            program.emit_insn(Insn::EndCoroutine { yield_reg: k.yield_reg });
            program.preassign_label_to_next_insn(k.body_end);
            Ok(result_columns_start)
        },
    }
}

/// A subquery is emitted as a coroutine.
pub open spec fn coroutine_emitted<C: SelectCompiler>(
    c: C,
    before: ProgramView,
    plan: SelectPlan,
    schema: Schema,
    after: ProgramView,
    plan_after: SelectPlan,
    result: Result<usize, ErrorView>,
) -> bool {
    let tables = plan.table_references.joined_tables@.len();
    if !before.has_room(1, 3 + 3 * tables, 0) {
        &&& after == before
        &&& plan_after == plan
        &&& result == Err::<usize, ErrorView>(out_of_capacity())
    } else {
        let k = coroutine_here(before, tables);
        let given = SelectPlan { query_destination: coroutine_destination(k), ..plan };
        exists|q: ProgramView, reply: Result<usize, LimboError>|
            {
                &&& #[trigger] emits_query(
                    c,
                    coroutine_opened(before, tables),
                    given@,
                    coroutine_labels(before),
                    schema,
                    q,
                    plan_after,
                    reply,
                )
                &&& coroutine_answered(q, reply, k, after, result)
            }
    }
}

/// What the compiler answers when it is asked for the code of a subquery: the program then, and its
/// reply.
pub proof fn coroutine_steps<C: SelectCompiler>(
    c: C,
    before: ProgramView,
    plan: SelectPlan,
    schema: Schema,
    after: ProgramView,
    plan_after: SelectPlan,
    result: Result<usize, ErrorView>,
) -> (steps: (ProgramView, Result<usize, LimboError>))
    requires
        coroutine_emitted(c, before, plan, schema, after, plan_after, result),
        before.has_room(1, 3 + 3 * plan.table_references.joined_tables@.len(), 0),
    ensures
        ({
            let (q, reply) = steps;
            let tables = plan.table_references.joined_tables@.len();
            let k = coroutine_here(before, tables);
            let given = SelectPlan { query_destination: coroutine_destination(k), ..plan };
            &&& emits_query(
                c,
                coroutine_opened(before, tables),
                given@,
                coroutine_labels(before),
                schema,
                q,
                plan_after,
                reply,
            )
            &&& coroutine_answered(q, reply, k, after, result)
        }),
{
    let tables = plan.table_references.joined_tables@.len();
    let k = coroutine_here(before, tables);
    let given = SelectPlan { query_destination: coroutine_destination(k), ..plan };
    let steps: (ProgramView, Result<usize, LimboError>) = choose|
        q: ProgramView,
        reply: Result<usize, LimboError>,
    |
        {
            &&& #[trigger] emits_query(
                c,
                coroutine_opened(before, tables),
                given@,
                coroutine_labels(before),
                schema,
                q,
                plan_after,
                reply,
            )
            &&& coroutine_answered(q, reply, k, after, result)
        };
    steps
}

/// Emits a subquery of a `FROM` clause, and returns the first register of its result columns.
///
/// The subquery becomes a coroutine: its code is that of any query, except that it yields to the
/// query around it instead of returning rows, and that it ends in `EndCoroutine` instead of
/// `Halt`. The register through which the two take turns, and the label where the coroutine
/// starts, are noted in the plan before it is handed on.
pub fn emit_from_clause_subquery<C: SelectCompiler>(
    program: &mut ProgramBuilder,
    plan: &mut SelectPlan,
    t_ctx: &TranslateCtx,
    compiler: &C,
) -> (r: Result<usize, LimboError>)
    requires
        old(plan).query_destination is CoroutineYield,
    ensures
        coroutine_emitted(
            *compiler,
            old(program)@,
            *old(plan),
            t_ctx.resolver@.schema,
            final(program)@,
            *final(plan),
            outcome(r),
        ),
{
    let tables = plan.table_references.joined_tables.len();
    if tables > (usize::MAX - 3) / 3 || !program.has_room(1, 3 + 3 * tables, 0) {
        return Err(capacity_error());
    }
    let (k, ctx) = open_coroutine(program, t_ctx, tables);
    plan.query_destination = QueryDestination::CoroutineYield {
        yield_reg: k.yield_reg,
        coroutine_implementation_start: k.start,
    };
    let ghost given = *plan;
    let (after, plan_after, reply) = compiler.emit_query(program.take(), plan.take(), ctx);
    *program = after;
    *plan = plan_after;
    assert(emits_query(
        *compiler,
        coroutine_opened(old(program)@, old(plan).table_references.joined_tables@.len()),
        given@,
        coroutine_labels(old(program)@),
        t_ctx.resolver@.schema,
        program@,
        *plan,
        reply,
    ));
    finish_coroutine(program, reply, k)
}

// ---------------------------------------------------------------------------------------------
// The query plan.

/// A table under its name and, if that is another one, its alias.
pub open spec fn shown_name(t: JoinedTable) -> Seq<char> {
    if table_name(t.table) == t.identifier@ {
        t.identifier@
    } else {
        table_name(t.table) + " AS "@ + t.identifier@
    }
}

/// The line of the query plan that tells how a table is read.
pub open spec fn plan_line(t: JoinedTable) -> Seq<char> {
    match t.op {
        Operation::Scan(Scan::BTreeTable { index: Some(index) }) => {
            if t.utilizes_covering_index {
                "SCAN "@ + shown_name(t) + " USING COVERING INDEX "@ + index.name@
            } else {
                "SCAN "@ + shown_name(t) + " USING INDEX "@ + index.name@
            }
        },
        Operation::Scan(_) => "SCAN "@ + shown_name(t),
        Operation::Search(Search::Seek { index: Some(index) }) => {
            "SEARCH "@ + t.identifier@ + " USING INDEX "@ + index.name@
        },
        Operation::Search(_) => {
            "SEARCH "@ + t.identifier@ + " USING INTEGER PRIMARY KEY (rowid=?)"@
        },
        Operation::IndexMethodQuery { method_name } => "QUERY INDEX METHOD "@ + method_name@,
        Operation::HashJoin => "HASH JOIN"@,
    }
}

fn show_name(t: &JoinedTable) -> (r: String)
    ensures
        r@ == shown_name(*t),
{
    let name = t.table.get_name().to_owned();
    if name == t.identifier {
        name
    } else {
        let mut text = joined(name.as_str(), " AS ");
        text.append(t.identifier.as_str());
        text
    }
}

/// The line of the query plan that tells how a table is read.
pub fn describe(t: &JoinedTable) -> (r: String)
    ensures
        r@ == plan_line(*t),
{
    match &t.op {
        Operation::Scan(Scan::BTreeTable { index: Some(index) }) => {
            let mut text = joined("SCAN ", show_name(t).as_str());
            if t.utilizes_covering_index {
                text.append(" USING COVERING INDEX ");
            } else {
                text.append(" USING INDEX ");
            }
            text.append(index.name.as_str());
            text
        },
        Operation::Scan(_) => joined("SCAN ", show_name(t).as_str()),
        Operation::Search(Search::Seek { index: Some(index) }) => {
            let mut text = joined("SEARCH ", t.identifier.as_str());
            text.append(" USING INDEX ");
            text.append(index.name.as_str());
            text
        },
        Operation::Search(_) => {
            let mut text = joined("SEARCH ", t.identifier.as_str());
            text.append(" USING INTEGER PRIMARY KEY (rowid=?)");
            text
        },
        Operation::IndexMethodQuery { method_name } => joined(
            "QUERY INDEX METHOD ",
            method_name.as_str(),
        ),
        Operation::HashJoin => "HASH JOIN".to_owned(),
    }
}

// ---------------------------------------------------------------------------------------------
// All subqueries.

/// A subquery of the `FROM` clause with the plan as it is now, and its result columns from
/// `start` on.
pub open spec fn with_plan(
    t: JoinedTable,
    subquery: FromClauseSubquery,
    plan: SelectPlan,
    start: Option<usize>,
) -> JoinedTable {
    JoinedTable {
        table: Table::FromClauseSubquery(
            FromClauseSubquery {
                plan: Box::new(plan),
                result_columns_start_reg: start,
                ..subquery
            },
        ),
        ..t
    }
}

/// A recursive expression is emitted. The cursor for its rows is opened if there is none yet.
pub open spec fn cte_table_emitted<C: SelectCompiler>(
    c: C,
    resolver: ResolverView,
    before: ProgramView,
    cte: RecursiveCte,
    internal_id: TableInternalId,
    after: ProgramView,
    result: Result<(), ErrorView>,
) -> bool {
    let key = CursorKey { table: internal_id };
    match keyed_cursor(before.cursors, key, 0) {
        Some(id) => cte_emitted(
            c,
            before,
            cte,
            id as usize,
            internal_id,
            resolver,
            after,
            result,
        ),
        None => cte_emitted(
            c,
            before.with_cursor(
                Some(key),
                CursorTypeView::BTreeTable(ephemeral_table(cte.name@, cte.columns@)),
            ),
            cte,
            before.cursor(),
            internal_id,
            resolver,
            after,
            result,
        ),
    }
}

fn emit_cte_table<C: SelectCompiler>(
    program: &mut ProgramBuilder,
    t_ctx: &TranslateCtx,
    cte: &RecursiveCte,
    internal_id: TableInternalId,
    compiler: &C,
) -> (r: Result<(), LimboError>)
    ensures
        cte_table_emitted(
            *compiler,
            t_ctx.resolver@,
            old(program)@,
            *cte,
            internal_id,
            final(program)@,
            outcome(r),
        ),
{
    let output = program.alloc_cursor_id_keyed_if_not_exists(
        CursorKey { table: internal_id },
        CursorType::BTreeTable(make_ephemeral_table(cte)),
    );
    emit_recursive_cte(program, cte, output, internal_id, t_ctx, compiler)
}

/// A table of the `FROM` clause is made ready: a subquery is emitted as a coroutine, a recursive
/// expression into its temporary table; any other table needs nothing. A plan line encloses it.
pub open spec fn table_emitted<C: SelectCompiler>(
    c: C,
    resolver: ResolverView,
    before: ProgramView,
    t: JoinedTable,
    after: ProgramView,
    t_after: JoinedTable,
    result: Result<(), ErrorView>,
) -> bool {
    let p = before.explain(true, plan_line(t));
    match t.table {
        Table::FromClauseSubquery(subquery) => exists|
            q: ProgramView,
            plan: SelectPlan,
            r: Result<usize, ErrorView>,
        |
            {
                &&& #[trigger] coroutine_emitted(c, p, *subquery.plan, resolver.schema, q, plan, r)
                &&& match r {
                    Err(e) => {
                        &&& after == q
                        &&& t_after == with_plan(
                            t,
                            subquery,
                            plan,
                            subquery.result_columns_start_reg,
                        )
                        &&& result == Err::<(), ErrorView>(e)
                    },
                    Ok(start) => {
                        &&& after == q.pop_explain()
                        &&& t_after == with_plan(t, subquery, plan, Some(start))
                        &&& result == Ok::<(), ErrorView>(())
                    },
                }
            },
        Table::RecursiveCte(cte) => {
            &&& t_after == t
            &&& exists|q: ProgramView|
                {
                    &&& #[trigger] cte_table_emitted(
                        c,
                        resolver,
                        p,
                        *cte,
                        t.internal_id,
                        q,
                        result,
                    )
                    &&& after == if result is Ok {
                        q.pop_explain()
                    } else {
                        q
                    }
                }
        },
        _ => after == p.pop_explain() && t_after == t && result == Ok::<(), ErrorView>(()),
    }
}

/// The program once the code of a table is there, before the plan line ends, and what became of
/// a subquery.
pub proof fn table_steps<C: SelectCompiler>(
    c: C,
    resolver: ResolverView,
    before: ProgramView,
    t: JoinedTable,
    after: ProgramView,
    t_after: JoinedTable,
    result: Result<(), ErrorView>,
) -> (steps: (ProgramView, SelectPlan, Result<usize, ErrorView>))
    requires
        table_emitted(c, resolver, before, t, after, t_after, result),
    ensures
        ({
            let (q, plan, r) = steps;
            let p = before.explain(true, plan_line(t));
            &&& after == if result is Ok {
                q.pop_explain()
            } else {
                q
            }
            &&& match t.table {
                Table::FromClauseSubquery(subquery) => coroutine_emitted(
                    c,
                    p,
                    *subquery.plan,
                    resolver.schema,
                    q,
                    plan,
                    r,
                ) && result is Ok == r is Ok,
                Table::RecursiveCte(cte) => cte_table_emitted(
                    c,
                    resolver,
                    p,
                    *cte,
                    t.internal_id,
                    q,
                    result,
                ),
                _ => q == p && result is Ok,
            }
        }),
{
    let p = before.explain(true, plan_line(t));
    match t.table {
        Table::FromClauseSubquery(subquery) => {
            let steps: (ProgramView, SelectPlan, Result<usize, ErrorView>) = choose|
                q: ProgramView,
                plan: SelectPlan,
                r: Result<usize, ErrorView>,
            |
                {
                    &&& #[trigger] coroutine_emitted(
                        c,
                        p,
                        *subquery.plan,
                        resolver.schema,
                        q,
                        plan,
                        r,
                    )
                    &&& result is Ok == r is Ok
                    &&& after == if r is Ok {
                        q.pop_explain()
                    } else {
                        q
                    }
                };
            steps
        },
        Table::RecursiveCte(cte) => {
            let q: ProgramView = choose|q: ProgramView|
                {
                    &&& #[trigger] cte_table_emitted(
                        c,
                        resolver,
                        p,
                        *cte,
                        t.internal_id,
                        q,
                        result,
                    )
                    &&& after == if result is Ok {
                        q.pop_explain()
                    } else {
                        q
                    }
                };
            (q, arbitrary(), arbitrary())
        },
        _ => (p, arbitrary(), arbitrary()),
    }
}

/// The tables of the `FROM` clause are made ready from left to right, until one fails.
pub open spec fn tables_emitted<C: SelectCompiler>(
    c: C,
    resolver: ResolverView,
    before: ProgramView,
    tables: Seq<JoinedTable>,
    after: ProgramView,
    tables_after: Seq<JoinedTable>,
    result: Result<(), ErrorView>,
) -> bool
    decreases tables.len(),
{
    &&& tables_after.len() == tables.len()
    &&& if tables.len() == 0 {
        after == before && result == Ok::<(), ErrorView>(())
    } else {
        exists|mid: ProgramView, r: Result<(), ErrorView>|
            {
                &&& #[trigger] reached(mid, r)
                &&& tables_emitted(
                    c,
                    resolver,
                    before,
                    tables.drop_last(),
                    mid,
                    tables_after.drop_last(),
                    r,
                )
                &&& match r {
                    Err(_) => after == mid && tables_after.last() == tables.last() && result == r,
                    Ok(_) => table_emitted(
                        c,
                        resolver,
                        mid,
                        tables.last(),
                        after,
                        tables_after.last(),
                        result,
                    ),
                }
            }
    }
}

/// The steps of making several tables ready: those before the last, and then the last.
pub proof fn tables_steps<C: SelectCompiler>(
    c: C,
    resolver: ResolverView,
    before: ProgramView,
    tables: Seq<JoinedTable>,
    after: ProgramView,
    tables_after: Seq<JoinedTable>,
    result: Result<(), ErrorView>,
) -> (steps: (ProgramView, Result<(), ErrorView>))
    requires
        tables_emitted(c, resolver, before, tables, after, tables_after, result),
        tables.len() > 0,
    ensures
        tables_emitted(
            c,
            resolver,
            before,
            tables.drop_last(),
            steps.0,
            tables_after.drop_last(),
            steps.1,
        ),
        steps.1 is Err ==> {
            &&& after == steps.0
            &&& tables_after.last() == tables.last()
            &&& result == steps.1
        },
        steps.1 is Ok ==> steps.1 == Ok::<(), ErrorView>(()) && table_emitted(
            c,
            resolver,
            steps.0,
            tables.last(),
            after,
            tables_after.last(),
            result,
        ),
{
    let steps: (ProgramView, Result<(), ErrorView>) = choose|
        mid: ProgramView,
        r: Result<(), ErrorView>,
    |
        {
            &&& #[trigger] reached(mid, r)
            &&& tables_emitted(
                c,
                resolver,
                before,
                tables.drop_last(),
                mid,
                tables_after.drop_last(),
                r,
            )
            &&& match r {
                Err(_) => after == mid && tables_after.last() == tables.last() && result == r,
                Ok(_) => table_emitted(
                    c,
                    resolver,
                    mid,
                    tables.last(),
                    after,
                    tables_after.last(),
                    result,
                ),
            }
        };
    match steps.1 {
        Ok(unit) => {
            assert(unit == ());
        },
        Err(_) => {},
    }
    steps
}

/// The tables behind a failure stay as they are.
proof fn tables_behind_failure<C: SelectCompiler>(
    c: C,
    resolver: ResolverView,
    before: ProgramView,
    tables: Seq<JoinedTable>,
    after: ProgramView,
    tables_after: Seq<JoinedTable>,
    error: ErrorView,
    n: int,
)
    requires
        0 <= n <= tables.len() == tables_after.len(),
        tables_emitted(
            c,
            resolver,
            before,
            tables.take(n),
            after,
            tables_after.take(n),
            Err(error),
        ),
        forall|i: int| n <= i < tables.len() ==> tables_after[i] == tables[i],
    ensures
        tables_emitted(c, resolver, before, tables, after, tables_after, Err(error)),
    decreases tables.len() - n,
{
    if n == tables.len() {
        assert(tables.take(n) =~= tables);
        assert(tables_after.take(n) =~= tables_after);
    } else {
        assert(tables.take(n + 1).drop_last() =~= tables.take(n));
        assert(tables_after.take(n + 1).drop_last() =~= tables_after.take(n));
        assert(reached(after, Err(error)));
        tables_behind_failure(c, resolver, before, tables, after, tables_after, error, n + 1);
    }
}

/// The rows of a subquery of the `FROM` clause go to the query around it.
pub open spec fn yields(t: JoinedTable) -> bool {
    t.table matches Table::FromClauseSubquery(subquery)
        ==> subquery.plan.query_destination is CoroutineYield
}

/// Makes one table of the `FROM` clause ready.
fn emit_table<C: SelectCompiler>(
    program: &mut ProgramBuilder,
    t_ctx: &TranslateCtx,
    t: &mut JoinedTable,
    compiler: &C,
) -> (r: Result<(), LimboError>)
    requires
        yields(*old(t)),
    ensures
        table_emitted(
            *compiler,
            t_ctx.resolver@,
            old(program)@,
            *old(t),
            final(program)@,
            *final(t),
            outcome(r),
        ),
{
    let line = describe(t);
    program.emit_explain(true, line);
    let internal_id = t.internal_id;
    match &mut t.table {
        Table::FromClauseSubquery(subquery) => {
            let emitted = emit_from_clause_subquery(program, &mut *subquery.plan, t_ctx, compiler);
            match emitted {
                Ok(start) => {
                    subquery.result_columns_start_reg = Some(start);
                },
                Err(e) => {
                    return Err(e);
                },
            }
        },
        Table::RecursiveCte(cte) => {
            let emitted = emit_cte_table(program, t_ctx, cte, internal_id, compiler);
            match emitted {
                Ok(_) => {},
                Err(e) => {
                    return Err(e);
                },
            }
        },
        _ => {},
    }
    program.pop_current_parent_explain();
    Ok(())
}

/// The program once it is known whether there is a table at all.
pub open spec fn constant_row_noted(p: ProgramView, tables: nat) -> ProgramView {
    if tables == 0 {
        p.explain(false, "SCAN CONSTANT ROW"@)
    } else {
        p
    }
}

/// Emits the subqueries of a `FROM` clause, so that the loop of the query can read their rows.
///
/// Each table has a line in the query plan, which encloses those of the subquery behind it. The
/// first register of the result columns of a subquery is noted in its table, so that they can be
/// read as if they were the columns of an ordinary one.
pub fn emit_from_clause_subqueries<C: SelectCompiler>(
    program: &mut ProgramBuilder,
    t_ctx: &TranslateCtx,
    tables: &mut TableReferences,
    compiler: &C,
) -> (r: Result<(), LimboError>)
    requires
        forall|i: int|
            0 <= i < old(tables).joined_tables@.len() ==> yields(
                #[trigger] old(tables).joined_tables@[i],
            ),
    ensures
        tables_emitted(
            *compiler,
            t_ctx.resolver@,
            constant_row_noted(old(program)@, old(tables).joined_tables@.len()),
            old(tables).joined_tables@,
            final(program)@,
            final(tables).joined_tables@,
            outcome(r),
        ),
        final(tables).outer_query_refs == old(tables).outer_query_refs,
{
    let n = tables.joined_tables.len();
    if n == 0 {
        program.emit_explain(false, "SCAN CONSTANT ROW".to_owned());
    }
    let ghost c = *compiler;
    let ghost resolver = t_ctx.resolver@;
    let ghost before = program@;
    let ghost first = tables.joined_tables@;
    let mut i: usize = 0;
    while i < n
        invariant
            i <= n == first.len(),
            c == *compiler,
            resolver == t_ctx.resolver@,
            before == constant_row_noted(old(program)@, n as nat),
            first == old(tables).joined_tables@,
            tables.joined_tables@.len() == n,
            tables.outer_query_refs == old(tables).outer_query_refs,
            forall|j: int| 0 <= j < n ==> yields(#[trigger] first[j]),
            forall|j: int| i <= j < n ==> #[trigger] tables.joined_tables@[j] == first[j],
            tables_emitted(
                c,
                resolver,
                before,
                first.take(i as int),
                program@,
                tables.joined_tables@.take(i as int),
                Ok(()),
            ),
        decreases n - i,
    {
        let ghost mid = program@;
        let ghost here = tables.joined_tables@;
        let emitted = emit_table(program, t_ctx, &mut tables.joined_tables[i], compiler);
        proof {
            let all = first.take(i + 1);
            let done = tables.joined_tables@.take(i + 1);
            assert(all.drop_last() =~= first.take(i as int));
            assert(done.drop_last() =~= here.take(i as int));
            assert(reached(mid, Ok(())));
        }
        match emitted {
            Ok(_) => {},
            Err(e) => {
                proof {
                    tables_behind_failure(
                        c,
                        resolver,
                        before,
                        first,
                        program@,
                        tables.joined_tables@,
                        e@,
                        i + 1,
                    );
                }
                return Err(e);
            },
        }
        i += 1;
    }
    assert(first.take(i as int) =~= first);
    assert(tables.joined_tables@.take(i as int) =~= tables.joined_tables@);
    Ok(())
}

} // verus!
