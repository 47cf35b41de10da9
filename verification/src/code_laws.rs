//! What holds of the code that is emitted.
use crate::ast::SubqueryType;
use crate::compiler::{ResolverView, SelectCompiler};
use crate::cte_code::{
    anchor_closed, anchor_here, anchor_opened, column_reads, cte_layout, cte_loop, loop_entered,
    loop_finished, loop_label_count, other_columns, round_begun, row_finished, rows_moved,
    table_reads, CteLayout, OtherTable, RECURSIVE_CTE_MAX_ITERATIONS,
};
use crate::from_clause::{
    coroutine_closed, coroutine_here, coroutine_opened, tables_emitted, tables_steps,
};
use crate::nested::{frame_closed, frame_here, frame_opened};
use crate::plan::{JoinedTable, Table};
use crate::program::{
    BranchOffset, ErrorView, Insn, InsnView, JumpTarget, LabelAssignment, ProgramView,
};
use vstd::prelude::*;

verus! {

// ---------------------------------------------------------------------------------------------
// Labels.

/// A label was tied to a place.
pub open spec fn leads_somewhere(p: ProgramView, label: BranchOffset) -> bool {
    exists|i: int| 0 <= i < p.labels.len() && (#[trigger] p.labels[i]).label == label
}

/// What was tied to a place still is.
pub open spec fn keeps_labels(before: ProgramView, after: ProgramView) -> bool {
    &&& before.labels.len() <= after.labels.len()
    &&& forall|i: int|
        0 <= i < before.labels.len() ==> #[trigger] after.labels[i] == before.labels[i]
}

/// A label that was tied to a place still is.
pub proof fn still_leads_somewhere(before: ProgramView, after: ProgramView, label: BranchOffset)
    requires
        leads_somewhere(before, label),
        keeps_labels(before, after),
    ensures
        leads_somewhere(after, label),
{
    let i = choose|i: int|
        0 <= i < before.labels.len() && (#[trigger] before.labels[i]).label == label;
    assert(after.labels[i] == before.labels[i]);
}

/// The last label that was tied to a place leads somewhere.
proof fn last_leads_somewhere(p: ProgramView, label: BranchOffset)
    requires
        p.labels.len() > 0,
        p.labels.last().label == label,
    ensures
        leads_somewhere(p, label),
{
    assert(p.labels[p.labels.len() - 1].label == label);
}

/// Every label of the coroutine of a subquery leads somewhere once the coroutine is closed, if
/// the code of the subquery keeps the labels that were tied before.
pub proof fn coroutine_labels_lead_somewhere(p: ProgramView, tables: nat, q: ProgramView)
    requires
        keeps_labels(coroutine_opened(p, tables), q),
    ensures
        ({
            let k = coroutine_here(p, tables);
            let closed = coroutine_closed(q, k);
            &&& leads_somewhere(closed, k.start)
            &&& leads_somewhere(closed, k.end)
            &&& leads_somewhere(closed, k.body_end)
        }),
{
    let k = coroutine_here(p, tables);
    let closed = coroutine_closed(q, k);
    last_leads_somewhere(coroutine_opened(p, tables), k.start);
    still_leads_somewhere(coroutine_opened(p, tables), closed, k.start);
    last_leads_somewhere(q.assign_here(k.end), k.end);
    still_leads_somewhere(q.assign_here(k.end), closed, k.end);
    last_leads_somewhere(closed, k.body_end);
}

/// Every label of the coroutine of an anchor leads somewhere once its rows are stored, if the
/// code of the anchor keeps the labels that were tied before.
pub proof fn anchor_labels_lead_somewhere(
    p: ProgramView,
    q: ProgramView,
    l: CteLayout,
    result_reg: usize,
)
    requires
        keeps_labels(anchor_opened(p), q),
    ensures
        ({
            let a = anchor_here(p);
            let closed = anchor_closed(q, l, a, result_reg);
            &&& leads_somewhere(closed, a.start)
            &&& leads_somewhere(closed, a.insert_loop)
            &&& leads_somewhere(closed, a.end)
        }),
{
    let a = anchor_here(p);
    let closed = anchor_closed(q, l, a, result_reg);
    last_leads_somewhere(anchor_opened(p), a.start);
    still_leads_somewhere(anchor_opened(p), closed, a.start);
    let looping = q.op(Insn::EndCoroutine { yield_reg: a.yield_reg }).assign_next(a.insert_loop);
    last_leads_somewhere(looping, a.insert_loop);
    still_leads_somewhere(looping, closed, a.insert_loop);
    last_leads_somewhere(closed, a.end);
}

/// Every label of the loops of a recursive member leads somewhere once the loops are finished, if
/// the code of the expressions keeps the labels that were tied before.
pub proof fn loop_labels_lead_somewhere(
    p: ProgramView,
    l: CteLayout,
    other: Option<OtherTable>,
    q: ProgramView,
)
    requires
        keeps_labels(loop_entered(p, l, other), q),
    ensures
        ({
            let k = cte_loop(p, other);
            let finished = loop_finished(q, l, k);
            &&& leads_somewhere(finished, k.start)
            &&& leads_somewhere(finished, k.row_start)
            &&& leads_somewhere(finished, k.row_next)
            &&& k.other matches Some(other) ==> leads_somewhere(finished, other.start)
                && leads_somewhere(finished, other.next)
            &&& leads_somewhere(finished, q.label(0))
            &&& leads_somewhere(finished, q.label(1))
            &&& leads_somewhere(finished, k.done)
        }),
{
    let k = cte_loop(p, other);
    let entered = loop_entered(p, l, other);
    let finished = loop_finished(q, l, k);
    let n = p.labels.len() as int;
    assert(entered.labels[n].label == k.start);
    assert(entered.labels[n + 1].label == k.row_start);
    assert(keeps_labels(q, finished));
    still_leads_somewhere(entered, q, k.start);
    still_leads_somewhere(q, finished, k.start);
    still_leads_somewhere(entered, q, k.row_start);
    still_leads_somewhere(q, finished, k.row_start);
    let m = q.labels.len() as int;
    match k.other {
        Some(other_loop) => {
            assert(entered.labels[n + 2].label == other_loop.start);
            still_leads_somewhere(entered, q, other_loop.start);
            still_leads_somewhere(q, finished, other_loop.start);
            assert(finished.labels[m].label == other_loop.next);
            assert(finished.labels[m + 1].label == k.row_next);
            assert(finished.labels[m + 2].label == q.label(0));
            assert(finished.labels[m + 3].label == q.label(1));
            assert(finished.labels[m + 4].label == k.done);
        },
        None => {
            assert(finished.labels[m].label == k.row_next);
            assert(finished.labels[m + 1].label == q.label(0));
            assert(finished.labels[m + 2].label == q.label(1));
            assert(finished.labels[m + 3].label == k.done);
        },
    }
}

// ---------------------------------------------------------------------------------------------
// Recursion.

/// The rounds of a recursive member are limited: the counter is set to zero before the first
/// round, and each round begins by comparing it with the limit, leaving the loop if that is
/// reached, and adding one.
pub proof fn rounds_are_limited(p: ProgramView, l: CteLayout, other: Option<OtherTable>)
    requires
        p.insns.len() + 2 <= usize::MAX,
    ensures
        ({
            let k = cte_loop(p, other);
            let entered = loop_entered(p, l, other);
            let first = entered.labels[p.labels.len() as int];
            let s = first.position as int;
            &&& first.label == k.start
            &&& entered.insns[s - 1] == InsnView::Plain(Insn::Integer { value: 0, dest: k.depth })
            &&& entered.insns[s] == InsnView::Plain(
                Insn::Integer { value: RECURSIVE_CTE_MAX_ITERATIONS, dest: k.limit },
            )
            &&& entered.insns[s + 1] == InsnView::Plain(
                Insn::Ge {
                    lhs: k.depth,
                    rhs: k.limit,
                    target_pc: k.done,
                    flags: 0,
                    collation: None,
                },
            )
            &&& entered.insns[s + 2] == InsnView::Plain(
                Insn::AddImm { register: k.depth, value: 1 },
            )
        }),
{
}

/// An instruction that this library emits changes a register.
pub open spec fn writes(insn: InsnView, reg: usize) -> bool {
    match insn {
        InsnView::Plain(insn) => match insn {
            Insn::AddImm { register, .. } => register == reg,
            Insn::BeginSubrtn { dest, .. } => dest == reg,
            Insn::Column { dest, .. } => dest == reg,
            Insn::Copy { dst_reg, extra_amount, .. } => dst_reg <= reg <= dst_reg + extra_amount,
            Insn::EndCoroutine { yield_reg } => yield_reg == reg,
            Insn::InitCoroutine { yield_reg, .. } => yield_reg == reg,
            Insn::Integer { dest, .. } => dest == reg,
            Insn::MakeRecord { dest_reg, .. } => dest_reg == reg,
            Insn::NewRowid { rowid_reg, .. } => rowid_reg == reg,
            Insn::Null { dest, .. } => dest == reg,
            Insn::RowId { dest, .. } => dest == reg,
            Insn::Yield { yield_reg, .. } => yield_reg == reg,
            Insn::Other { .. } => true,
            _ => false,
        },
        _ => false,
    }
}

/// From a position on, no instruction changes a register.
pub open spec fn untouched_from(p: ProgramView, start: int, reg: usize) -> bool {
    forall|i: int| start <= i < p.insns.len() ==> !writes(#[trigger] p.insns[i], reg)
}

proof fn untouched_by_reads(p: ProgramView, start: int, reg: usize, insns: Seq<InsnView>)
    requires
        0 <= start <= p.insns.len(),
        untouched_from(p, start, reg),
        forall|i: int| 0 <= i < insns.len() ==> !writes(#[trigger] insns[i], reg),
    ensures
        untouched_from(p.emit_all(insns), start, reg),
{
    assert forall|i: int| start <= i < p.emit_all(insns).insns.len() implies !writes(
        #[trigger] p.emit_all(insns).insns[i],
        reg,
    ) by {
        if i >= p.insns.len() {
            assert(p.emit_all(insns).insns[i] == insns[i - p.insns.len()]);
        }
    }
}

proof fn untouched_by_moving(
    p: ProgramView,
    start: int,
    reg: usize,
    l: CteLayout,
    label: BranchOffset,
    cursor: usize,
    table_name: Seq<char>,
)
    requires
        0 <= start <= p.insns.len(),
        untouched_from(p, start, reg),
        l.is_valid(),
        l.row + l.columns <= reg,
        l.record < reg,
        l.rowid < reg,
    ensures
        untouched_from(rows_moved(p, l, label, cursor, table_name), start, reg),
{
    let labelled = p.with_labels(1).assign_next(label);
    untouched_by_reads(labelled, start, reg, column_reads(l.temp, l.row, l.columns as nat));
}

/// Apart from its own beginning, the code around a recursive member does not touch the counter of
/// the rounds: it is only ever set to zero before the first round, and one is added in each.
pub proof fn counter_is_not_touched(
    p: ProgramView,
    l: CteLayout,
    other: Option<OtherTable>,
    q: ProgramView,
)
    requires
        l.is_valid(),
        l.row + l.columns <= p.next_free_register,
        l.record < p.next_free_register,
        l.rowid < p.next_free_register,
        p.has_room(2 + other_columns(other), loop_label_count(other), 0),
    ensures
        ({
            let k = cte_loop(p, other);
            let entered = loop_entered(p, l, other);
            let opened: int = if other is Some {
                1
            } else {
                0
            };
            &&& untouched_from(entered, p.insns.len() + opened + 4, k.depth)
            &&& untouched_from(loop_finished(q, l, k), q.insns.len() as int, k.depth)
        }),
{
    let k = cte_loop(p, other);
    let opened: int = if other is Some {
        1
    } else {
        0
    };
    let begin = match other {
        Some(other) => p.op(
            Insn::OpenRead {
                cursor_id: other.cursor_id,
                root_page: other.table.root_page,
                db: 0,
            },
        ).with_labels(4).with_registers(2),
        None => p.with_labels(4).with_registers(2),
    };
    let head = begin.op(Insn::Integer { value: 0, dest: k.depth }).assign_next(k.start).op(
        Insn::Integer { value: RECURSIVE_CTE_MAX_ITERATIONS, dest: k.limit },
    ).op(
        Insn::Ge { lhs: k.depth, rhs: k.limit, target_pc: k.done, flags: 0, collation: None },
    ).op(Insn::AddImm { register: k.depth, value: 1 });
    let start = p.insns.len() + opened + 4;
    assert(head.insns.len() == start);
    let rewound = head.op(Insn::Rewind { cursor_id: l.working, pc_if_empty: k.done }).op(
        Insn::ResetSorter { cursor_id: l.temp },
    ).assign_next(k.row_start);
    untouched_by_reads(
        rewound,
        start,
        k.depth,
        column_reads(l.working, l.row, l.columns as nat),
    );
    let begun = round_begun(begin, l, k);
    if let Some(other) = other {
        let inner = begun.with_registers(other.table.columns@.len()).with_labels(2).op(
            Insn::Rewind { cursor_id: other.cursor_id, pc_if_empty: k.row_next },
        ).assign_next(p.label(4));
        untouched_by_reads(
            inner,
            start,
            k.depth,
            table_reads(
                other.table.columns@,
                other.cursor_id,
                p.register(2),
                other.table.columns@.len(),
            ),
        );
    }
    let end = q.insns.len() as int;
    let finished = row_finished(q, l, k).op(
        Insn::Rewind { cursor_id: l.temp, pc_if_empty: k.done },
    );
    assert(untouched_from(finished, end, k.depth));
    untouched_by_moving(finished, end, k.depth, l, q.label(0), l.output, "cte_output"@);
    let copied = rows_moved(finished, l, q.label(0), l.output, "cte_output"@);
    let swapping = copied.op(Insn::ResetSorter { cursor_id: l.working }).op(
        Insn::Rewind { cursor_id: l.temp, pc_if_empty: k.start },
    );
    untouched_by_moving(swapping, end, k.depth, l, q.label(1), l.working, "cte_working"@);
}

/// A round is followed by the next one, and the code behind the loop comes after it.
pub proof fn next_round_follows(
    p: ProgramView,
    l: CteLayout,
    other: Option<OtherTable>,
    q: ProgramView,
)
    requires
        loop_finished(q, l, cte_loop(p, other)).insns.len() <= usize::MAX,
    ensures
        ({
            let k = cte_loop(p, other);
            let finished = loop_finished(q, l, k);
            &&& finished.insns.last() == InsnView::Plain(Insn::Goto { target_pc: k.start })
            &&& finished.labels.last() == LabelAssignment {
                label: k.done,
                position: finished.insns.len() as usize,
                target: JumpTarget::AfterThisInsn,
            }
        }),
{
}

/// The registers of a recursive expression do not overlap: the row at hand, the new row, the
/// record and the rowid follow each other, and all of them were free.
pub proof fn registers_do_not_overlap(p: ProgramView, columns: usize, output: usize)
    requires
        p.has_room(2 * columns as nat + 2, 0, 0),
    ensures
        ({
            let l = cte_layout(p, columns, output);
            &&& p.next_free_register == l.row
            &&& l.row + columns == l.result
            &&& l.result + columns == l.record
            &&& l.record + 1 == l.rowid
            &&& l.rowid + 1 == p.with_registers(2 * columns as nat + 2).next_free_register
        }),
{
}

// ---------------------------------------------------------------------------------------------
// Subqueries outside the `FROM` clause.

/// A subquery that is not correlated runs only once: its code begins with `Once`, which from the
/// second time on leads behind it.
pub proof fn uncorrelated_runs_once(p: ProgramView, query_type: SubqueryType, q: ProgramView)
    ensures
        ({
            let f = frame_here(p, query_type, false);
            let closed = frame_closed(q, f);
            &&& frame_opened(p, query_type, false).insns[p.insns.len() as int] == InsnView::Plain(
                Insn::Once { target_pc_when_reentered: p.label(0) },
            )
            &&& closed.labels.last() == LabelAssignment {
                label: p.label(0),
                position: closed.insns.len() as usize,
                target: JumpTarget::AfterThisInsn,
            }
        }),
{
    let opened = frame_opened(p, query_type, false);
    assert(opened.insns[p.insns.len() as int] == InsnView::Plain(
        Insn::Once { target_pc_when_reentered: p.label(0) },
    ));
}

/// A correlated subquery runs each time: nothing in front of it leads past it.
pub proof fn correlated_runs_each_time(p: ProgramView, query_type: SubqueryType, i: int)
    requires
        p.insns.len() <= i < frame_opened(p, query_type, true).insns.len(),
    ensures
        !(frame_opened(p, query_type, true).insns[i] matches InsnView::Plain(insn)
            && insn is Once),
        frame_opened(p, query_type, true).labels == p.labels,
        frame_opened(p, query_type, true).next_label == p.next_label,
{
}

/// Around a subquery the levels add up, if its own code comes back to the level it began at.
pub proof fn levels_add_up(
    p: ProgramView,
    query_type: SubqueryType,
    is_correlated: bool,
    q: ProgramView,
)
    requires
        q.nested_level == frame_opened(p, query_type, is_correlated).nested_level,
    ensures
        frame_closed(q, frame_here(p, query_type, is_correlated)).nested_level == p.nested_level,
{
}

// ---------------------------------------------------------------------------------------------
// The tables of a `FROM` clause.

/// A table whose rows can be read in the loop of the query: for a subquery, it is known where its
/// result columns are.
pub open spec fn is_readable(t: JoinedTable) -> bool {
    t.table matches Table::FromClauseSubquery(subquery)
        ==> subquery.result_columns_start_reg is Some
}

/// Two tables are the same but for the plan of a subquery, which the compiler gives back as it is
/// then, and the place of its result columns.
pub open spec fn same_table(before: JoinedTable, after: JoinedTable) -> bool {
    &&& after == JoinedTable { table: after.table, ..before }
    &&& match (before.table, after.table) {
        (Table::FromClauseSubquery(a), Table::FromClauseSubquery(b)) => {
            &&& b.name == a.name
            &&& b.columns == a.columns
        },
        (a, b) => a == b,
    }
}

/// Once the subqueries of a `FROM` clause are emitted, every table of it can be read, and it is
/// known of each subquery where its result columns are. Otherwise the tables are what they were.
pub proof fn emitted_tables_are_readable<C: SelectCompiler>(
    c: C,
    resolver: ResolverView,
    before: ProgramView,
    tables: Seq<JoinedTable>,
    after: ProgramView,
    tables_after: Seq<JoinedTable>,
)
    requires
        tables_emitted(c, resolver, before, tables, after, tables_after, Ok(())),
    ensures
        tables_after.len() == tables.len(),
        forall|i: int|
            0 <= i < tables.len() ==> is_readable(#[trigger] tables_after[i]) && same_table(
                tables[i],
                tables_after[i],
            ),
    decreases tables.len(),
{
    if tables.len() > 0 {
        let (mid, r) = tables_steps(c, resolver, before, tables, after, tables_after, Ok(()));
        emitted_tables_are_readable(
            c,
            resolver,
            before,
            tables.drop_last(),
            mid,
            tables_after.drop_last(),
        );
        assert forall|i: int| 0 <= i < tables.len() implies is_readable(
            #[trigger] tables_after[i],
        ) && same_table(tables[i], tables_after[i]) by {
            if i < tables.len() - 1 {
                assert(tables_after.drop_last()[i] == tables_after[i]);
                assert(tables.drop_last()[i] == tables[i]);
            }
        }
    }
}

/// A table that is neither a subquery nor a recursive expression.
pub open spec fn is_ordinary(t: JoinedTable) -> bool {
    t.table is BTree || t.table is Virtual
}

/// Ordinary tables need no code: unless the query plan is asked for, the program stays as it is.
pub proof fn ordinary_tables_need_no_code<C: SelectCompiler>(
    c: C,
    resolver: ResolverView,
    before: ProgramView,
    tables: Seq<JoinedTable>,
    after: ProgramView,
    tables_after: Seq<JoinedTable>,
    result: Result<(), ErrorView>,
)
    requires
        tables_emitted(c, resolver, before, tables, after, tables_after, result),
        forall|i: int| 0 <= i < tables.len() ==> is_ordinary(#[trigger] tables[i]),
        !(before.query_mode is ExplainQueryPlan),
    ensures
        result == Ok::<(), ErrorView>(()),
        after == before,
        tables_after == tables,
    decreases tables.len(),
{
    if tables.len() > 0 {
        let (mid, r) = tables_steps(c, resolver, before, tables, after, tables_after, result);
        assert forall|i: int| 0 <= i < tables.drop_last().len() implies is_ordinary(
            #[trigger] tables.drop_last()[i],
        ) by {
            assert(tables.drop_last()[i] == tables[i]);
        }
        ordinary_tables_need_no_code(
            c,
            resolver,
            before,
            tables.drop_last(),
            mid,
            tables_after.drop_last(),
            r,
        );
        assert(is_ordinary(tables[tables.len() - 1]));
        assert(tables_after =~= tables_after.drop_last().push(tables_after.last()));
        assert(tables =~= tables.drop_last().push(tables.last()));
    }
}

} // verus!
