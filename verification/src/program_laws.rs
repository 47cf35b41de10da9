//! What the steps of building a program do.
use crate::ast::TableInternalId;
use crate::cte_code::{
    anchor_closed, loop_finished, row_finished, rows_moved, Anchor, CteLayout, CteLoop,
};
use crate::plan::{
    default_scan, is_blank, JoinedTable, Operation, OuterQueryReference, QueryDestination, Scan,
    SelectPlan, Table,
};
use crate::program::{
    empty_program, BranchOffset, CursorKey, CursorTypeView, CursorView, Insn, InsnView, JumpTarget,
    LabelAssignment, ProgramView, QueryMode,
};
use vstd::prelude::*;

verus! {

/// A new program has no instructions, labels or cursors. Its registers and table numbers begin at
/// one, its labels at zero, and it is at the outermost level.
pub proof fn new_program_is_empty(query_mode: QueryMode)
    ensures
        ({
            let p = empty_program(query_mode);
            &&& p.query_mode == query_mode
            &&& p.next_free_register == 1
            &&& p.next_table_id == 1
            &&& p.next_label == 0
            &&& p.insns.len() == 0
            &&& p.labels.len() == 0
            &&& p.cursors.len() == 0
            &&& p.explain_parents.len() == 0
            &&& p.nested_level == 0
        }),
{
}

/// What is handed out is the next that is free, and what is free then comes behind it.
pub proof fn numbers_are_handed_out_in_turn(
    p: ProgramView,
    n: nat,
    key: Option<CursorKey>,
    cursor_type: CursorTypeView,
)
    requires
        p.next_free_register + n <= usize::MAX,
        p.next_label + n <= usize::MAX,
        p.next_table_id <= usize::MAX,
        p.cursors.len() <= usize::MAX,
    ensures
        p.register(0) == p.next_free_register,
        p.register(n) == p.next_free_register + n,
        p.with_registers(n) == (ProgramView {
            next_free_register: p.next_free_register + n,
            ..p
        }),
        p.label(n) == BranchOffset::Label((p.next_label + n) as usize),
        p.with_labels(n) == (ProgramView { next_label: p.next_label + n, ..p }),
        p.table_id() == TableInternalId(p.next_table_id as usize),
        p.with_table_id() == (ProgramView { next_table_id: p.next_table_id + 1, ..p }),
        p.cursor() == p.cursors.len(),
        p.with_cursor(key, cursor_type) == (ProgramView {
            cursors: p.cursors.push(CursorView { key, cursor_type }),
            ..p
        }),
{
}

/// An instruction comes behind the others, and a label is tied to the place behind them.
pub proof fn steps_come_behind(p: ProgramView, insn: Insn, label: BranchOffset)
    ensures
        p.op(insn) == (ProgramView { insns: p.insns.push(InsnView::Plain(insn)), ..p }),
        p.assign_next(label) == (ProgramView {
            labels: p.labels.push(
                LabelAssignment {
                    label,
                    position: p.insns.len() as usize,
                    target: JumpTarget::AfterThisInsn,
                },
            ),
            ..p
        }),
        p.assign_here(label) == (ProgramView {
            labels: p.labels.push(
                LabelAssignment {
                    label,
                    position: p.insns.len() as usize,
                    target: JumpTarget::ExactlyThisInsn,
                },
            ),
            ..p
        }),
{
}

/// A table is read as a whole by the scan that goes with its kind, and through no index.
pub proof fn default_scan_goes_with_the_table(t: Table)
    ensures
        t is BTree ==> default_scan(t) == Operation::Scan(Scan::BTreeTable { index: None }),
        t is Virtual ==> default_scan(t) == Operation::Scan(Scan::VirtualTable),
        t is FromClauseSubquery ==> default_scan(t) == Operation::Scan(Scan::Subquery),
        t is RecursiveCte ==> default_scan(t) == Operation::Scan(Scan::RecursiveCte),
{
}

/// What is left of a plan that was taken out has nothing in it.
pub proof fn blank_plan_has_nothing(plan: SelectPlan)
    requires
        is_blank(plan),
    ensures
        plan.table_references.joined_tables@ == Seq::<JoinedTable>::empty(),
        plan.table_references.outer_query_refs@ == Seq::<OuterQueryReference>::empty(),
        plan.result_columns@.len() == 0,
        plan.where_clause@.len() == 0,
        plan.group_by is None,
        plan.order_by@.len() == 0,
        plan.limit is None,
        plan.offset is None,
        plan.query_destination == QueryDestination::Unset,
        plan.non_from_clause_subqueries@.len() == 0,
{
}

// ---------------------------------------------------------------------------------------------
// The records of a recursive expression.

/// The instructions at a position make a record out of registers, and put it under a new rowid into
/// the table of a cursor, which goes by a name.
pub open spec fn puts_record(
    p: ProgramView,
    at: int,
    l: CteLayout,
    first: usize,
    cursor: usize,
    name: Seq<char>,
) -> bool {
    &&& 0 <= at
    &&& at + 2 < p.insns.len()
    &&& p.insns[at] == InsnView::Plain(
        Insn::MakeRecord {
            start_reg: first,
            count: l.columns,
            dest_reg: l.record,
            index_name: None,
            affinity_str: None,
        },
    )
    &&& puts_again(p, at + 1, l, cursor, name)
}

/// The instructions at a position put the record under a new rowid into the table of a cursor,
/// which goes by a name.
pub open spec fn puts_again(
    p: ProgramView,
    at: int,
    l: CteLayout,
    cursor: usize,
    name: Seq<char>,
) -> bool {
    &&& 0 <= at
    &&& at + 1 < p.insns.len()
    &&& p.insns[at] == InsnView::Plain(
        Insn::NewRowid { cursor, rowid_reg: l.rowid, prev_largest_reg: 0 },
    )
    &&& p.insns[at + 1] == (InsnView::Insert {
        cursor,
        key_reg: l.rowid,
        record_reg: l.record,
        flag: 0,
        table_name: name,
    })
}

/// A row of the anchor goes to the output, and then to the working table.
pub proof fn anchor_records_go_to_both(
    p: ProgramView,
    l: CteLayout,
    a: Anchor,
    result_reg: usize,
)
    ensures
        ({
            let q = anchor_closed(p, l, a, result_reg);
            let b = p.insns.len() + 2 + l.columns;
            &&& q.insns.len() == b + 6
            &&& puts_record(q, b, l, l.row, l.output, "cte_output"@)
            &&& puts_again(q, b + 3, l, l.working, "cte_working"@)
        }),
{
}

/// A new row goes to the table of new rows. Behind the loops over the rows, a row from there goes
/// to the output, and then one to the working table.
pub proof fn round_records_go_on(p: ProgramView, l: CteLayout, k: CteLoop)
    ensures
        ({
            let q = loop_finished(p, l, k);
            let b = p.insns.len() as int;
            let n = l.columns;
            let o: int = if k.other is Some {
                1
            } else {
                0
            };
            &&& puts_record(q, b, l, l.result, l.temp, "cte_temp"@)
            &&& puts_record(q, b + 5 + o + n, l, l.row, l.output, "cte_output"@)
            &&& puts_record(q, b + 11 + o + 2 * n, l, l.row, l.working, "cte_working"@)
            &&& q.insns.len() == b + 16 + o + 2 * n
        }),
{
    let rows = row_finished(p, l, k);
    let checked = rows.op(Insn::Rewind { cursor_id: l.temp, pc_if_empty: k.done });
    let copied = rows_moved(checked, l, p.label(0), l.output, "cte_output"@);
    let emptied = copied.op(Insn::ResetSorter { cursor_id: l.working }).op(
        Insn::Rewind { cursor_id: l.temp, pc_if_empty: k.start },
    );
    let swapped = rows_moved(emptied, l, p.label(1), l.working, "cte_working"@);
    let q = loop_finished(p, l, k);
    let c = checked.insns.len() as int;
    let e = emptied.insns.len() as int;
    let n = l.columns as int;
    moved_records(checked, l, p.label(0), l.output, "cte_output"@);
    moved_records(emptied, l, p.label(1), l.working, "cte_working"@);
    assert forall|i: int| 0 <= i < c implies #[trigger] q.insns[i] == checked.insns[i] by {
        assert(swapped.insns[i] == emptied.insns[i]);
        assert(copied.insns[i] == checked.insns[i]);
    }
    assert forall|i: int| 0 <= i < copied.insns.len() implies #[trigger] q.insns[i]
        == copied.insns[i] by {
        assert(swapped.insns[i] == emptied.insns[i]);
    }
    assert forall|i: int| 0 <= i < swapped.insns.len() implies #[trigger] q.insns[i]
        == swapped.insns[i] by {}
    assert(puts_record(rows, p.insns.len() as int, l, l.result, l.temp, "cte_temp"@));
}

proof fn moved_records(
    p: ProgramView,
    l: CteLayout,
    label: BranchOffset,
    cursor: usize,
    name: Seq<char>,
)
    ensures
        ({
            let q = rows_moved(p, l, label, cursor, name);
            let b = p.insns.len() as int;
            &&& q.insns.len() == b + l.columns + 4
            &&& puts_record(q, b + l.columns, l, l.row, cursor, name)
            &&& forall|i: int| 0 <= i < b ==> #[trigger] q.insns[i] == p.insns[i]
        }),
{
}

} // verus!
