//! The code around the parts of a recursive common table expression.
//!
//! The rows live in three temporary tables: `output` collects all of them, `working` holds those
//! of the last round, and `temp` those of the round that is under way.
use crate::bind::NamedTable;
use crate::plan::QueryDestination;
use crate::program::{
    BranchOffset, CursorType, CursorTypeView, Insn, InsnView, ProgramBuilder, ProgramView,
};
use crate::schema::{share, BTreeTable, BTreeTableView, Column};
use crate::ast::TableInternalId;
use std::sync::Arc;
use vstd::prelude::*;

verus! {

/// How many rounds a recursive common table expression runs at most.
pub const RECURSIVE_CTE_MAX_ITERATIONS: i64 = 1000;

/// The cursors and registers of a recursive common table expression.
#[derive(Clone, Copy, Debug, PartialEq, Eq, Structural)]
pub struct CteLayout {
    /// How many columns a row has.
    pub columns: usize,
    pub output: usize,
    pub working: usize,
    pub temp: usize,
    /// The first register of the row at hand.
    pub row: usize,
    /// The first register of a new row.
    pub result: usize,
    pub record: usize,
    pub rowid: usize,
}

impl CteLayout {
    /// The registers of a row are there.
    pub open spec fn is_valid(self) -> bool {
        &&& self.row + self.columns <= usize::MAX
        &&& self.result + self.columns <= usize::MAX
    }
}

// ---------------------------------------------------------------------------------------------
// Rows.

/// Reads the columns of a row into registers.
pub open spec fn column_reads(cursor_id: usize, first: usize, n: nat) -> Seq<InsnView> {
    Seq::new(
        n,
        |i: int|
            InsnView::Plain(
                Insn::Column {
                    cursor_id,
                    column: i as usize,
                    dest: (first + i) as usize,
                    default: None,
                },
            ),
    )
}

fn read_columns(program: &mut ProgramBuilder, cursor_id: usize, first: usize, n: usize)
    requires
        first + n <= usize::MAX,
    ensures
        final(program)@ == old(program)@.emit_all(column_reads(cursor_id, first, n as nat)),
{
    let mut i: usize = 0;
    assert(program@ == program@.emit_all(column_reads(cursor_id, first, 0)));
    while i < n
        invariant
            i <= n,
            first + n <= usize::MAX,
            program@ == old(program)@.emit_all(column_reads(cursor_id, first, i as nat)),
        decreases n - i,
    {
        program.emit_insn(Insn::Column { cursor_id, column: i, dest: first + i, default: None });
        i += 1;
        assert(program@.insns =~= old(program)@.insns + column_reads(cursor_id, first, i as nat));
    }
}

/// Copies registers.
pub open spec fn register_copies(from: usize, to: usize, n: nat) -> Seq<InsnView> {
    Seq::new(
        n,
        |i: int|
            InsnView::Plain(
                Insn::Copy {
                    src_reg: (from + i) as usize,
                    dst_reg: (to + i) as usize,
                    extra_amount: 0,
                },
            ),
    )
}

fn copy_registers(program: &mut ProgramBuilder, from: usize, to: usize, n: usize)
    requires
        from + n <= usize::MAX,
        to + n <= usize::MAX,
    ensures
        final(program)@ == old(program)@.emit_all(register_copies(from, to, n as nat)),
{
    let mut i: usize = 0;
    assert(program@ == program@.emit_all(register_copies(from, to, 0)));
    while i < n
        invariant
            i <= n,
            from + n <= usize::MAX,
            to + n <= usize::MAX,
            program@ == old(program)@.emit_all(register_copies(from, to, i as nat)),
        decreases n - i,
    {
        program.emit_insn(Insn::Copy { src_reg: from + i, dst_reg: to + i, extra_amount: 0 });
        i += 1;
        assert(program@.insns =~= old(program)@.insns + register_copies(from, to, i as nat));
    }
}

/// Makes a record of a row.
pub open spec fn record_made(l: CteLayout, start_reg: usize) -> InsnView {
    InsnView::Plain(
        Insn::MakeRecord {
            start_reg,
            count: l.columns,
            dest_reg: l.record,
            index_name: None,
            affinity_str: None,
        },
    )
}

fn make_record(program: &mut ProgramBuilder, l: CteLayout, start_reg: usize)
    ensures
        final(program)@ == old(program)@.emit(record_made(l, start_reg)),
{
    program.emit_insn(
        Insn::MakeRecord {
            start_reg,
            count: l.columns,
            dest_reg: l.record,
            index_name: None,
            affinity_str: None,
        },
    );
}

/// Puts the record into a table, under a new rowid.
pub open spec fn record_inserted(
    p: ProgramView,
    l: CteLayout,
    cursor: usize,
    table_name: Seq<char>,
) -> ProgramView {
    p.op(Insn::NewRowid { cursor, rowid_reg: l.rowid, prev_largest_reg: 0 }).emit(
        InsnView::Insert { cursor, key_reg: l.rowid, record_reg: l.record, flag: 0, table_name },
    )
}

fn insert_record(program: &mut ProgramBuilder, l: CteLayout, cursor: usize, table_name: &str)
    ensures
        final(program)@ == record_inserted(old(program)@, l, cursor, table_name@),
{
    program.emit_insn(Insn::NewRowid { cursor, rowid_reg: l.rowid, prev_largest_reg: 0 });
    program.emit_insn(
        Insn::Insert {
            cursor,
            key_reg: l.rowid,
            record_reg: l.record,
            flag: 0,
            table_name: table_name.to_owned(),
        },
    );
}

/// Moves all rows of `temp` to another table. `label` leads to the first of these instructions.
pub open spec fn rows_moved(
    p: ProgramView,
    l: CteLayout,
    label: BranchOffset,
    cursor: usize,
    table_name: Seq<char>,
) -> ProgramView {
    record_inserted(
        p.with_labels(1).assign_next(label).emit_all(
            column_reads(l.temp, l.row, l.columns as nat),
        ).emit(record_made(l, l.row)),
        l,
        cursor,
        table_name,
    ).op(Insn::Next { cursor_id: l.temp, pc_if_next: label })
}

fn move_rows(program: &mut ProgramBuilder, l: CteLayout, cursor: usize, table_name: &str)
    requires
        l.is_valid(),
        old(program)@.has_room(0, 1, 0),
    ensures
        final(program)@ == rows_moved(
            old(program)@,
            l,
            old(program)@.label(0),
            cursor,
            table_name@,
        ),
{
    let label = program.allocate_label();
    program.preassign_label_to_next_insn(label);
    read_columns(program, l.temp, l.row, l.columns);
    make_record(program, l, l.row);
    insert_record(program, l, cursor, table_name);
    program.emit_insn(Insn::Next { cursor_id: l.temp, pc_if_next: label });
}

// ---------------------------------------------------------------------------------------------
// The beginning.

/// The temporary table that holds the rows, by the name and the columns of the expression.
pub open spec fn ephemeral_table(name: Seq<char>, columns: Seq<Column>) -> BTreeTableView {
    BTreeTableView {
        root_page: 0,
        name: "cte_"@ + name,
        columns,
        has_rowid: true,
        is_strict: false,
        has_autoincrement: false,
    }
}

/// The cursors and registers of an expression whose code begins here.
pub open spec fn cte_layout(p: ProgramView, columns: usize, output: usize) -> CteLayout {
    CteLayout {
        columns,
        output,
        working: p.cursor(),
        temp: (p.cursors.len() + 1) as usize,
        row: p.register(0),
        result: p.register(columns as nat),
        record: p.register(2 * columns as nat),
        rowid: p.register(2 * columns as nat + 1),
    }
}

/// The temporary tables are opened.
pub open spec fn tables_opened(p: ProgramView, l: CteLayout, table: BTreeTableView) -> ProgramView {
    p.op(Insn::OpenEphemeral { cursor_id: l.output, is_table: true }).with_cursor(
        None,
        CursorTypeView::BTreeTable(table),
    ).with_cursor(None, CursorTypeView::BTreeTable(table)).op(
        Insn::OpenEphemeral { cursor_id: l.working, is_table: true },
    ).op(Insn::OpenEphemeral { cursor_id: l.temp, is_table: true }).with_registers(
        2 * l.columns as nat + 2,
    )
}

/// Opens the temporary tables, and hands out the cursors and registers.
pub fn open_tables(
    program: &mut ProgramBuilder,
    table: &Arc<BTreeTable>,
    output: usize,
) -> (l: CteLayout)
    requires
        old(program)@.has_room(2 * table.columns@.len() + 2, 0, 0),
    ensures
        l == cte_layout(old(program)@, table.columns@.len() as usize, output),
        l.is_valid(),
        l.columns == table.columns@.len(),
        final(program)@ == tables_opened(old(program)@, l, (**table)@),
{
    let columns = table.columns.len();
    program.emit_insn(Insn::OpenEphemeral { cursor_id: output, is_table: true });
    let working = program.alloc_cursor_id(CursorType::BTreeTable(share(table)));
    let temp = program.alloc_cursor_id(CursorType::BTreeTable(share(table)));
    program.emit_insn(Insn::OpenEphemeral { cursor_id: working, is_table: true });
    program.emit_insn(Insn::OpenEphemeral { cursor_id: temp, is_table: true });
    let row = program.alloc_registers(columns);
    let result = program.alloc_registers(columns);
    let record = program.alloc_register();
    let rowid = program.alloc_register();
    CteLayout { columns, output, working, temp, row, result, record, rowid }
}

// ---------------------------------------------------------------------------------------------
// The anchor.

/// The coroutine that gives the rows of the anchor.
#[derive(Clone, Copy, Debug, PartialEq, Eq, Structural)]
pub struct Anchor {
    pub yield_reg: usize,
    pub start: BranchOffset,
    pub end: BranchOffset,
    pub insert_loop: BranchOffset,
}

/// The coroutine of an anchor whose code begins here.
pub open spec fn anchor_here(p: ProgramView) -> Anchor {
    Anchor {
        yield_reg: p.register(0),
        start: p.label(0),
        end: p.label(1),
        insert_loop: p.label(2),
    }
}

/// Where the rows of the anchor go.
pub open spec fn anchor_destination(a: Anchor) -> QueryDestination {
    QueryDestination::CoroutineYield {
        yield_reg: a.yield_reg,
        coroutine_implementation_start: a.start,
    }
}

/// The code of the coroutine is about to follow.
pub open spec fn anchor_opened(p: ProgramView) -> ProgramView {
    let a = anchor_here(p);
    p.with_registers(1).with_labels(3).op(
        Insn::InitCoroutine {
            yield_reg: a.yield_reg,
            jump_on_definition: a.insert_loop,
            start_offset: a.start,
        },
    ).assign_next(a.start)
}

/// Begins the coroutine that gives the rows of the anchor.
pub fn open_anchor(program: &mut ProgramBuilder) -> (a: Anchor)
    requires
        old(program)@.has_room(1, 3, 0),
    ensures
        a == anchor_here(old(program)@),
        final(program)@ == anchor_opened(old(program)@),
{
    let yield_reg = program.alloc_register();
    let start = program.allocate_label();
    let end = program.allocate_label();
    let insert_loop = program.allocate_label();
    program.emit_insn(
        Insn::InitCoroutine { yield_reg, jump_on_definition: insert_loop, start_offset: start },
    );
    program.preassign_label_to_next_insn(start);
    Anchor { yield_reg, start, end, insert_loop }
}

/// The coroutine ends, and each of its rows goes to `output` and to `working`.
pub open spec fn anchor_closed(
    p: ProgramView,
    l: CteLayout,
    a: Anchor,
    result_reg: usize,
) -> ProgramView {
    let read = p.op(Insn::EndCoroutine { yield_reg: a.yield_reg }).assign_next(a.insert_loop).op(
        Insn::Yield { yield_reg: a.yield_reg, end_offset: a.end },
    ).emit_all(register_copies(result_reg, l.row, l.columns as nat)).emit(record_made(l, l.row));
    let stored = record_inserted(
        record_inserted(read, l, l.output, "cte_output"@),
        l,
        l.working,
        "cte_working"@,
    );
    stored.op(Insn::Goto { target_pc: a.insert_loop }).assign_next(a.end)
}

/// Ends the coroutine, whose rows begin at `result_reg`, and stores its rows.
pub fn close_anchor(program: &mut ProgramBuilder, l: CteLayout, a: Anchor, result_reg: usize)
    requires
        l.is_valid(),
        result_reg + l.columns <= usize::MAX,
    ensures
        final(program)@ == anchor_closed(old(program)@, l, a, result_reg),
{
    program.emit_insn(Insn::EndCoroutine { yield_reg: a.yield_reg });
    program.preassign_label_to_next_insn(a.insert_loop);
    program.emit_insn(Insn::Yield { yield_reg: a.yield_reg, end_offset: a.end });
    copy_registers(program, result_reg, l.row, l.columns);
    make_record(program, l, l.row);
    insert_record(program, l, l.output, "cte_output");
    insert_record(program, l, l.working, "cte_working");
    program.emit_insn(Insn::Goto { target_pc: a.insert_loop });
    program.preassign_label_to_next_insn(a.end);
}

// ---------------------------------------------------------------------------------------------
// The recursive loop.

/// A table of the recursive member other than the expression itself.
pub struct OtherTable {
    pub name: Seq<char>,
    pub table: BTreeTable,
    pub internal_id: TableInternalId,
    pub cursor_id: usize,
}

/// The loop over the other table of a recursive member.
#[derive(Clone, Copy, Debug, PartialEq, Eq, Structural)]
pub struct OtherLoop {
    pub cursor_id: usize,
    pub start: BranchOffset,
    pub next: BranchOffset,
    /// The first register of its columns.
    pub columns: usize,
}

/// The loops of a recursive member.
#[derive(Clone, Copy, Debug, PartialEq, Eq, Structural)]
pub struct CteLoop {
    /// The next round.
    pub start: BranchOffset,
    pub done: BranchOffset,
    pub depth: usize,
    pub limit: usize,
    /// The loop over the rows of the last round.
    pub row_start: BranchOffset,
    pub row_next: BranchOffset,
    pub other: Option<OtherLoop>,
}

impl CteLoop {
    /// Where the next pair of rows comes from.
    pub open spec fn innermost_next(self) -> BranchOffset {
        match self.other {
            Some(other) => other.next,
            None => self.row_next,
        }
    }

    /// Where the next pair of rows comes from.
    pub fn get_innermost_next(&self) -> (r: BranchOffset)
        ensures
            r == self.innermost_next(),
    {
        match self.other {
            Some(other) => other.next,
            None => self.row_next,
        }
    }
}

/// How many columns the other table has.
pub open spec fn other_columns(other: Option<OtherTable>) -> nat {
    match other {
        Some(other) => other.table.columns@.len(),
        None => 0,
    }
}

/// How many labels the loops take.
pub open spec fn loop_label_count(other: Option<OtherTable>) -> nat {
    if other is Some {
        6
    } else {
        4
    }
}

/// The loops of a recursive member whose code begins here.
pub open spec fn cte_loop(p: ProgramView, other: Option<OtherTable>) -> CteLoop {
    CteLoop {
        start: p.label(0),
        done: p.label(1),
        depth: p.register(0),
        limit: p.register(1),
        row_start: p.label(2),
        row_next: p.label(3),
        other: match other {
            Some(other) => Some(
                OtherLoop {
                    cursor_id: other.cursor_id,
                    start: p.label(4),
                    next: p.label(5),
                    columns: p.register(2),
                },
            ),
            None => None,
        },
    }
}

/// Reads the columns of a row of an ordinary table into registers.
pub open spec fn table_reads(
    columns: Seq<Column>,
    cursor_id: usize,
    first: usize,
    n: nat,
) -> Seq<InsnView> {
    Seq::new(
        n,
        |i: int|
            InsnView::Plain(
                if columns[i].is_rowid_alias {
                    Insn::RowId { cursor_id, dest: (first + i) as usize }
                } else {
                    Insn::Column {
                        cursor_id,
                        column: i as usize,
                        dest: (first + i) as usize,
                        default: None,
                    }
                },
            ),
    )
}

fn read_table(program: &mut ProgramBuilder, columns: &Vec<Column>, cursor_id: usize, first: usize)
    requires
        first + columns@.len() <= usize::MAX,
    ensures
        final(program)@ == old(program)@.emit_all(
            table_reads(columns@, cursor_id, first, columns@.len()),
        ),
{
    let mut i: usize = 0;
    assert(program@ == program@.emit_all(table_reads(columns@, cursor_id, first, 0)));
    while i < columns.len()
        invariant
            i <= columns@.len(),
            first + columns@.len() <= usize::MAX,
            program@ == old(program)@.emit_all(
                table_reads(columns@, cursor_id, first, i as nat),
            ),
        decreases columns@.len() - i,
    {
        if columns[i].is_rowid_alias {
            program.emit_insn(Insn::RowId { cursor_id, dest: first + i });
        } else {
            program.emit_insn(
                Insn::Column { cursor_id, column: i, dest: first + i, default: None },
            );
        }
        i += 1;
        assert(program@.insns =~= old(program)@.insns + table_reads(
            columns@,
            cursor_id,
            first,
            i as nat,
        ));
    }
}

/// One more round: there is one more row in `working`, and not too many rounds were run.
pub open spec fn round_begun(p: ProgramView, l: CteLayout, k: CteLoop) -> ProgramView {
    p.op(Insn::Integer { value: 0, dest: k.depth }).assign_next(k.start).op(
        Insn::Integer { value: RECURSIVE_CTE_MAX_ITERATIONS, dest: k.limit },
    ).op(
        Insn::Ge { lhs: k.depth, rhs: k.limit, target_pc: k.done, flags: 0, collation: None },
    ).op(Insn::AddImm { register: k.depth, value: 1 }).op(
        Insn::Rewind { cursor_id: l.working, pc_if_empty: k.done },
    ).op(Insn::ResetSorter { cursor_id: l.temp }).assign_next(k.row_start).emit_all(
        column_reads(l.working, l.row, l.columns as nat),
    )
}

/// The loops are entered: over the rounds, over the rows of the last round, and over the rows of
/// the other table.
pub open spec fn loop_entered(
    p: ProgramView,
    l: CteLayout,
    other: Option<OtherTable>,
) -> ProgramView {
    let k = cte_loop(p, other);
    match other {
        Some(other) => {
            let begun = round_begun(
                p.op(
                    Insn::OpenRead {
                        cursor_id: other.cursor_id,
                        root_page: other.table.root_page,
                        db: 0,
                    },
                ).with_labels(4).with_registers(2),
                l,
                k,
            );
            begun.with_registers(other.table.columns@.len()).with_labels(2).op(
                Insn::Rewind { cursor_id: other.cursor_id, pc_if_empty: k.row_next },
            ).assign_next(p.label(4)).emit_all(
                table_reads(
                    other.table.columns@,
                    other.cursor_id,
                    p.register(2),
                    other.table.columns@.len(),
                ),
            )
        },
        None => round_begun(p.with_labels(4).with_registers(2), l, k),
    }
}

/// The other table, if there is one.
pub open spec fn other_of(other: Option<(&NamedTable, usize)>) -> Option<OtherTable> {
    match other {
        Some((t, cursor_id)) => Some(
            OtherTable {
                name: t.name@,
                table: *t.table,
                internal_id: t.internal_id,
                cursor_id,
            },
        ),
        None => None,
    }
}

/// Enters the loops of a recursive member.
pub fn enter_loop(
    program: &mut ProgramBuilder,
    l: CteLayout,
    other: Option<(&NamedTable, usize)>,
) -> (k: CteLoop)
    requires
        l.is_valid(),
        old(program)@.has_room(
            2 + other_columns(other_of(other)),
            loop_label_count(other_of(other)),
            0,
        ),
    ensures
        k == cte_loop(old(program)@, other_of(other)),
        final(program)@ == loop_entered(old(program)@, l, other_of(other)),
{
    if let Some((t, cursor_id)) = other {
        program.emit_insn(
            Insn::OpenRead { cursor_id, root_page: t.table.root_page, db: 0 },
        );
    }
    let start = program.allocate_label();
    let done = program.allocate_label();
    let depth = program.alloc_register();
    let limit = program.alloc_register();
    program.emit_insn(Insn::Integer { value: 0, dest: depth });
    program.preassign_label_to_next_insn(start);
    program.emit_insn(Insn::Integer { value: RECURSIVE_CTE_MAX_ITERATIONS, dest: limit });
    program.emit_insn(
        Insn::Ge { lhs: depth, rhs: limit, target_pc: done, flags: 0, collation: None },
    );
    program.emit_insn(Insn::AddImm { register: depth, value: 1 });
    program.emit_insn(Insn::Rewind { cursor_id: l.working, pc_if_empty: done });
    program.emit_insn(Insn::ResetSorter { cursor_id: l.temp });
    let row_start = program.allocate_label();
    let row_next = program.allocate_label();
    program.preassign_label_to_next_insn(row_start);
    read_columns(program, l.working, l.row, l.columns);
    let other_loop = match other {
        Some((t, cursor_id)) => {
            let columns = program.alloc_registers(t.table.columns.len());
            let other_start = program.allocate_label();
            let other_next = program.allocate_label();
            program.emit_insn(Insn::Rewind { cursor_id, pc_if_empty: row_next });
            program.preassign_label_to_next_insn(other_start);
            read_table(program, &t.table.columns, cursor_id, columns);
            Some(OtherLoop { cursor_id, start: other_start, next: other_next, columns })
        },
        None => None,
    };
    CteLoop { start, done, depth, limit, row_start, row_next, other: other_loop }
}

/// The new row is stored in `temp`, and the loops over the rows end.
pub open spec fn row_finished(p: ProgramView, l: CteLayout, k: CteLoop) -> ProgramView {
    let stored = record_inserted(p.emit(record_made(l, l.result)), l, l.temp, "cte_temp"@);
    let inner = match k.other {
        Some(other) => stored.assign_next(other.next).op(
            Insn::Next { cursor_id: other.cursor_id, pc_if_next: other.start },
        ),
        None => stored,
    };
    inner.assign_next(k.row_next).op(
        Insn::Next { cursor_id: l.working, pc_if_next: k.row_start },
    )
}

/// The loops end. A round without a new row was the last. Else its rows are copied to `output`,
/// they take the place of those in `working`, and the next round follows.
pub open spec fn loop_finished(p: ProgramView, l: CteLayout, k: CteLoop) -> ProgramView {
    let copied = rows_moved(
        row_finished(p, l, k).op(Insn::Rewind { cursor_id: l.temp, pc_if_empty: k.done }),
        l,
        p.label(0),
        l.output,
        "cte_output"@,
    );
    let swapped = rows_moved(
        copied.op(Insn::ResetSorter { cursor_id: l.working }).op(
            Insn::Rewind { cursor_id: l.temp, pc_if_empty: k.start },
        ),
        l,
        p.label(1),
        l.working,
        "cte_working"@,
    );
    swapped.op(Insn::Goto { target_pc: k.start }).assign_next(k.done)
}

/// Ends the loops of a recursive member, once a new row is in its registers.
pub fn finish_loop(program: &mut ProgramBuilder, l: CteLayout, k: CteLoop)
    requires
        l.is_valid(),
        old(program)@.has_room(0, 2, 0),
    ensures
        final(program)@ == loop_finished(old(program)@, l, k),
{
    make_record(program, l, l.result);
    insert_record(program, l, l.temp, "cte_temp");
    if let Some(other) = k.other {
        program.preassign_label_to_next_insn(other.next);
        program.emit_insn(Insn::Next { cursor_id: other.cursor_id, pc_if_next: other.start });
    }
    program.preassign_label_to_next_insn(k.row_next);
    program.emit_insn(Insn::Next { cursor_id: l.working, pc_if_next: k.row_start });
    program.emit_insn(Insn::Rewind { cursor_id: l.temp, pc_if_empty: k.done });
    move_rows(program, l, l.output, "cte_output");
    program.emit_insn(Insn::ResetSorter { cursor_id: l.working });
    program.emit_insn(Insn::Rewind { cursor_id: l.temp, pc_if_empty: k.start });
    move_rows(program, l, l.working, "cte_working");
    program.emit_insn(Insn::Goto { target_pc: k.start });
    program.preassign_label_to_next_insn(k.done);
}

} // verus!
