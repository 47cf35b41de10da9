//! What the rounds of a recursive common table expression do with rows.
use crate::cte_code::{
    column_reads, cte_loop, loop_entered, loop_finished, loop_label_count, other_columns,
    row_finished, rows_moved, table_reads, CteLayout, CteLoop, OtherTable,
};
use crate::cte_laws::{
    filled_row_is_stored, has, is_insertion, leads_to, run_insertion, run_reads, run_record,
    tied_at, to,
};
use crate::extension_laws::extends;
use crate::machine::{moves_fill_registers, run, Item, Machine, Row};
use crate::program::{BranchOffset, Insn, InsnView, JumpTarget, LabelAssignment, ProgramView};
use crate::schema::Column;
use vstd::prelude::*;

verus! {

/// Where the rounds stand in a program.
pub struct RoundCode {
    /// The program in front of the rounds.
    pub found: ProgramView,
    /// The other table of the recursive member.
    pub other: Option<OtherTable>,
    /// The program with the code that computes the columns of a new row.
    pub computed: ProgramView,
}

/// How many instructions open the other table.
pub open spec fn opens(other: Option<OtherTable>) -> int {
    if other is Some {
        1
    } else {
        0
    }
}

/// The columns of the other table, as the row that its cursor is at has them.
pub open spec fn columns_under(columns: Seq<Column>, row: Row) -> Seq<Item> {
    Seq::new(
        columns.len(),
        |i: int|
            if columns[i].is_rowid_alias {
                row.rowid
            } else {
                row.columns[i]
            },
    )
}

/// A block of instructions puts items into registers one behind the other, and nothing into any
/// table.
pub open spec fn fills(block: Seq<InsnView>, m: Machine, first: int, items: Seq<Item>) -> bool {
    let after = run(m, block);
    &&& after.range(first, items.len()) == items
    &&& after.tables == m.tables
    &&& forall|k: int| !(first <= k < first + items.len()) ==> after.registers[k] == m.registers[k]
}

/// A block of instructions puts a record into a table, and into no other.
pub open spec fn stores(block: Seq<InsnView>, m: Machine, table: int, record: Seq<Item>) -> bool {
    run(m, block).tables == m.tables.insert(table, m.tables[table].push(Item::Record(record)))
}

// ---------------------------------------------------------------------------------------------
// The beginning of a round.

/// At most a thousand rounds are run. A round begins if there is a row in the working table; it
/// empties the table of new rows, and goes over the working table row by row.
pub open spec fn begins_rounds(
    before: ProgramView,
    n: nat,
    after: ProgramView,
    r: RoundCode,
    m: Machine,
) -> bool {
    let working = before.cursors.len() as int;
    let row = before.next_free_register as int;
    let f = r.found.insns.len() + opens(r.other);
    let depth = r.found.next_free_register as usize;
    let limit = (r.found.next_free_register + 1) as usize;
    let label = r.found.next_label;
    &&& has(after, f, Insn::Integer { value: 0, dest: depth })
    &&& leads_to(after, label, f + 1)
    &&& has(after, f + 1, Insn::Integer { value: 1000, dest: limit })
    &&& has(
        after,
        f + 2,
        Insn::Ge {
            lhs: depth,
            rhs: limit,
            target_pc: to(label + 1),
            flags: 0,
            collation: None,
        },
    )
    &&& has(after, f + 3, Insn::AddImm { register: depth, value: 1 })
    &&& has(
        after,
        f + 4,
        Insn::Rewind { cursor_id: working as usize, pc_if_empty: to(label + 1) },
    )
    &&& has(after, f + 5, Insn::ResetSorter { cursor_id: (working + 1) as usize })
    &&& leads_to(after, label + 2, f + 6)
    &&& m.rows[working].columns.len() == n ==> fills(
        after.insns.subrange(f + 6, f + 6 + n),
        m,
        row,
        m.rows[working].columns,
    )
}

/// For each row of the working table the other table is gone over row by row, if there is one.
pub open spec fn begins_inner_loop(
    n: nat,
    after: ProgramView,
    r: RoundCode,
    m: Machine,
) -> bool {
    r.other matches Some(other) ==> {
        let f = r.found.insns.len() as int;
        let label = r.found.next_label;
        let columns = other.table.columns@;
        &&& has(
            after,
            f,
            Insn::OpenRead {
                cursor_id: other.cursor_id,
                root_page: other.table.root_page,
                db: 0,
            },
        )
        &&& has(
            after,
            f + 7 + n,
            Insn::Rewind { cursor_id: other.cursor_id, pc_if_empty: to(label + 3) },
        )
        &&& leads_to(after, label + 4, f + 8 + n)
        &&& fills(
            after.insns.subrange(f + 8 + n, f + 8 + n + columns.len()),
            m,
            r.found.next_free_register as int + 2,
            columns_under(columns, m.rows[other.cursor_id as int]),
        )
    }
}

proof fn reads_fill(m: Machine, block: Seq<InsnView>, cursor: usize, first: int, n: nat)
    requires
        block.len() == n,
        0 <= first,
        first + n <= usize::MAX,
        m.rows[cursor as int].columns.len() == n,
        forall|i: int|
            0 <= i < n ==> #[trigger] block[i] == InsnView::Plain(
                Insn::Column {
                    cursor_id: cursor,
                    column: i as usize,
                    dest: (first + i) as usize,
                    default: None,
                },
            ),
    ensures
        fills(block, m, first, m.rows[cursor as int].columns),
{
    moves_fill_registers(m, block, first, m.rows[cursor as int].columns);
}

proof fn table_reads_fill(
    m: Machine,
    block: Seq<InsnView>,
    columns: Seq<Column>,
    cursor: usize,
    first: int,
)
    requires
        block.len() == columns.len(),
        0 <= first,
        first + columns.len() <= usize::MAX,
        forall|i: int|
            0 <= i < columns.len() ==> #[trigger] block[i] == InsnView::Plain(
                if columns[i].is_rowid_alias {
                    Insn::RowId { cursor_id: cursor, dest: (first + i) as usize }
                } else {
                    Insn::Column {
                        cursor_id: cursor,
                        column: i as usize,
                        dest: (first + i) as usize,
                        default: None,
                    }
                },
            ),
    ensures
        fills(block, m, first, columns_under(columns, m.rows[cursor as int])),
{
    moves_fill_registers(m, block, first, columns_under(columns, m.rows[cursor as int]));
}

/// The code in front of the conditions, by position.
#[verifier::spinoff_prover]
#[verifier::rlimit(60)]
pub proof fn entering_code(
    p: ProgramView,
    l: CteLayout,
    other: Option<OtherTable>,
    before: ProgramView,
    n: nat,
    after: ProgramView,
    r: RoundCode,
    m: Machine,
)
    requires
        extends(loop_entered(p, l, other), after),
        p.has_room(2 + other_columns(other), loop_label_count(other), 0),
        l.columns == n,
        l.row == before.next_free_register,
        l.row + n <= usize::MAX,
        l.working == before.cursors.len(),
        l.temp == (before.cursors.len() + 1) as usize,
        r.found == p,
        r.other == other,
    ensures
        begins_rounds(before, n, after, r, m),
        begins_inner_loop(n, after, r, m),
{
    let z = loop_entered(p, l, other);
    let k = cte_loop(p, other);
    let f = p.insns.len() + opens(other);
    let j = p.labels.len() as int;
    assert(z.insns.len() >= f + 6 + n);
    assert(after.labels[j] == z.labels[j]);
    assert(after.labels[j + 1] == z.labels[j + 1]);
    tied_at(after, j, p.next_label, f + 1);
    tied_at(after, j + 1, p.next_label + 2, f + 6);
    assert(after.insns[f] == z.insns[f]);
    assert(after.insns[f + 1] == z.insns[f + 1]);
    assert(after.insns[f + 2] == z.insns[f + 2]);
    assert(after.insns[f + 3] == z.insns[f + 3]);
    assert(after.insns[f + 4] == z.insns[f + 4]);
    assert(after.insns[f + 5] == z.insns[f + 5]);
    let block = after.insns.subrange(f + 6, f + 6 + n);
    assert forall|i: int| 0 <= i < n implies #[trigger] block[i] == InsnView::Plain(
        Insn::Column {
            cursor_id: l.working,
            column: i as usize,
            dest: (l.row + i) as usize,
            default: None,
        },
    ) by {
        assert(after.insns[f + 6 + i] == z.insns[f + 6 + i]);
    }
    if m.rows[l.working as int].columns.len() == n {
        reads_fill(m, block, l.working, l.row as int, n);
    }
    if let Some(t) = other {
        let columns = t.table.columns@;
        let g = p.insns.len() as int;
        assert(z.insns.len() == g + 8 + n + columns.len());
        assert(after.insns[g] == z.insns[g]);
        assert(after.insns[g + 7 + n] == z.insns[g + 7 + n]);
        assert(after.labels[j + 2] == z.labels[j + 2]);
        tied_at(after, j + 2, p.next_label + 4, g + 8 + n);
        let inner = after.insns.subrange(g + 8 + n, g + 8 + n + columns.len());
        assert forall|i: int| 0 <= i < columns.len() implies #[trigger] inner[i]
            == table_reads(columns, t.cursor_id, p.register(2), columns.len())[i] by {
            assert(after.insns[g + 8 + n + i] == z.insns[g + 8 + n + i]);
        }
        table_reads_fill(m, inner, columns, t.cursor_id, p.next_free_register as int + 2);
    }
}

// ---------------------------------------------------------------------------------------------
// The end of a round.

/// A new row is stored in the table of new rows, and the loops go on.
pub open spec fn ends_loops(
    before: ProgramView,
    n: nat,
    after: ProgramView,
    r: RoundCode,
    m: Machine,
) -> bool {
    let working = before.cursors.len() as int;
    let result = before.next_free_register as int + n;
    let t = r.computed.insns.len() as int;
    let v = t + 3 + opens(r.other);
    let label = r.found.next_label;
    &&& stores(after.insns.subrange(t, t + 3), m, working + 1, m.range(result, n))
    &&& r.other matches Some(other) ==> leads_to(after, label + 5, t + 3) && has(
        after,
        t + 3,
        Insn::Next { cursor_id: other.cursor_id, pc_if_next: to(label + 4) },
    )
    &&& leads_to(after, label + 3, v)
    &&& has(
        after,
        v,
        Insn::Next { cursor_id: working as usize, pc_if_next: to(label + 2) },
    )
}

/// A round without new rows is the last. Otherwise every new row goes to the output; then the
/// working table is emptied, every new row goes to it, and the next round follows.
pub open spec fn ends_rounds(
    before: ProgramView,
    n: nat,
    output: usize,
    after: ProgramView,
    r: RoundCode,
    m: Machine,
) -> bool {
    let working = before.cursors.len() as int;
    let temp = (working + 1) as usize;
    let label = r.found.next_label;
    let inner = r.computed.next_label;
    let w = r.computed.insns.len() + 5 + opens(r.other);
    let x = w + n + 4;
    &&& has(after, w - 1, Insn::Rewind { cursor_id: temp, pc_if_empty: to(label + 1) })
    &&& leads_to(after, inner, w)
    &&& m.rows[working + 1].columns.len() == n ==> stores(
        after.insns.subrange(w, w + n + 3),
        m,
        output as int,
        m.rows[working + 1].columns,
    )
    &&& has(after, w + n + 3, Insn::Next { cursor_id: temp, pc_if_next: to(inner) })
    &&& has(after, x, Insn::ResetSorter { cursor_id: working as usize })
    &&& has(after, x + 1, Insn::Rewind { cursor_id: temp, pc_if_empty: to(label) })
    &&& leads_to(after, inner + 1, x + 2)
    &&& m.rows[working + 1].columns.len() == n ==> stores(
        after.insns.subrange(x + 2, x + n + 5),
        m,
        working,
        m.rows[working + 1].columns,
    )
    &&& has(after, x + n + 5, Insn::Next { cursor_id: temp, pc_if_next: to(inner + 1) })
    &&& has(after, x + n + 6, Insn::Goto { target_pc: to(label) })
    &&& leads_to(after, label + 1, x + n + 7)
    &&& after.insns.len() == x + n + 7
}

/// The instructions from `start` on move the row that a cursor is at to another table.
spec fn is_move(
    p: ProgramView,
    start: int,
    n: nat,
    from: usize,
    row: usize,
    record: usize,
    rowid: usize,
    cursor: usize,
) -> bool {
    let block = p.insns.subrange(start, start + n + 3);
    &&& 0 <= start
    &&& start + n + 3 <= p.insns.len()
    &&& forall|i: int|
        0 <= i < n ==> #[trigger] block[i] == InsnView::Plain(
            Insn::Column {
                cursor_id: from,
                column: i as usize,
                dest: (row + i) as usize,
                default: None,
            },
        )
    &&& block[n as int] == InsnView::Plain(
        Insn::MakeRecord {
            start_reg: row,
            count: n as usize,
            dest_reg: record,
            index_name: None,
            affinity_str: None,
        },
    )
    &&& is_insertion(block, n as int + 1, cursor, rowid, record)
}

proof fn moved_row_is_stored(
    m: Machine,
    p: ProgramView,
    start: int,
    n: nat,
    from: usize,
    row: usize,
    record: usize,
    rowid: usize,
    cursor: usize,
)
    requires
        is_move(p, start, n, from, row, record, rowid, cursor),
        row + n <= record < rowid,
        m.rows[from as int].columns.len() == n,
    ensures
        stores(
            p.insns.subrange(start, start + n + 3),
            m,
            cursor as int,
            m.rows[from as int].columns,
        ),
{
    let block = p.insns.subrange(start, start + n + 3);
    let reads = block.take(n as int);
    run_reads(m, reads, from, row as int, n);
    filled_row_is_stored(
        m,
        block,
        row,
        n,
        m.rows[from as int].columns,
        record,
        rowid,
        cursor,
    );
}

proof fn moving_code(
    p: ProgramView,
    l: CteLayout,
    label: BranchOffset,
    cursor: usize,
    table_name: Seq<char>,
    number: nat,
)
    requires
        label == BranchOffset::Label(number as usize),
    ensures
        ({
            let z = rows_moved(p, l, label, cursor, table_name);
            let e = p.insns.len() as int;
            let n = l.columns as nat;
            &&& z.insns.len() == e + n + 4
            &&& z.insns.take(e) == p.insns
            &&& is_move(z, e, n, l.temp, l.row, l.record, l.rowid, cursor)
            &&& has(z, e + n + 3, Insn::Next { cursor_id: l.temp, pc_if_next: label })
            &&& z.labels.len() == p.labels.len() + 1
            &&& z.labels.take(p.labels.len() as int) == p.labels
            &&& z.labels.last() == (LabelAssignment {
                label,
                position: e as usize,
                target: JumpTarget::AfterThisInsn,
            })
            &&& z.next_label == p.next_label + 1
        }),
{
    let z = rows_moved(p, l, label, cursor, table_name);
    let e = p.insns.len() as int;
    let n = l.columns as nat;
    assert(z.insns.len() == e + n + 4);
    assert(z.insns.take(e) =~= p.insns);
    assert(z.labels.take(p.labels.len() as int) =~= p.labels);
    let block = z.insns.subrange(e, e + n + 3);
    assert forall|i: int| 0 <= i < n + 3 implies #[trigger] block[i] == z.insns[e + i] by {
    }
    assert forall|i: int| 0 <= i < n implies #[trigger] block[i] == column_reads(
        l.temp,
        l.row,
        n,
    )[i] by {
        assert(block[i] == z.insns[e + i]);
    }
    assert(block[n as int] == z.insns[e + n]);
    assert(block[n as int + 1] == z.insns[e + n + 1]);
    assert(block[n as int + 2] == z.insns[e + n + 2]);
}

/// The part of a program up to a position, and what was decided for its labels, is kept.
spec fn is_kept(before: ProgramView, after: ProgramView) -> bool {
    &&& before.insns.len() <= after.insns.len()
    &&& forall|i: int| 0 <= i < before.insns.len() ==> #[trigger] after.insns[i] == before.insns[i]
    &&& before.labels.len() <= after.labels.len()
    &&& forall|i: int|
        0 <= i < before.labels.len() ==> #[trigger] after.labels[i] == before.labels[i]
}

proof fn move_is_kept(
    p: ProgramView,
    q: ProgramView,
    start: int,
    n: nat,
    from: usize,
    row: usize,
    record: usize,
    rowid: usize,
    cursor: usize,
)
    requires
        is_move(p, start, n, from, row, record, rowid, cursor),
        is_kept(p, q),
    ensures
        is_move(q, start, n, from, row, record, rowid, cursor),
{
    assert(q.insns.subrange(start, start + n + 3) =~= p.insns.subrange(start, start + n + 3));
}

proof fn finishing_rows(
    p: ProgramView,
    l: CteLayout,
    k: CteLoop,
    before: ProgramView,
    n: nat,
    after: ProgramView,
    r: RoundCode,
    m: Machine,
)
    requires
        k == cte_loop(r.found, r.other),
        is_kept(row_finished(p, l, k), after),
        l.columns == n,
        l.result == before.next_free_register + n,
        l.result + n <= l.record < l.rowid,
        l.working == before.cursors.len(),
        l.temp == before.cursors.len() + 1,
        r.computed == p,
    ensures
        ends_loops(before, n, after, r, m),
{
    let z = row_finished(p, l, k);
    let t = p.insns.len() as int;
    let j = p.labels.len() as int;
    let block = after.insns.subrange(t, t + 3);
    assert(after.insns[t] == z.insns[t]);
    assert(after.insns[t + 1] == z.insns[t + 1]);
    assert(after.insns[t + 2] == z.insns[t + 2]);
    assert(after.insns[t + 3] == z.insns[t + 3]);
    new_row_is_stored(m, block, l.result, n, l.record, l.rowid, l.temp);
    let label = r.found.next_label;
    assert(after.labels[j] == z.labels[j]);
    if r.other is Some {
        assert(after.insns[t + 4] == z.insns[t + 4]);
        assert(after.labels[j + 1] == z.labels[j + 1]);
        tied_at(after, j, label + 5, t + 3);
        tied_at(after, j + 1, label + 3, t + 4);
    } else {
        tied_at(after, j, label + 3, t + 3);
    }
}

proof fn new_row_is_stored(
    m: Machine,
    block: Seq<InsnView>,
    first: usize,
    n: nat,
    record: usize,
    rowid: usize,
    cursor: usize,
)
    requires
        block.len() == 3,
        n <= usize::MAX,
        block[0] == InsnView::Plain(
            Insn::MakeRecord {
                start_reg: first,
                count: n as usize,
                dest_reg: record,
                index_name: None,
                affinity_str: None,
            },
        ),
        is_insertion(block, 1, cursor, rowid, record),
        rowid != record,
    ensures
        stores(block, m, cursor as int, m.range(first as int, n)),
{
    let made = block.take(1);
    assert(made.drop_last() =~= seq![]);
    run_record(m, made, first, n as usize, record);
    assert(block.take(block.len() - 2) =~= made);
    run_insertion(m, block, cursor, rowid, record);
}

/// The code behind the columns of a new row, by position.
#[verifier::spinoff_prover]
#[verifier::rlimit(60)]
pub proof fn finishing_code(
    p: ProgramView,
    l: CteLayout,
    k: CteLoop,
    before: ProgramView,
    n: nat,
    output: usize,
    after: ProgramView,
    r: RoundCode,
    m: Machine,
)
    requires
        k == cte_loop(r.found, r.other),
        after == loop_finished(p, l, k),
        l.columns == n,
        l.output == output,
        l.row == before.next_free_register,
        l.result == before.next_free_register + n,
        l.result + n <= l.record < l.rowid,
        l.working == before.cursors.len(),
        l.temp == before.cursors.len() + 1,
        r.computed == p,
    ensures
        ends_loops(before, n, after, r, m),
        ends_rounds(before, n, output, after, r, m),
{
    let rows = row_finished(p, l, k);
    let checked = rows.op(Insn::Rewind { cursor_id: l.temp, pc_if_empty: k.done });
    let inner = p.next_label;
    let copied = rows_moved(checked, l, p.label(0), l.output, "cte_output"@);
    moving_code(checked, l, p.label(0), l.output, "cte_output"@, inner);
    let emptied = copied.op(Insn::ResetSorter { cursor_id: l.working }).op(
        Insn::Rewind { cursor_id: l.temp, pc_if_empty: k.start },
    );
    let swapped = rows_moved(emptied, l, p.label(1), l.working, "cte_working"@);
    moving_code(emptied, l, p.label(1), l.working, "cte_working"@, inner + 1);
    assert(after == swapped.op(Insn::Goto { target_pc: k.start }).assign_next(k.done));
    let w = p.insns.len() + 5 + opens(r.other);
    let x = w + n + 4;
    assert(checked.insns.len() == w);
    assert(is_kept(rows, checked));
    prefix_is_kept(checked, copied);
    assert(is_kept(copied, emptied));
    prefix_is_kept(emptied, swapped);
    assert(is_kept(swapped, after));
    kept_on(emptied, swapped, after);
    kept_on(copied, emptied, after);
    kept_on(checked, copied, after);
    kept_on(rows, checked, after);
    finishing_rows(p, l, k, before, n, after, r, m);
    move_is_kept(copied, after, w, n, l.temp, l.row, l.record, l.rowid, l.output);
    move_is_kept(swapped, after, x + 2, n, l.temp, l.row, l.record, l.rowid, l.working);
    if m.rows[l.temp as int].columns.len() == n {
        moved_row_is_stored(m, after, w, n, l.temp, l.row, l.record, l.rowid, l.output);
        moved_row_is_stored(m, after, x + 2, n, l.temp, l.row, l.record, l.rowid, l.working);
    }
    assert(after.insns[w - 1] == checked.insns[w - 1]);
    assert(after.insns[w + n + 3] == copied.insns[w + n + 3]);
    assert(after.insns[x] == emptied.insns[x]);
    assert(after.insns[x + 1] == emptied.insns[x + 1]);
    assert(after.insns[x + n + 5] == swapped.insns[x + n + 5]);
    let j = checked.labels.len() as int;
    assert(copied.labels[j] == copied.labels.last());
    assert(after.labels[j] == copied.labels[j]);
    assert(swapped.labels[j + 1] == swapped.labels.last());
    assert(after.labels[j + 1] == swapped.labels[j + 1]);
    tied_at(after, j, inner, w);
    tied_at(after, j + 1, inner + 1, x + 2);
    tied_at(after, j + 2, r.found.next_label + 1, x + n + 7);
}

proof fn prefix_is_kept(p: ProgramView, q: ProgramView)
    requires
        p.insns.len() <= q.insns.len(),
        q.insns.take(p.insns.len() as int) == p.insns,
        p.labels.len() <= q.labels.len(),
        q.labels.take(p.labels.len() as int) == p.labels,
    ensures
        is_kept(p, q),
{
    assert forall|i: int| 0 <= i < p.insns.len() implies #[trigger] q.insns[i] == p.insns[i] by {
        assert(q.insns.take(p.insns.len() as int)[i] == q.insns[i]);
    }
    assert forall|i: int| 0 <= i < p.labels.len() implies #[trigger] q.labels[i] == p.labels[i] by {
        assert(q.labels.take(p.labels.len() as int)[i] == q.labels[i]);
    }
}

proof fn kept_on(first: ProgramView, second: ProgramView, third: ProgramView)
    requires
        is_kept(first, second),
        is_kept(second, third),
    ensures
        is_kept(first, third),
{
}

} // verus!
