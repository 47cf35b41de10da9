//! What instructions do to registers and temporary tables.
//!
//! Only the instructions that move rows have a meaning here. Jumps are not followed: a block of
//! instructions is run from its first to its last.
use crate::program::{Insn, InsnView};
use vstd::prelude::*;

verus! {

/// What a register or a column of a row holds.
pub enum Item {
    Null,
    Number(int),
    /// A value that is neither, known by a number of its own.
    Value(int),
    Record(Seq<Item>),
}

/// The row that a cursor is at.
pub struct Row {
    pub rowid: Item,
    pub columns: Seq<Item>,
}

/// The registers, the records in each table in the order in which they were inserted, and the row
/// that each cursor is at.
pub struct Machine {
    pub registers: Map<int, Item>,
    pub tables: Map<int, Seq<Item>>,
    pub rows: Map<int, Row>,
}

impl Machine {
    /// After a register has changed.
    pub open spec fn with(self, register: int, item: Item) -> Machine {
        Machine { registers: self.registers.insert(register, item), ..self }
    }

    /// The registers from `first` on.
    pub open spec fn range(self, first: int, n: nat) -> Seq<Item> {
        Seq::new(n, |i: int| self.registers[first + i])
    }
}

/// After an instruction.
pub open spec fn step(m: Machine, insn: InsnView) -> Machine {
    match insn {
        InsnView::Plain(Insn::Copy { src_reg, dst_reg, .. }) => m.with(
            dst_reg as int,
            m.registers[src_reg as int],
        ),
        InsnView::Plain(Insn::Integer { value, dest }) => m.with(
            dest as int,
            Item::Number(value as int),
        ),
        InsnView::Plain(Insn::Null { dest, .. }) => m.with(dest as int, Item::Null),
        InsnView::Plain(Insn::Column { cursor_id, column, dest, .. }) => m.with(
            dest as int,
            m.rows[cursor_id as int].columns[column as int],
        ),
        InsnView::Plain(Insn::RowId { cursor_id, dest }) => m.with(
            dest as int,
            m.rows[cursor_id as int].rowid,
        ),
        InsnView::Plain(Insn::MakeRecord { start_reg, count, dest_reg, .. }) => m.with(
            dest_reg as int,
            Item::Record(m.range(start_reg as int, count as nat)),
        ),
        InsnView::Plain(Insn::NewRowid { cursor, rowid_reg, .. }) => m.with(
            rowid_reg as int,
            Item::Number(m.tables[cursor as int].len() as int),
        ),
        InsnView::Plain(Insn::OpenEphemeral { cursor_id, .. }) => Machine {
            tables: m.tables.insert(cursor_id as int, seq![]),
            ..m
        },
        InsnView::Plain(Insn::ResetSorter { cursor_id }) => Machine {
            tables: m.tables.insert(cursor_id as int, seq![]),
            ..m
        },
        InsnView::Insert { cursor, record_reg, .. } => Machine {
            tables: m.tables.insert(
                cursor as int,
                m.tables[cursor as int].push(m.registers[record_reg as int]),
            ),
            ..m
        },
        _ => m,
    }
}

/// After a block of instructions.
pub open spec fn run(m: Machine, block: Seq<InsnView>) -> Machine
    decreases block.len(),
{
    if block.len() == 0 {
        m
    } else {
        step(run(m, block.drop_last()), block.last())
    }
}

/// Running one more instruction.
pub proof fn run_more(m: Machine, block: Seq<InsnView>, insn: InsnView)
    ensures
        run(m, block.push(insn)) == step(run(m, block), insn),
{
    assert(block.push(insn).drop_last() =~= block);
}

/// A block of nothing but moves of a value each into a register of its own, one behind the other.
pub proof fn moves_fill_registers(
    m: Machine,
    block: Seq<InsnView>,
    first: int,
    items: Seq<Item>,
)
    requires
        block.len() == items.len(),
        forall|i: int, n: Machine|
            #![trigger step(n, block[i])]
            0 <= i < block.len() && n.rows == m.rows && (forall|k: int|
                !(first <= k < first + items.len()) ==> n.registers[k] == m.registers[k])
                ==> step(n, block[i]) == n.with(first + i, items[i]),
    ensures
        ({
            let after = run(m, block);
            &&& after.tables == m.tables
            &&& after.rows == m.rows
            &&& after.range(first, items.len()) == items
            &&& forall|k: int|
                !(first <= k < first + items.len()) ==> after.registers[k] == m.registers[k]
        }),
{
    fill_some(m, block, first, items, block.len() as int);
    assert(block.take(block.len() as int) =~= block);
    assert(run(m, block).range(first, items.len()) =~= items);
}

proof fn fill_some(m: Machine, block: Seq<InsnView>, first: int, items: Seq<Item>, n: int)
    requires
        0 <= n <= block.len() == items.len(),
        forall|i: int, n: Machine|
            #![trigger step(n, block[i])]
            0 <= i < block.len() && n.rows == m.rows && (forall|k: int|
                !(first <= k < first + items.len()) ==> n.registers[k] == m.registers[k])
                ==> step(n, block[i]) == n.with(first + i, items[i]),
    ensures
        ({
            let after = run(m, block.take(n));
            &&& after.tables == m.tables
            &&& after.rows == m.rows
            &&& forall|i: int| 0 <= i < n ==> after.registers[first + i] == #[trigger] items[i]
            &&& forall|k: int|
                !(first <= k < first + items.len()) ==> after.registers[k] == m.registers[k]
        }),
    decreases n,
{
    if n > 0 {
        fill_some(m, block, first, items, n - 1);
        let so_far = run(m, block.take(n - 1));
        assert(block.take(n) =~= block.take(n - 1).push(block[n - 1]));
        run_more(m, block.take(n - 1), block[n - 1]);
        assert(step(so_far, block[n - 1]) == so_far.with(first + (n - 1), items[n - 1]));
    }
}

} // verus!
