//! What the code of a recursive common table expression does with rows.
//!
//! Positions are those in the finished program, and registers, cursors and labels are counted from
//! those that were free when the code was begun.
use crate::ast::TableInternalId;
use crate::compiler::{emits_query, ResolverView, SelectCompiler};
use crate::cte_code::{
    anchor_closed, anchor_destination, anchor_here, anchor_opened, Anchor, CteLayout,
};
use crate::cte_stages::{
    anchor_plan_of, anchor_stage, cte_stages, layout_of, opened_for, stages_are_kept, stages_go_on,
    CteStages,
};
use crate::extension_laws::{extends, only_extends};
use crate::machine::{moves_fill_registers, run, run_more, Item, Machine};
use crate::plan::{QueryDestination, RecursiveCte, SelectPlan};
use crate::plan_copy::{directed, PlanShape, PlanTree};
use crate::program::{
    BranchOffset, ErrorView, Insn, InsnView, JumpTarget, LabelAssignment, ProgramView,
};
use crate::recursive_cte::cte_emitted;
use vstd::prelude::*;

verus! {

// ---------------------------------------------------------------------------------------------
// Positions.

/// The instruction at a position.
pub open spec fn has(p: ProgramView, position: int, insn: Insn) -> bool {
    0 <= position < p.insns.len() && p.insns[position] == InsnView::Plain(insn)
}

/// The label with a number leads to the instruction at a position, or behind the last one.
pub open spec fn leads_to(p: ProgramView, label: nat, position: int) -> bool {
    exists|i: int|
        0 <= i < p.labels.len() && #[trigger] p.labels[i] == (LabelAssignment {
            label: BranchOffset::Label(label as usize),
            position: position as usize,
            target: JumpTarget::AfterThisInsn,
        })
}

/// The jump to the label with a number.
pub open spec fn to(label: nat) -> BranchOffset {
    BranchOffset::Label(label as usize)
}

/// Where a label leads is what was decided for it.
pub proof fn tied_at(p: ProgramView, i: int, label: nat, position: int)
    requires
        0 <= i < p.labels.len(),
        p.labels[i].label == BranchOffset::Label(label as usize),
        p.labels[i].position == position as usize,
        p.labels[i].target == JumpTarget::AfterThisInsn,
    ensures
        leads_to(p, label, position),
{
    assert(p.labels[i] == (LabelAssignment {
        label: BranchOffset::Label(label as usize),
        position: position as usize,
        target: JumpTarget::AfterThisInsn,
    }));
}

// ---------------------------------------------------------------------------------------------
// Blocks of instructions that move rows.

/// The instructions at a position of a block put a record into a table, under a new rowid.
pub open spec fn is_insertion(
    block: Seq<InsnView>,
    at: int,
    cursor: usize,
    rowid: usize,
    record: usize,
) -> bool {
    &&& 0 <= at
    &&& at + 1 < block.len()
    &&& block[at] == InsnView::Plain(
        Insn::NewRowid { cursor, rowid_reg: rowid, prev_largest_reg: 0 },
    )
    &&& block[at + 1] matches InsnView::Insert { cursor: c, key_reg, record_reg, flag, .. } && c
        == cursor && key_reg == rowid && record_reg == record && flag == 0
}

/// A record is put into a table.
pub proof fn run_insertion(
    m: Machine,
    block: Seq<InsnView>,
    cursor: usize,
    rowid: usize,
    record: usize,
)
    requires
        block.len() >= 2,
        is_insertion(block, block.len() - 2, cursor, rowid, record),
        rowid != record,
    ensures
        ({
            let earlier = run(m, block.take(block.len() - 2));
            let after = run(m, block);
            &&& after.tables == earlier.tables.insert(
                cursor as int,
                earlier.tables[cursor as int].push(earlier.registers[record as int]),
            )
            &&& after.rows == earlier.rows
            &&& forall|k: int| k != rowid ==> after.registers[k] == earlier.registers[k]
        }),
{
    let n = block.len() as int;
    assert(block.take(n - 1) =~= block.take(n - 2).push(block[n - 2]));
    assert(block =~= block.take(n - 1).push(block[n - 1]));
    run_more(m, block.take(n - 2), block[n - 2]);
    run_more(m, block.take(n - 1), block[n - 1]);
}

/// A record is made of registers.
pub proof fn run_record(m: Machine, block: Seq<InsnView>, start: usize, count: usize, record: usize)
    requires
        block.len() >= 1,
        block.last() == InsnView::Plain(
            Insn::MakeRecord {
                start_reg: start,
                count,
                dest_reg: record,
                index_name: None,
                affinity_str: None,
            },
        ),
    ensures
        ({
            let earlier = run(m, block.drop_last());
            run(m, block) == earlier.with(
                record as int,
                Item::Record(earlier.range(start as int, count as nat)),
            )
        }),
{
}

proof fn run_copies(m: Machine, block: Seq<InsnView>, from: int, first: int, n: nat)
    requires
        block.len() == n,
        0 <= from,
        0 <= first,
        from + n <= usize::MAX,
        first + n <= usize::MAX,
        from + n <= first || first + n <= from,
        forall|i: int|
            0 <= i < n ==> #[trigger] block[i] == InsnView::Plain(
                Insn::Copy {
                    src_reg: (from + i) as usize,
                    dst_reg: (first + i) as usize,
                    extra_amount: 0,
                },
            ),
    ensures
        ({
            let after = run(m, block);
            &&& after.tables == m.tables
            &&& after.rows == m.rows
            &&& after.range(first, n) == m.range(from, n)
        }),
{
    moves_fill_registers(m, block, first, m.range(from, n));
}

/// The row that a cursor is at is read into registers.
pub proof fn run_reads(m: Machine, block: Seq<InsnView>, cursor: usize, first: int, n: nat)
    requires
        block.len() == n,
        0 <= first,
        first + n <= usize::MAX,
        m.rows[cursor as int].columns.len() == n,
        forall|i: int|
            0 <= i < n ==> #[trigger] block[i] == InsnView::Plain(
                Insn::Column {
                    cursor_id: cursor,
                    column: i as usize,
                    dest: (first + i) as usize,
                    default: None,
                },
            ),
    ensures
        ({
            let after = run(m, block);
            &&& after.tables == m.tables
            &&& after.rows == m.rows
            &&& after.range(first, n) == m.rows[cursor as int].columns
        }),
{
    moves_fill_registers(m, block, first, m.rows[cursor as int].columns);
}

/// A block that fills `n` registers with the items of a row, makes a record of them and puts it
/// into a table stores the row.
pub proof fn filled_row_is_stored(
    m: Machine,
    block: Seq<InsnView>,
    first: usize,
    n: nat,
    row: Seq<Item>,
    record: usize,
    rowid: usize,
    cursor: usize,
)
    requires
        block.len() == n + 3,
        n <= usize::MAX,
        run(m, block.take(n as int)).tables == m.tables,
        run(m, block.take(n as int)).rows == m.rows,
        run(m, block.take(n as int)).range(first as int, n) == row,
        block[n as int] == InsnView::Plain(
            Insn::MakeRecord {
                start_reg: first,
                count: n as usize,
                dest_reg: record,
                index_name: None,
                affinity_str: None,
            },
        ),
        is_insertion(block, n as int + 1, cursor, rowid, record),
        rowid != record,
    ensures
        ({
            let after = run(m, block);
            &&& after.tables == m.tables.insert(
                cursor as int,
                m.tables[cursor as int].push(Item::Record(row)),
            )
            &&& after.rows == m.rows
            &&& after.registers[record as int] == Item::Record(row)
        }),
{
    let made = block.take(n as int + 1);
    assert(made.drop_last() =~= block.take(n as int));
    run_record(m, made, first, n as usize, record);
    assert(block.take(block.len() - 2) =~= made);
    run_insertion(m, block, cursor, rowid, record);
}

// ---------------------------------------------------------------------------------------------
// The code of each stage, by position.

/// The code behind the coroutine of the anchor.
spec fn stores_rows(
    p: ProgramView,
    e: int,
    n: nat,
    from: int,
    row: int,
    record: int,
    rowid: int,
    output: usize,
    working: int,
) -> bool {
    let block = p.insns.subrange(e, e + n + 5);
    &&& 0 <= e
    &&& e + n + 5 <= p.insns.len()
    &&& forall|i: int|
        0 <= i < n ==> #[trigger] block[i] == InsnView::Plain(
            Insn::Copy {
                src_reg: (from + i) as usize,
                dst_reg: (row + i) as usize,
                extra_amount: 0,
            },
        )
    &&& block[n as int] == InsnView::Plain(
        Insn::MakeRecord {
            start_reg: row as usize,
            count: n as usize,
            dest_reg: record as usize,
            index_name: None,
            affinity_str: None,
        },
    )
    &&& is_insertion(block, n as int + 1, output, rowid as usize, record as usize)
    &&& is_insertion(block, n as int + 3, working as usize, rowid as usize, record as usize)
}

proof fn anchor_code(p: ProgramView, l: CteLayout, a: Anchor, result_reg: usize, after: ProgramView)
    requires
        extends(anchor_closed(p, l, a, result_reg), after),
    ensures
        ({
            let e = p.insns.len() as int;
            let n = l.columns as nat;
            &&& has(after, e, Insn::EndCoroutine { yield_reg: a.yield_reg })
            &&& has(after, e + 1, Insn::Yield { yield_reg: a.yield_reg, end_offset: a.end })
            &&& stores_rows(
                after,
                e + 2,
                n,
                result_reg as int,
                l.row as int,
                l.record as int,
                l.rowid as int,
                l.output,
                l.working as int,
            )
            &&& has(after, e + n + 7, Insn::Goto { target_pc: a.insert_loop })
            &&& a.insert_loop matches BranchOffset::Label(number) ==> leads_to(
                after,
                number as nat,
                e + 1,
            )
            &&& a.end matches BranchOffset::Label(number) ==> leads_to(
                after,
                number as nat,
                e + n + 8,
            )
        }),
{
    let z = anchor_closed(p, l, a, result_reg);
    let e = p.insns.len() as int;
    let n = l.columns as nat;
    assert(z.insns.len() == e + n + 8);
    assert forall|i: int| 0 <= i < n + 8 implies #[trigger] after.insns[e + i]
        == z.insns[e + i] by {
    }
    let block = after.insns.subrange(e + 2, e + 2 + n + 5);
    assert forall|i: int| 0 <= i < n + 5 implies #[trigger] block[i] == z.insns[e + 2 + i] by {
        assert(after.insns[e + (2 + i)] == z.insns[e + (2 + i)]);
    }
    assert(after.insns[e + 0] == z.insns[e]);
    assert(after.insns[e + 1] == z.insns[e + 1]);
    assert(after.insns[e + (n + 7)] == z.insns[e + n + 7]);
    let j = p.labels.len() as int;
    assert(after.labels[j] == z.labels[j]);
    assert(after.labels[j + 1] == z.labels[j + 1]);
    if let BranchOffset::Label(number) = a.insert_loop {
        tied_at(after, j, number as nat, e + 1);
    }
    if let BranchOffset::Label(number) = a.end {
        tied_at(after, j + 1, number as nat, e + n + 8);
    }
}

proof fn stored_twice(
    m: Machine,
    p: ProgramView,
    e: int,
    n: nat,
    from: int,
    row: int,
    record: int,
    rowid: int,
    output: usize,
    working: int,
)
    requires
        stores_rows(p, e, n, from, row, record, rowid, output, working),
        0 <= from,
        from + n <= usize::MAX,
        0 <= row,
        row + n <= record,
        record < rowid <= usize::MAX,
        from + n <= row || row + n <= from,
        output < working <= usize::MAX,
    ensures
        run(m, p.insns.subrange(e, e + n + 5)).tables == m.tables.insert(
            output as int,
            m.tables[output as int].push(Item::Record(m.range(from, n))),
        ).insert(working, m.tables[working].push(Item::Record(m.range(from, n)))),
{
    let block = p.insns.subrange(e, e + n + 5);
    let first = block.take(n as int);
    run_copies(m, first, from, row, n);
    let once = block.take(n as int + 3);
    assert(once.take(n as int) =~= first);
    filled_row_is_stored(
        m,
        once,
        row as usize,
        n,
        m.range(from, n),
        record as usize,
        rowid as usize,
        output,
    );
    assert(block.take(block.len() - 2) =~= once);
    run_insertion(m, block, working as usize, rowid as usize, record as usize);
}

// ---------------------------------------------------------------------------------------------
// The anchor.

/// What the compiler was asked for the code of an anchor, and what it answered.
pub struct AnchorCode {
    pub asked: ProgramView,
    pub plan: PlanTree,
    pub labels: ProgramView,
    /// The program with the code of the anchor.
    pub program: ProgramView,
    /// The first register of a row that the anchor yields.
    pub result_reg: usize,
}

/// The compiler is asked for the code of the anchor plan, whose rows are to be yielded, and the
/// finished program has the code that it answers with.
pub open spec fn asks_for_anchor<C: SelectCompiler>(
    c: C,
    before: ProgramView,
    cte: RecursiveCte,
    resolver: ResolverView,
    after: ProgramView,
    code: AnchorCode,
) -> bool {
    let n = cte.columns@.len();
    &&& exists|plan_after: SelectPlan| #[trigger]
        emits_query(
            c,
            code.asked,
            code.plan,
            code.labels,
            resolver.schema,
            code.program,
            plan_after,
            Ok(code.result_reg),
        )
    &&& code.asked.insns.len() == before.insns.len() + 4
    &&& code.asked.insns.len() <= code.program.insns.len() < after.insns.len()
    &&& after.insns.take(code.program.insns.len() as int) == code.program.insns
    &&& cte.anchor_plan matches Some(given) && code.plan == (PlanTree {
        shape: PlanShape {
            query_destination: QueryDestination::CoroutineYield {
                yield_reg: (before.next_free_register + 2 * n + 2) as usize,
                coroutine_implementation_start: to(before.next_label),
            },
            ..(*given)@.shape
        },
        ..(*given)@
    })
}

/// The coroutine of the anchor is defined, and a loop takes its rows one by one until it ends.
pub open spec fn takes_anchor_rows(
    before: ProgramView,
    n: nat,
    after: ProgramView,
    code: AnchorCode,
) -> bool {
    let b = before.insns.len() as int;
    let e = code.program.insns.len() as int;
    let yield_reg = (before.next_free_register + 2 * n + 2) as usize;
    let label = before.next_label;
    &&& has(
        after,
        b + 3,
        Insn::InitCoroutine {
            yield_reg,
            jump_on_definition: to(label + 2),
            start_offset: to(label),
        },
    )
    &&& leads_to(after, label, b + 4)
    &&& has(after, e, Insn::EndCoroutine { yield_reg })
    &&& leads_to(after, label + 2, e + 1)
    &&& has(after, e + 1, Insn::Yield { yield_reg, end_offset: to(label + 1) })
    &&& has(after, e + n + 7, Insn::Goto { target_pc: to(label + 2) })
    &&& leads_to(after, label + 1, e + n + 8)
}

/// A block of instructions puts a record into two tables, and into no other.
pub open spec fn stores_in_both(
    block: Seq<InsnView>,
    m: Machine,
    first: int,
    second: int,
    record: Seq<Item>,
) -> bool {
    run(m, block).tables == m.tables.insert(
        first,
        m.tables[first].push(Item::Record(record)),
    ).insert(second, m.tables[second].push(Item::Record(record)))
}

proof fn anchor_is_taken(
    before: ProgramView,
    cte: RecursiveCte,
    output: usize,
    after: ProgramView,
    code: AnchorCode,
    m: Machine,
)
    requires
        before.has_room(2 * cte.columns@.len() + 2, 0, 0),
        opened_for(before, cte, output).has_room(1, 3, 0),
        output < before.cursors.len() <= usize::MAX,
        code.result_reg + cte.columns@.len() <= usize::MAX,
        extends(anchor_opened(opened_for(before, cte, output)), after),
        extends(
            anchor_closed(
                code.program,
                layout_of(before, cte, output),
                anchor_here(opened_for(before, cte, output)),
                code.result_reg,
            ),
            after,
        ),
    ensures
        takes_anchor_rows(before, cte.columns@.len(), after, code),
        code.result_reg + cte.columns@.len() <= before.next_free_register
            || before.next_free_register + cte.columns@.len() <= code.result_reg ==> stores_in_both(
            after.insns.subrange(
                code.program.insns.len() as int + 2,
                code.program.insns.len() as int + cte.columns@.len() + 7,
            ),
            m,
            output as int,
            before.cursors.len() as int,
            m.range(code.result_reg as int, cte.columns@.len()),
        ),
{
    let l = layout_of(before, cte, output);
    let opened = opened_for(before, cte, output);
    let a = anchor_here(opened);
    let begun = anchor_opened(opened);
    let n = cte.columns@.len();
    let b = before.insns.len() as int;
    let e = code.program.insns.len() as int;
    anchor_code(code.program, l, a, code.result_reg, after);
    assert(begun.insns.len() == b + 4);
    assert(after.insns[b + 3] == begun.insns[b + 3]);
    let j = before.labels.len() as int;
    assert(after.labels[j] == begun.labels[j]);
    tied_at(after, j, before.next_label, b + 4);
    if code.result_reg + n <= l.row || l.row + n <= code.result_reg {
        stored_twice(
            m,
            after,
            e + 2,
            n,
            code.result_reg as int,
            l.row as int,
            l.record as int,
            l.rowid as int,
            output,
            l.working as int,
        );
    }
}

/// The rows of the anchor are stored as they are: the code behind the coroutine of the anchor puts
/// a record of the registers that the anchor yields, column by column, into the output table and
/// into the working table, and into no other. It does so for every row, until the coroutine ends.
///
/// `m` is any state of the machine. The registers that the anchor yields its rows in have to be
/// none of those that this library keeps the row at hand in.
#[verifier::spinoff_prover]
#[verifier::rlimit(60)]
pub proof fn anchor_rows_are_stored<C: SelectCompiler>(
    c: C,
    before: ProgramView,
    cte: RecursiveCte,
    output: usize,
    internal_id: TableInternalId,
    resolver: ResolverView,
    after: ProgramView,
    result: Result<(), ErrorView>,
    m: Machine,
) -> (code: AnchorCode)
    requires
        only_extends(c),
        cte_emitted(c, before, cte, output, internal_id, resolver, after, result),
        result is Ok,
        output < before.cursors.len() <= usize::MAX,
    ensures
        asks_for_anchor(c, before, cte, resolver, after, code),
        takes_anchor_rows(before, cte.columns@.len(), after, code),
        code.result_reg + cte.columns@.len() <= before.next_free_register
            || before.next_free_register + cte.columns@.len() <= code.result_reg ==> stores_in_both(
            after.insns.subrange(
                code.program.insns.len() as int + 2,
                code.program.insns.len() as int + cte.columns@.len() + 7,
            ),
            m,
            output as int,
            before.cursors.len() as int,
            m.range(code.result_reg as int, cte.columns@.len()),
        ),
{
    let s = cte_stages(c, before, cte, output, internal_id, resolver, after, result);
    stages_go_on(c, before, cte, output, internal_id, resolver, after, s);
    anchor_stage(c, before, cte, output, internal_id, resolver, after, s);
    stages_are_kept(before, cte, output, after, s);
    let code = anchor_code_of(before, cte, output, s);
    anchor_is_taken(before, cte, output, after, code, m);
    anchor_is_asked_for(c, before, cte, output, resolver, after, s);
    code
}

/// What the stages tell of the anchor.
spec fn anchor_code_of(
    before: ProgramView,
    cte: RecursiveCte,
    output: usize,
    s: CteStages,
) -> AnchorCode {
    let opened = opened_for(before, cte, output);
    AnchorCode {
        asked: anchor_opened(opened).with_labels(
            3 * anchor_plan_of(cte).table_references.joined_tables@.len(),
        ),
        plan: directed(anchor_plan_of(cte)@, anchor_destination(anchor_here(opened))),
        labels: anchor_opened(opened),
        program: s.anchor,
        result_reg: s.result_reg,
    }
}

proof fn anchor_is_asked_for<C: SelectCompiler>(
    c: C,
    before: ProgramView,
    cte: RecursiveCte,
    output: usize,
    resolver: ResolverView,
    after: ProgramView,
    s: CteStages,
)
    requires
        before.has_room(2 * cte.columns@.len() + 2, 0, 0),
        cte.anchor_plan is Some,
        extends(anchor_opened(opened_for(before, cte, output)), s.anchor),
        extends(s.anchor, after),
        s.anchor.insns.len() < after.insns.len(),
        emits_query(
            c,
            anchor_code_of(before, cte, output, s).asked,
            anchor_code_of(before, cte, output, s).plan,
            anchor_code_of(before, cte, output, s).labels,
            resolver.schema,
            s.anchor,
            s.plan_after,
            Ok(s.result_reg),
        ),
    ensures
        asks_for_anchor(c, before, cte, resolver, after, anchor_code_of(before, cte, output, s)),
{
    let code = anchor_code_of(before, cte, output, s);
    assert(emits_query(
        c,
        code.asked,
        code.plan,
        code.labels,
        resolver.schema,
        code.program,
        s.plan_after,
        Ok(code.result_reg),
    ));
    assert(code.asked.insns.len() == before.insns.len() + 4);
    assert(after.insns.take(s.anchor.insns.len() as int) =~= s.anchor.insns);
}

} // verus!
