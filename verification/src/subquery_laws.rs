//! What stands around the code of a subquery.
use crate::ast::SubqueryType;
use crate::compiler::{emits_query, emits_select, ResolverView, Schema, SelectCompiler};
use crate::cte_laws::{has, leads_to, tied_at, to};
use crate::extension_laws::{extends, only_extends};
use crate::from_clause::{
    coroutine_closed, coroutine_emitted, coroutine_here, coroutine_labels, coroutine_opened,
    coroutine_steps,
};
use crate::machine::{moves_fill_registers, run, run_more, step, Item, Machine};
use crate::nested::{
    frame_closed, frame_here, frame_opened, frame_steps, result_fits, subquery_emitted,
};
use crate::plan::{QueryDestination, SelectPlan};
use crate::plan_copy::{directed_plan, PlanShape, PlanTree};
use crate::program::{ErrorView, Insn, InsnView, JumpTarget, LabelAssignment, ProgramView};
use vstd::prelude::*;

verus! {

// ---------------------------------------------------------------------------------------------
// Subqueries outside the `FROM` clause.

/// The code of a subquery in a program.
pub struct SubqueryCode {
    /// The program in front of the code that the compiler emits for the subquery.
    pub asked: ProgramView,
    /// The program behind it.
    pub program: ProgramView,
}

/// How many instructions make a subquery run only once.
pub open spec fn once_count(is_correlated: bool) -> int {
    if is_correlated {
        0
    } else {
        1
    }
}

/// The compiler is asked for the plan as it is, and its code stands in the finished program.
pub open spec fn asks_for_subquery<C: SelectCompiler>(
    c: C,
    resolver: ResolverView,
    plan: SelectPlan,
    after: ProgramView,
    code: SubqueryCode,
) -> bool {
    &&& emits_select(c, code.asked, resolver, plan, code.program, Ok(()))
    &&& code.asked.insns.len() <= code.program.insns.len() <= after.insns.len()
    &&& after.insns.take(code.program.insns.len() as int) == code.program.insns
    &&& code.program.insns.take(code.asked.insns.len() as int) == code.asked.insns
}

/// A subquery that is not correlated is skipped from the second time on: the first of its
/// instructions leads behind the last. A correlated one has no such instruction.
pub open spec fn runs_as_often_as_it_should(
    before: ProgramView,
    is_correlated: bool,
    after: ProgramView,
    code: SubqueryCode,
) -> bool {
    let b = before.insns.len() as int;
    if is_correlated {
        &&& forall|i: int|
            b <= i < code.asked.insns.len() ==> !(#[trigger] after.insns[i] matches InsnView::Plain(
                insn,
            ) && insn is Once)
        &&& code.asked.next_label == before.next_label
    } else {
        &&& has(after, b, Insn::Once { target_pc_when_reentered: to(before.next_label) })
        &&& leads_to(after, before.next_label, after.insns.len() as int)
        &&& code.asked.next_label == before.next_label + 1
    }
}

/// What a subquery leaves if it finds no row.
pub open spec fn is_without_row(m: Machine, query_type: SubqueryType) -> bool {
    match query_type {
        SubqueryType::Exists { result_reg } => m.registers[result_reg as int] == Item::Number(0),
        SubqueryType::RowValue { result_reg_start, num_regs } => forall|i: int|
            result_reg_start <= i < result_reg_start + num_regs ==> #[trigger] m.registers[i]
                == Item::Null,
        SubqueryType::In { cursor_id } => m.tables[cursor_id as int] == Seq::<Item>::empty(),
    }
}

/// The instructions between the one that makes a subquery run only once and the code of the
/// subquery make the result what it is without a row, whatever it was before.
pub open spec fn resets_result(
    before: ProgramView,
    query_type: SubqueryType,
    is_correlated: bool,
    after: ProgramView,
    code: SubqueryCode,
    m: Machine,
) -> bool {
    let start = before.insns.len() + once_count(is_correlated);
    let end = code.asked.insns.len() as int;
    &&& start < end
    &&& is_without_row(run(m, after.insns.subrange(start, end)), query_type)
}

/// The instructions around the code of a subquery, by position: a subroutine begins and ends for a
/// subquery whose result is in registers, and nothing stands in front of its code but what resets
/// the result.
pub open spec fn is_framed(
    before: ProgramView,
    query_type: SubqueryType,
    is_correlated: bool,
    after: ProgramView,
    code: SubqueryCode,
) -> bool {
    let start = before.insns.len() + once_count(is_correlated);
    let end = code.asked.insns.len() as int;
    let subroutine = before.next_free_register as usize;
    let q = code.program.insns.len() as int;
    match query_type {
        SubqueryType::Exists { result_reg } => {
            &&& end == start + 2
            &&& has(after, start, Insn::BeginSubrtn { dest: subroutine, dest_end: None })
            &&& has(after, start + 1, Insn::Integer { value: 0, dest: result_reg })
            &&& after.insns.len() == q + 1
            &&& has(after, q, Insn::Return { return_reg: subroutine, can_fallthrough: true })
        },
        SubqueryType::RowValue { result_reg_start, num_regs } => {
            &&& end == start + 1 + num_regs
            &&& has(after, start, Insn::BeginSubrtn { dest: subroutine, dest_end: None })
            &&& forall|i: int|
                0 <= i < num_regs ==> has(
                    after,
                    start + 1 + i,
                    (Insn::Null {
                        dest: #[trigger] ((result_reg_start + i) as usize),
                        dest_end: None,
                    }),
                )
            &&& after.insns.len() == q + 1
            &&& has(after, q, Insn::Return { return_reg: subroutine, can_fallthrough: true })
        },
        SubqueryType::In { cursor_id } => {
            &&& end == start + 1
            &&& has(after, start, Insn::OpenEphemeral { cursor_id, is_table: false })
            &&& after.insns.len() == q
        },
    }
}

proof fn framing_code(
    before: ProgramView,
    query_type: SubqueryType,
    is_correlated: bool,
    after: ProgramView,
    code: SubqueryCode,
)
    requires
        result_fits(query_type),
        before.next_free_register <= usize::MAX,
        code.asked == frame_opened(before, query_type, is_correlated),
        extends(code.asked, code.program),
        after == frame_closed(code.program, frame_here(before, query_type, is_correlated)),
    ensures
        is_framed(before, query_type, is_correlated, after, code),
        runs_as_often_as_it_should(before, is_correlated, after, code),
        after.insns.take(code.program.insns.len() as int) == code.program.insns,
        code.program.insns.take(code.asked.insns.len() as int) == code.asked.insns,
{
    let opened = code.asked;
    let b = before.insns.len() as int;
    let start = b + once_count(is_correlated);
    assert(after.insns.take(code.program.insns.len() as int) =~= code.program.insns);
    assert(code.program.insns.take(opened.insns.len() as int) =~= opened.insns);
    assert forall|i: int| 0 <= i < opened.insns.len() implies #[trigger] after.insns[i]
        == opened.insns[i] by {
    }
    if !is_correlated {
        assert(after.insns[b] == opened.insns[b]);
        let j = after.labels.len() - 1;
        tied_at(after, j, before.next_label, after.insns.len() as int);
    }
    assert(after.insns[start] == opened.insns[start]);
    match query_type {
        SubqueryType::Exists { result_reg } => {
            assert(after.insns[start + 1] == opened.insns[start + 1]);
        },
        SubqueryType::RowValue { result_reg_start, num_regs } => {
            assert forall|i: int| 0 <= i < num_regs implies has(
                after,
                start + 1 + i,
                (Insn::Null {
                    dest: #[trigger] ((result_reg_start + i) as usize),
                    dest_end: None,
                }),
            ) by {
                assert(after.insns[start + 1 + i] == opened.insns[start + 1 + i]);
            }
        },
        SubqueryType::In { .. } => {},
    }
}

proof fn framed_result_is_reset(
    before: ProgramView,
    query_type: SubqueryType,
    is_correlated: bool,
    after: ProgramView,
    code: SubqueryCode,
    m: Machine,
)
    requires
        result_fits(query_type),
        is_framed(before, query_type, is_correlated, after, code),
        code.asked.insns.len() <= after.insns.len(),
    ensures
        resets_result(before, query_type, is_correlated, after, code, m),
{
    let start = before.insns.len() + once_count(is_correlated);
    let end = code.asked.insns.len() as int;
    let block = after.insns.subrange(start, end);
    match query_type {
        SubqueryType::Exists { result_reg } => {
            assert(block =~= seq![block[0]].push(block[1]));
            run_more(m, seq![block[0]], block[1]);
        },
        SubqueryType::RowValue { result_reg_start, num_regs } => {
            let nulls = block.subrange(1, block.len() as int);
            let items = Seq::new(num_regs as nat, |i: int| Item::Null);
            assert(step(m, block[0]) == m);
            assert forall|i: int| 0 <= i < nulls.len() implies #[trigger] nulls[i]
                == InsnView::Plain(
                Insn::Null { dest: (result_reg_start + i) as usize, dest_end: None },
            ) by {
                assert(has(
                    after,
                    start + 1 + i,
                    Insn::Null { dest: (result_reg_start + i) as usize, dest_end: None },
                ));
            }
            moves_fill_registers(m, nulls, result_reg_start as int, items);
            behind_the_first(m, block);
            let reset = run(m, block);
            assert forall|i: int|
                result_reg_start <= i < result_reg_start + num_regs implies
                #[trigger] reset.registers[i] == Item::Null by {
                assert(reset.range(result_reg_start as int, num_regs as nat)[i - result_reg_start]
                    == items[i - result_reg_start]);
            }
        },
        SubqueryType::In { cursor_id } => {
            assert(block =~= Seq::<InsnView>::empty().push(block[0]));
            run_more(m, Seq::empty(), block[0]);
        },
    }
}

/// A first instruction without a meaning here makes no difference.
proof fn behind_the_first(m: Machine, block: Seq<InsnView>)
    requires
        block.len() > 0,
        step(m, block[0]) == m,
    ensures
        run(m, block) == run(m, block.subrange(1, block.len() as int)),
    decreases block.len(),
{
    let rest = block.subrange(1, block.len() as int);
    if block.len() == 1 {
        assert(block.drop_last() =~= seq![]);
        assert(rest =~= seq![]);
        assert(run(m, block.drop_last()) == m);
    } else {
        behind_the_first(m, block.drop_last());
        assert(rest.drop_last() =~= block.drop_last().subrange(1, block.len() - 1));
        assert(rest.last() == block.last());
    }
}

/// A subquery outside the `FROM` clause finds its result reset each time it runs, so that a run
/// without a row leaves no row, whatever an earlier run left. One that is not correlated runs once,
/// and a correlated one each time. The rest of the compiler has to add to the program only.
///
/// `m` is any state of the machine.
#[verifier::spinoff_prover]
#[verifier::rlimit(60)]
pub proof fn subquery_runs_on_a_reset_result<C: SelectCompiler>(
    c: C,
    before: ProgramView,
    resolver: ResolverView,
    plan: SelectPlan,
    query_type: SubqueryType,
    is_correlated: bool,
    after: ProgramView,
    result: Result<(), ErrorView>,
    m: Machine,
) -> (code: SubqueryCode)
    requires
        only_extends(c),
        result_fits(query_type),
        subquery_emitted(
            c,
            before,
            resolver,
            plan,
            query_type,
            is_correlated,
            after,
            result,
        ),
        result is Ok,
    ensures
        asks_for_subquery(c, resolver, plan, after, code),
        is_framed(before, query_type, is_correlated, after, code),
        resets_result(before, query_type, is_correlated, after, code, m),
        runs_as_often_as_it_should(before, is_correlated, after, code),
        code.asked.nested_level == before.nested_level + 1,
        after.nested_level == code.program.nested_level - 1,
{
    let (q, reply) = frame_steps(
        c,
        before,
        resolver,
        plan,
        query_type,
        is_correlated,
        after,
        result,
    );
    match reply {
        Ok(unit) => {
            assert(unit == ());
        },
        Err(_) => {},
    }
    let code = SubqueryCode {
        asked: frame_opened(before, query_type, is_correlated),
        program: q,
    };
    framing_code(before, query_type, is_correlated, after, code);
    framed_result_is_reset(before, query_type, is_correlated, after, code, m);
    code
}

// ---------------------------------------------------------------------------------------------
// Subqueries of the `FROM` clause.

/// The coroutine of a subquery: the compiler is asked for the plan with its rows yielded to the
/// query around it; its code stands between the definition of the coroutine, which leads behind all
/// of it, and the end; and what the compiler says of the result columns is what is returned.
pub open spec fn is_coroutine<C: SelectCompiler>(
    c: C,
    before: ProgramView,
    plan: SelectPlan,
    schema: Schema,
    after: ProgramView,
    plan_after: SelectPlan,
    result: Result<usize, ErrorView>,
    asked: ProgramView,
    given: PlanTree,
    program: ProgramView,
) -> bool {
    let tables = plan.table_references.joined_tables@.len();
    let b = before.insns.len() as int;
    let e = program.insns.len() as int;
    let yield_reg = before.next_free_register as usize;
    let label = before.next_label;
    let end = before.next_label + 2 + 3 * tables;
    &&& exists|labels: ProgramView|
        {
            &&& #[trigger] emits_query(
                c,
                asked,
                given,
                labels,
                schema,
                program,
                plan_after,
                Ok(result->Ok_0),
            )
            &&& labels.next_label == before.next_label + 2
        }
    &&& given == (PlanTree {
        shape: PlanShape {
            query_destination: QueryDestination::CoroutineYield {
                yield_reg,
                coroutine_implementation_start: to(label),
            },
            ..plan@.shape
        },
        ..plan@
    })
    &&& asked.insns.len() == b + 1
    &&& asked.next_free_register == before.next_free_register + 1
    &&& asked.next_label == end + 1
    &&& b + 1 <= e
    &&& has(
        after,
        b,
        Insn::InitCoroutine {
            yield_reg,
            jump_on_definition: to(end),
            start_offset: to(label),
        },
    )
    &&& leads_to(after, label, b + 1)
    &&& after.insns.take(e) == program.insns
    &&& has(after, e, Insn::EndCoroutine { yield_reg })
    &&& after.insns.len() == e + 1
    &&& ends_at(after, label + 1, e)
    &&& leads_to(after, end, e + 1)
}

/// The label with a number is that of the instruction at a position.
pub open spec fn ends_at(p: ProgramView, label: nat, position: int) -> bool {
    exists|i: int|
        0 <= i < p.labels.len() && #[trigger] p.labels[i] == (LabelAssignment {
            label: to(label),
            position: position as usize,
            target: JumpTarget::ExactlyThisInsn,
        })
}

/// A subquery of a `FROM` clause is a coroutine around the code that the compiler emits for it. The
/// rest of the compiler has to add to the program only.
pub proof fn from_clause_subquery_is_a_coroutine<C: SelectCompiler>(
    c: C,
    before: ProgramView,
    plan: SelectPlan,
    schema: Schema,
    after: ProgramView,
    plan_after: SelectPlan,
    result: Result<usize, ErrorView>,
) -> (code: (ProgramView, PlanTree, ProgramView))
    requires
        only_extends(c),
        coroutine_emitted(c, before, plan, schema, after, plan_after, result),
        result is Ok,
    ensures
        is_coroutine(
            c,
            before,
            plan,
            schema,
            after,
            plan_after,
            result,
            code.0,
            code.1,
            code.2,
        ),
{
    let tables = plan.table_references.joined_tables@.len();
    let k = coroutine_here(before, tables);
    let (q, reply) = coroutine_steps(c, before, plan, schema, after, plan_after, result);
    let asked = coroutine_opened(before, tables);
    let destination = QueryDestination::CoroutineYield {
        yield_reg: k.yield_reg,
        coroutine_implementation_start: k.start,
    };
    let given = SelectPlan { query_destination: destination, ..plan };
    directed_plan(plan, destination);
    assert(extends(asked, q));
    coroutine_code(before, tables, q, after);
    assert(emits_query(
        c,
        asked,
        given@,
        coroutine_labels(before),
        schema,
        q,
        plan_after,
        Ok(result->Ok_0),
    ));
    (asked, given@, q)
}

proof fn coroutine_code(before: ProgramView, tables: nat, q: ProgramView, after: ProgramView)
    requires
        extends(coroutine_opened(before, tables), q),
        after == coroutine_closed(q, coroutine_here(before, tables)),
        before.has_room(1, 3 + 3 * tables, 0),
    ensures
        ({
            let b = before.insns.len() as int;
            let e = q.insns.len() as int;
            let yield_reg = before.next_free_register as usize;
            let label = before.next_label;
            let end = before.next_label + 2 + 3 * tables;
            &&& b + 1 <= e
            &&& has(
                after,
                b,
                Insn::InitCoroutine {
                    yield_reg,
                    jump_on_definition: to(end),
                    start_offset: to(label),
                },
            )
            &&& leads_to(after, label, b + 1)
            &&& after.insns.take(e) == q.insns
            &&& has(after, e, Insn::EndCoroutine { yield_reg })
            &&& after.insns.len() == e + 1
            &&& ends_at(after, label + 1, e)
            &&& leads_to(after, end, e + 1)
        }),
{
    let asked = coroutine_opened(before, tables);
    let b = before.insns.len() as int;
    let e = q.insns.len() as int;
    assert(after.insns.take(e) =~= q.insns);
    assert(q.insns[b] == asked.insns[b]);
    let j = before.labels.len() as int;
    assert(q.labels[j] == asked.labels[j]);
    assert(after.labels[j] == q.labels[j]);
    tied_at(after, j, before.next_label, b + 1);
    assert(after.labels[after.labels.len() - 2] == (LabelAssignment {
        label: to(before.next_label + 1),
        position: e as usize,
        target: JumpTarget::ExactlyThisInsn,
    }));
    tied_at(after, after.labels.len() - 1, before.next_label + 2 + 3 * tables, e + 1);
}

} // verus!
