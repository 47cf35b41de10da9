//! Emitting the subqueries that are not in a `FROM` clause.
use crate::ast::SubqueryType;
use crate::compiler::{emits_select, ResolverView, SelectCompiler, TranslateCtx};
use crate::plan::SelectPlan;
use crate::program::{
    capacity_error, out_of_capacity, outcome, BranchOffset, ErrorView, Insn, InsnView, LimboError,
    ProgramBuilder, ProgramView,
};
use vstd::prelude::*;

verus! {

/// Sets registers to `NULL`.
pub open spec fn nulls(first: usize, n: nat) -> Seq<InsnView> {
    Seq::new(
        n,
        |i: int| InsnView::Plain(Insn::Null { dest: (first + i) as usize, dest_end: None }),
    )
}

fn set_nulls(program: &mut ProgramBuilder, first: usize, n: usize)
    requires
        first + n <= usize::MAX,
    ensures
        final(program)@ == old(program)@.emit_all(nulls(first, n as nat)),
{
    let mut i: usize = 0;
    while i < n
        invariant
            i <= n,
            first + n <= usize::MAX,
            program@ == old(program)@.emit_all(nulls(first, i as nat)),
        decreases n - i,
    {
        program.emit_insn(Insn::Null { dest: first + i, dest_end: None });
        i += 1;
        assert(program@.insns =~= old(program)@.insns + nulls(first, i as nat));
    }
}

/// One level deeper.
pub open spec fn nested(p: ProgramView) -> ProgramView {
    ProgramView { nested_level: p.nested_level + 1, ..p }
}

/// One level less deep.
pub open spec fn unnested(p: ProgramView) -> ProgramView {
    ProgramView { nested_level: (p.nested_level - 1) as nat, ..p }
}

/// How many labels a subquery takes: one that is not correlated has a label behind it.
pub open spec fn labels_taken(is_correlated: bool) -> nat {
    if is_correlated {
        0
    } else {
        1
    }
}

/// How many registers a subquery takes: one that is a subroutine has a register for the return.
pub open spec fn subroutine_registers(query_type: SubqueryType) -> nat {
    if query_type is In {
        0
    } else {
        1
    }
}

/// What stands around a subquery.
#[derive(Clone, Copy, Debug, PartialEq, Eq, Structural)]
pub struct Frame {
    /// The label behind a subquery that runs only once.
    pub skip: Option<BranchOffset>,
    /// The register for the return of a subroutine.
    pub subroutine: Option<usize>,
}

/// What stands around a subquery whose code begins here.
pub open spec fn frame_here(
    p: ProgramView,
    query_type: SubqueryType,
    is_correlated: bool,
) -> Frame {
    Frame {
        skip: if is_correlated {
            None
        } else {
            Some(p.label(0))
        },
        subroutine: if query_type is In {
            None
        } else {
            Some(p.register(0))
        },
    }
}

/// A subquery that is not correlated runs only once.
pub open spec fn once(p: ProgramView, is_correlated: bool) -> ProgramView {
    if is_correlated {
        p
    } else {
        p.with_labels(1).op(Insn::Once { target_pc_when_reentered: p.label(0) })
    }
}

/// A subroutine begins.
pub open spec fn subroutine_begun(p: ProgramView) -> ProgramView {
    p.with_registers(1).op(Insn::BeginSubrtn { dest: p.register(0), dest_end: None })
}

/// The place of the result is made ready: no row was found yet.
pub open spec fn frame_opened(
    p: ProgramView,
    query_type: SubqueryType,
    is_correlated: bool,
) -> ProgramView {
    let q = once(nested(p), is_correlated);
    match query_type {
        SubqueryType::Exists { result_reg } => subroutine_begun(q).op(
            Insn::Integer { value: 0, dest: result_reg },
        ),
        SubqueryType::RowValue { result_reg_start, num_regs } => subroutine_begun(q).emit_all(
            nulls(result_reg_start, num_regs as nat),
        ),
        SubqueryType::In { cursor_id } => q.op(
            Insn::OpenEphemeral { cursor_id, is_table: false },
        ),
    }
}

/// The registers of a row value are there.
pub open spec fn result_fits(query_type: SubqueryType) -> bool {
    query_type matches SubqueryType::RowValue { result_reg_start, num_regs }
        ==> result_reg_start + num_regs <= usize::MAX
}

/// Begins a subquery.
pub fn open_frame(
    program: &mut ProgramBuilder,
    query_type: &SubqueryType,
    is_correlated: bool,
) -> (f: Frame)
    requires
        old(program)@.has_room(subroutine_registers(*query_type), labels_taken(is_correlated), 0),
        old(program)@.nested_level < usize::MAX,
        result_fits(*query_type),
    ensures
        f == frame_here(old(program)@, *query_type, is_correlated),
        final(program)@ == frame_opened(old(program)@, *query_type, is_correlated),
{
    program.incr_nesting();
    let skip = if is_correlated {
        None
    } else {
        let label = program.allocate_label();
        program.emit_insn(Insn::Once { target_pc_when_reentered: label });
        Some(label)
    };
    let subroutine = match query_type {
        SubqueryType::Exists { result_reg } => {
            let dest = program.alloc_register();
            program.emit_insn(Insn::BeginSubrtn { dest, dest_end: None });
            program.emit_insn(Insn::Integer { value: 0, dest: *result_reg });
            Some(dest)
        },
        SubqueryType::RowValue { result_reg_start, num_regs } => {
            let dest = program.alloc_register();
            program.emit_insn(Insn::BeginSubrtn { dest, dest_end: None });
            set_nulls(program, *result_reg_start, *num_regs);
            Some(dest)
        },
        SubqueryType::In { cursor_id } => {
            program.emit_insn(Insn::OpenEphemeral { cursor_id: *cursor_id, is_table: false });
            None
        },
    };
    Frame { skip, subroutine }
}

/// A subquery ends.
pub open spec fn frame_closed(p: ProgramView, f: Frame) -> ProgramView {
    let returned = match f.subroutine {
        Some(return_reg) => p.op(Insn::Return { return_reg, can_fallthrough: true }),
        None => p,
    };
    unnested(
        match f.skip {
            Some(label) => returned.assign_next(label),
            None => returned,
        },
    )
}

/// The error when a subquery ends outside all levels.
pub open spec fn unbalanced_nesting() -> ErrorView {
    ErrorView::InternalError("subquery nesting is unbalanced"@)
}

/// The code of the subquery is there, or not, and it ends.
pub open spec fn frame_answered(
    before: ProgramView,
    reply: Result<(), LimboError>,
    f: Frame,
    after: ProgramView,
    result: Result<(), ErrorView>,
) -> bool {
    if reply is Err {
        after == before && result == outcome(reply)
    } else if before.nested_level == 0 {
        after == before && result == Err::<(), ErrorView>(unbalanced_nesting())
    } else {
        after == frame_closed(before, f) && result == Ok::<(), ErrorView>(())
    }
}

/// Ends a subquery, unless it failed.
pub fn finish_subquery(program: &mut ProgramBuilder, reply: Result<(), LimboError>, f: Frame) -> (r:
    Result<(), LimboError>)
    ensures
        frame_answered(old(program)@, reply, f, final(program)@, outcome(r)),
{
    match reply {
        Err(e) => {
            return Err(e);
        },
        Ok(_) => {},
    }
    if program.nested_level == 0 {
        return Err(LimboError::InternalError("subquery nesting is unbalanced".to_owned()));
    }
    if let Some(return_reg) = f.subroutine {
        program.emit_insn(Insn::Return { return_reg, can_fallthrough: true });
    }
    if let Some(label) = f.skip {
        program.preassign_label_to_next_insn(label);
    }
    program.decr_nesting();
    Ok(())
}

/// There is room for what stands around a subquery.
pub open spec fn frame_fits(
    p: ProgramView,
    query_type: SubqueryType,
    is_correlated: bool,
) -> bool {
    &&& p.has_room(subroutine_registers(query_type), labels_taken(is_correlated), 0)
    &&& p.nested_level < usize::MAX
}

/// A subquery that is not in a `FROM` clause is emitted.
pub open spec fn subquery_emitted<C: SelectCompiler>(
    c: C,
    before: ProgramView,
    resolver: ResolverView,
    plan: SelectPlan,
    query_type: SubqueryType,
    is_correlated: bool,
    after: ProgramView,
    result: Result<(), ErrorView>,
) -> bool {
    if !frame_fits(before, query_type, is_correlated) {
        after == before && result == Err::<(), ErrorView>(out_of_capacity())
    } else {
        exists|q: ProgramView, reply: Result<(), LimboError>|
            {
                &&& #[trigger] emits_select(
                    c,
                    frame_opened(before, query_type, is_correlated),
                    resolver,
                    plan,
                    q,
                    reply,
                )
                &&& frame_answered(
                    q,
                    reply,
                    frame_here(before, query_type, is_correlated),
                    after,
                    result,
                )
            }
    }
}

/// What the compiler answers when it is asked for the code of a subquery: the program then, and its
/// reply.
pub proof fn frame_steps<C: SelectCompiler>(
    c: C,
    before: ProgramView,
    resolver: ResolverView,
    plan: SelectPlan,
    query_type: SubqueryType,
    is_correlated: bool,
    after: ProgramView,
    result: Result<(), ErrorView>,
) -> (steps: (ProgramView, Result<(), LimboError>))
    requires
        subquery_emitted(
            c,
            before,
            resolver,
            plan,
            query_type,
            is_correlated,
            after,
            result,
        ),
        frame_fits(before, query_type, is_correlated),
    ensures
        emits_select(
            c,
            frame_opened(before, query_type, is_correlated),
            resolver,
            plan,
            steps.0,
            steps.1,
        ),
        frame_answered(
            steps.0,
            steps.1,
            frame_here(before, query_type, is_correlated),
            after,
            result,
        ),
{
    let steps: (ProgramView, Result<(), LimboError>) = choose|
        q: ProgramView,
        reply: Result<(), LimboError>,
    |
        {
            &&& #[trigger] emits_select(
                c,
                frame_opened(before, query_type, is_correlated),
                resolver,
                plan,
                q,
                reply,
            )
            &&& frame_answered(
                q,
                reply,
                frame_here(before, query_type, is_correlated),
                after,
                result,
            )
        };
    steps
}

/// Emits a subquery that is not in a `FROM` clause. One that is correlated runs for each row of
/// the query around it, any other only once.
///
/// The result is found in one register for `EXISTS`, in a range of registers for a row value,
/// and in an index for `IN`.
pub fn emit_non_from_clause_subquery<C: SelectCompiler>(
    program: &mut ProgramBuilder,
    t_ctx: &TranslateCtx,
    plan: SelectPlan,
    query_type: &SubqueryType,
    is_correlated: bool,
    compiler: &C,
) -> (r: Result<(), LimboError>)
    requires
        result_fits(*query_type),
    ensures
        subquery_emitted(
            *compiler,
            old(program)@,
            t_ctx.resolver@,
            plan,
            *query_type,
            is_correlated,
            final(program)@,
            outcome(r),
        ),
{
    let labels: usize = if is_correlated {
        0
    } else {
        1
    };
    let registers: usize = match query_type {
        SubqueryType::In { .. } => 0,
        _ => 1,
    };
    if !program.has_room(registers, labels, 0) || program.nested_level == usize::MAX {
        return Err(capacity_error());
    }
    let f = open_frame(program, query_type, is_correlated);
    let ghost opened = program@;
    let (after, reply) = compiler.emit_program_for_select(program.take(), &t_ctx.resolver, plan);
    *program = after;
    assert(emits_select(*compiler, opened, t_ctx.resolver@, plan, program@, reply));
    finish_subquery(program, reply, f)
}

} // verus!
