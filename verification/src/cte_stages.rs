//! The stages of emitting a recursive common table expression.
use crate::ast::TableInternalId;
use crate::compiler::{emits_query, ResolverView, SelectCompiler};
use crate::cte_code::{
    anchor_closed, anchor_destination, anchor_here, anchor_opened, cte_layout, cte_loop,
    ephemeral_table, loop_entered, loop_finished, loop_label_count, other_columns, tables_opened,
    Anchor, CteLayout, OtherTable,
};
use crate::extension_laws::{
    conditions_extend, entering_extends, exprs_extend, extends, extends_on, finishing_extends,
    lookup_extends, only_extends,
};
use crate::plan::{OneSelect, RecursiveCte, SelectPlan};
use crate::plan_copy::directed;
use crate::program::{ErrorView, ProgramView};
use crate::recursive_cte::{
    anchor_fits, bound_columns, bound_conditions, conditions_translated, cte_emitted, cte_steps,
    exprs_translated, first_other, from_tables, has_star, loop_fits, loops_steps, member_conditions,
    member_resolver, member_tables, tables_looked_up,
};
use vstd::prelude::*;

verus! {

/// The program at the points between the code of the library and that of the compiler.
pub struct CteStages {
    /// Once the compiler has emitted the anchor, whose rows begin at `result_reg`.
    pub anchor: ProgramView,
    pub result_reg: usize,
    pub plan_after: SelectPlan,
    /// Once the tables are looked up.
    pub found: ProgramView,
    pub others: Seq<OtherTable>,
    /// Once the compiler has emitted the conditions.
    pub tested: ProgramView,
    /// Once the compiler has emitted the columns of the new row.
    pub computed: ProgramView,
}

/// The cursors and registers of an expression.
pub open spec fn layout_of(before: ProgramView, cte: RecursiveCte, output: usize) -> CteLayout {
    cte_layout(before, cte.columns@.len() as usize, output)
}

/// The program once the temporary tables are opened.
pub open spec fn opened_for(before: ProgramView, cte: RecursiveCte, output: usize) -> ProgramView {
    tables_opened(
        before,
        layout_of(before, cte, output),
        ephemeral_table(cte.name@, cte.columns@),
    )
}

/// The plan of the anchor, for an expression that has one.
pub open spec fn anchor_plan_of(cte: RecursiveCte) -> SelectPlan {
    *cte.anchor_plan->0
}

/// What a successful emission consists of.
#[verifier::opaque]
pub open spec fn stages_hold<C: SelectCompiler>(
    c: C,
    before: ProgramView,
    cte: RecursiveCte,
    output: usize,
    internal_id: TableInternalId,
    resolver: ResolverView,
    after: ProgramView,
    s: CteStages,
) -> bool {
    let l = layout_of(before, cte, output);
    let opened = opened_for(before, cte, output);
    let a = anchor_here(opened);
    let closed = anchor_closed(s.anchor, l, a, s.result_reg);
    let other = first_other(s.others);
    let k = cte_loop(s.found, other);
    let entered = loop_entered(s.found, l, other);
    let local = member_resolver(resolver, internal_id, l, k, other);
    &&& before.has_room(2 * cte.columns@.len() + 2, 0, 0)
    &&& cte.anchor_plan is Some
    &&& opened.has_room(
        1,
        3 + 3 * anchor_plan_of(cte).table_references.joined_tables@.len(),
        0,
    )
    &&& emits_query(
        c,
        anchor_opened(opened).with_labels(
            3 * anchor_plan_of(cte).table_references.joined_tables@.len(),
        ),
        directed(anchor_plan_of(cte)@, anchor_destination(a)),
        anchor_opened(opened),
        resolver.schema,
        s.anchor,
        s.plan_after,
        Ok(s.result_reg),
    )
    &&& s.result_reg + cte.columns@.len() <= usize::MAX
    &&& *cte.recursive_member matches OneSelect::Select { columns, from, where_clause, .. } && {
        let tables = from_tables(from);
        let found = tables_looked_up(resolver.schema, cte.name@, closed, tables);
        &&& found.error is None
        &&& s.found == found.program
        &&& s.others == found.others
        &&& s.others.len() <= 1
        &&& !has_star(columns@)
        &&& loop_fits(s.found, l, other, columns@.len())
        &&& conditions_translated(
            c,
            entered,
            member_tables(cte, internal_id, s.others),
            bound_conditions(
                cte,
                internal_id,
                s.others,
                tables,
                member_conditions(from, where_clause),
            ),
            k.innermost_next(),
            local,
            s.tested,
            Ok(()),
        )
        &&& exprs_translated(
            c,
            s.tested,
            bound_columns(cte, internal_id, s.others, tables, columns@),
            l.result,
            local,
            s.computed,
            Ok(()),
        )
    }
    &&& s.computed.has_room(0, 2, 0)
    &&& after == loop_finished(s.computed, l, k)
}

/// Each stage goes on from the one before it.
#[verifier::opaque]
pub open spec fn stages_extend(
    before: ProgramView,
    cte: RecursiveCte,
    output: usize,
    after: ProgramView,
    s: CteStages,
) -> bool {
    let l = layout_of(before, cte, output);
    let opened = opened_for(before, cte, output);
    let a = anchor_here(opened);
    let closed = anchor_closed(s.anchor, l, a, s.result_reg);
    let entered = loop_entered(s.found, l, first_other(s.others));
    &&& extends(before, anchor_opened(opened))
    &&& extends(anchor_opened(opened), s.anchor)
    &&& extends(s.anchor, closed)
    &&& extends(closed, s.found)
    &&& extends(s.found, entered)
    &&& extends(entered, s.tested)
    &&& extends(s.tested, s.computed)
    &&& extends(s.computed, after)
    &&& extends(anchor_opened(opened), after)
    &&& extends(s.anchor, after)
    &&& extends(closed, after)
    &&& extends(s.found, after)
    &&& extends(entered, after)
}

proof fn unit_result(r: Result<(), ErrorView>)
    requires
        r is Ok,
    ensures
        r == Ok::<(), ErrorView>(()),
{
    match r {
        Ok(unit) => {
            assert(unit == ());
        },
        Err(_) => {},
    }
}

/// The stages of an emission that succeeded.
pub proof fn cte_stages<C: SelectCompiler>(
    c: C,
    before: ProgramView,
    cte: RecursiveCte,
    output: usize,
    internal_id: TableInternalId,
    resolver: ResolverView,
    after: ProgramView,
    result: Result<(), ErrorView>,
) -> (s: CteStages)
    requires
        cte_emitted(c, before, cte, output, internal_id, resolver, after, result),
        result is Ok,
    ensures
        stages_hold(c, before, cte, output, internal_id, resolver, after, s),
{
    reveal(stages_hold);
    assert(anchor_fits(before, cte, output));
    let l = layout_of(before, cte, output);
    let opened = opened_for(before, cte, output);
    let a = anchor_here(opened);
    let (q, plan_after, reply) = cte_steps(
        c,
        before,
        cte,
        output,
        internal_id,
        resolver,
        after,
        result,
    );
    let result_reg = reply->Ok_0;
    let closed = anchor_closed(q, l, a, result_reg);
    let (columns, from, where_clause) = match *cte.recursive_member {
        OneSelect::Select { columns, from, where_clause, .. } => (columns, from, where_clause),
        OneSelect::Values => arbitrary(),
    };
    let tables = from_tables(from);
    let found = tables_looked_up(resolver.schema, cte.name@, closed, tables);
    let other = first_other(found.others);
    let k = cte_loop(found.program, other);
    let local = member_resolver(resolver, internal_id, l, k, other);
    let exprs = bound_columns(cte, internal_id, found.others, tables, columns@);
    let conditions = bound_conditions(
        cte,
        internal_id,
        found.others,
        tables,
        member_conditions(from, where_clause),
    );
    let (tested, test, computed, r) = loops_steps(
        c,
        found.program,
        l,
        internal_id,
        member_tables(cte, internal_id, found.others),
        other,
        exprs,
        conditions,
        resolver,
        after,
        result,
    );
    unit_result(test);
    unit_result(r);
    let s = CteStages {
        anchor: q,
        result_reg,
        plan_after,
        found: found.program,
        others: found.others,
        tested,
        computed,
    };
    s
}

proof fn anchor_extends(p: ProgramView, l: CteLayout, a: Anchor, result_reg: usize)
    ensures
        extends(p, anchor_closed(p, l, a, result_reg)),
{
}

proof fn opening_extends(before: ProgramView, cte: RecursiveCte, output: usize)
    ensures
        extends(before, anchor_opened(opened_for(before, cte, output))),
{
}

/// Each stage goes on from the one before it, if the rest of the compiler only adds to a program.
pub proof fn stages_go_on<C: SelectCompiler>(
    c: C,
    before: ProgramView,
    cte: RecursiveCte,
    output: usize,
    internal_id: TableInternalId,
    resolver: ResolverView,
    after: ProgramView,
    s: CteStages,
)
    requires
        only_extends(c),
        stages_hold(c, before, cte, output, internal_id, resolver, after, s),
    ensures
        stages_extend(before, cte, output, after, s),
{
    reveal(stages_hold);
    reveal(stages_extend);
    let l = layout_of(before, cte, output);
    let opened = opened_for(before, cte, output);
    let a = anchor_here(opened);
    let closed = anchor_closed(s.anchor, l, a, s.result_reg);
    let other = first_other(s.others);
    let k = cte_loop(s.found, other);
    let entered = loop_entered(s.found, l, other);
    let local = member_resolver(resolver, internal_id, l, k, other);
    let begun = anchor_opened(opened);
    let given = begun.with_labels(
        3 * anchor_plan_of(cte).table_references.joined_tables@.len(),
    );
    opening_extends(before, cte, output);
    assert(extends(begun, given));
    assert(extends(given, s.anchor));
    extends_on(begun, given, s.anchor);
    anchor_extends(s.anchor, l, a, s.result_reg);
    if let OneSelect::Select { columns, from, where_clause, .. } = *cte.recursive_member {
        let tables = from_tables(from);
        let exprs = bound_columns(cte, internal_id, s.others, tables, columns@);
        let conditions = bound_conditions(
            cte,
            internal_id,
            s.others,
            tables,
            member_conditions(from, where_clause),
        );
        lookup_extends(resolver.schema, cte.name@, closed, tables);
        entering_extends(s.found, l, other);
        conditions_extend(
            c,
            entered,
            member_tables(cte, internal_id, s.others),
            conditions,
            k.innermost_next(),
            local,
            s.tested,
            Ok(()),
        );
        exprs_extend(c, s.tested, exprs, l.result, local, s.computed, Ok(()));
        finishing_extends(s.computed, l, k);
    }
    extends_on(s.tested, s.computed, after);
    extends_on(entered, s.tested, after);
    extends_on(s.found, entered, after);
    extends_on(closed, s.found, after);
    extends_on(s.anchor, closed, after);
    extends_on(begun, s.anchor, after);
}

/// The stage of the anchor.
pub proof fn anchor_stage<C: SelectCompiler>(
    c: C,
    before: ProgramView,
    cte: RecursiveCte,
    output: usize,
    internal_id: TableInternalId,
    resolver: ResolverView,
    after: ProgramView,
    s: CteStages,
)
    requires
        stages_hold(c, before, cte, output, internal_id, resolver, after, s),
    ensures
        before.has_room(2 * cte.columns@.len() + 2, 0, 0),
        cte.anchor_plan is Some,
        opened_for(before, cte, output).has_room(1, 3, 0),
        emits_query(
            c,
            anchor_opened(opened_for(before, cte, output)).with_labels(
                3 * anchor_plan_of(cte).table_references.joined_tables@.len(),
            ),
            directed(
                anchor_plan_of(cte)@,
                anchor_destination(anchor_here(opened_for(before, cte, output))),
            ),
            anchor_opened(opened_for(before, cte, output)),
            resolver.schema,
            s.anchor,
            s.plan_after,
            Ok(s.result_reg),
        ),
        s.result_reg + cte.columns@.len() <= usize::MAX,
{
    reveal(stages_hold);
}

/// The finished program goes on from each stage.
pub proof fn stages_are_kept(
    before: ProgramView,
    cte: RecursiveCte,
    output: usize,
    after: ProgramView,
    s: CteStages,
)
    requires
        stages_extend(before, cte, output, after, s),
    ensures
        ({
            let l = layout_of(before, cte, output);
            let opened = opened_for(before, cte, output);
            let closed = anchor_closed(s.anchor, l, anchor_here(opened), s.result_reg);
            &&& extends(anchor_opened(opened), s.anchor)
            &&& extends(anchor_opened(opened), after)
            &&& extends(s.anchor, after)
            &&& extends(closed, after)
            &&& extends(loop_entered(s.found, l, first_other(s.others)), after)
        }),
{
    reveal(stages_extend);
}

/// The stages of the recursive member.
pub proof fn member_stage<C: SelectCompiler>(
    c: C,
    before: ProgramView,
    cte: RecursiveCte,
    output: usize,
    internal_id: TableInternalId,
    resolver: ResolverView,
    after: ProgramView,
    s: CteStages,
)
    requires
        stages_hold(c, before, cte, output, internal_id, resolver, after, s),
    ensures
        before.has_room(2 * cte.columns@.len() + 2, 0, 0),
        s.others.len() <= 1,
        s.found.has_room(
            2 + other_columns(first_other(s.others)),
            loop_label_count(first_other(s.others)),
            0,
        ),
        s.computed.has_room(0, 2, 0),
        after == loop_finished(
            s.computed,
            layout_of(before, cte, output),
            cte_loop(s.found, first_other(s.others)),
        ),
{
    reveal(stages_hold);
}

} // verus!
