//! What holds of planning as a whole.
use crate::ast::{Child, ExprKind, ExprTree, SubqueryType, TableInternalId};
use crate::clauses::{section_clause, sections_steps, sections_walked, QueryScope};
use crate::compiler::{prepares, ResolverView, SelectCompiler};
use crate::growth::{grown, visit_grows, walk_grows, walks_grow};
use crate::plan::{
    correlates, NonFromClauseSubquery, Plan, QueryDestination, SubqueryPosition, SubqueryState,
};
use crate::plan_copy::OuterQueryReferenceView;
use crate::planner::is_one;
use crate::program::{ErrorView, LimboError, ProgramView};
use crate::walk::{children_walked, visited, walk_steps, walked, walks_steps, Clause, PlanState};
use turso_parser::ast::Select;
use vstd::prelude::*;

verus! {

// ---------------------------------------------------------------------------------------------
// What is left in the expressions.

/// A node is a subquery that is not planned yet.
pub open spec fn is_subquery(kind: ExprKind) -> bool {
    kind is Exists || kind is Subquery || kind is InSelect
}

/// No subquery is left to plan in an expression.
pub open spec fn is_plain(t: ExprTree) -> bool
    decreases t,
{
    &&& !is_subquery(t.kind)
    &&& forall|i: int| 0 <= i < t.children.len() ==> is_plain((#[trigger] t.children[i]).tree)
}

/// No subquery is left to plan in several expressions.
pub open spec fn are_plain(children: Seq<Child>) -> bool {
    forall|i: int| 0 <= i < children.len() ==> is_plain((#[trigger] children[i]).tree)
}

/// A walk that succeeds leaves no subquery in the expression: each has become a result.
pub proof fn walk_leaves_no_subquery<C: SelectCompiler>(
    c: C,
    clause: Clause,
    before: PlanState,
    t: ExprTree,
    after: PlanState,
    tree: ExprTree,
)
    requires
        walked(c, clause, before, t, after, tree, Ok(())),
    ensures
        is_plain(tree),
    decreases t,
{
    let (mid, seen, r) = walk_steps(c, clause, before, t, after, tree, Ok(()));
    assert(!is_subquery(seen.kind));
    walks_leave_no_subquery(c, clause, mid, t.children, after, tree.children);
}

/// The same of several expressions that are walked one after the other.
pub proof fn walks_leave_no_subquery<C: SelectCompiler>(
    c: C,
    clause: Clause,
    before: PlanState,
    children: Seq<Child>,
    after: PlanState,
    walked_children: Seq<Child>,
)
    requires
        children_walked(c, clause, before, children, after, walked_children, Ok(())),
    ensures
        are_plain(walked_children),
    decreases children,
{
    if children.len() > 0 {
        let (mid, r) = walks_steps(c, clause, before, children, after, walked_children, Ok(()));
        walks_leave_no_subquery(
            c,
            clause,
            before,
            children.drop_last(),
            mid,
            walked_children.drop_last(),
        );
        walk_leaves_no_subquery(
            c,
            clause,
            mid,
            children.last().tree,
            after,
            walked_children.last().tree,
        );
        assert forall|i: int| 0 <= i < walked_children.len() implies is_plain(
            (#[trigger] walked_children[i]).tree,
        ) by {
            if i < walked_children.len() - 1 {
                assert(walked_children.drop_last()[i] == walked_children[i]);
            }
        }
    }
}

/// Walking an expression without subqueries succeeds and changes nothing.
pub proof fn plain_walk_changes_nothing<C: SelectCompiler>(
    c: C,
    clause: Clause,
    before: PlanState,
    t: ExprTree,
    after: PlanState,
    tree: ExprTree,
    result: Result<(), ErrorView>,
)
    requires
        walked(c, clause, before, t, after, tree, result),
        is_plain(t),
    ensures
        result == Ok::<(), ErrorView>(()),
        after == before,
        tree == t,
    decreases t,
{
    let (mid, seen, r) = walk_steps(c, clause, before, t, after, tree, result);
    assert(are_plain(t.children));
    plain_walks_change_nothing(c, clause, mid, t.children, after, tree.children, result);
}

/// The same of several expressions that are walked one after the other.
pub proof fn plain_walks_change_nothing<C: SelectCompiler>(
    c: C,
    clause: Clause,
    before: PlanState,
    children: Seq<Child>,
    after: PlanState,
    walked_children: Seq<Child>,
    result: Result<(), ErrorView>,
)
    requires
        children_walked(c, clause, before, children, after, walked_children, result),
        are_plain(children),
    ensures
        result == Ok::<(), ErrorView>(()),
        after == before,
        walked_children == children,
    decreases children,
{
    if children.len() > 0 {
        let (mid, r) = walks_steps(c, clause, before, children, after, walked_children, result);
        assert forall|i: int| 0 <= i < children.drop_last().len() implies is_plain(
            (#[trigger] children.drop_last()[i]).tree,
        ) by {
            assert(children.drop_last()[i] == children[i]);
        }
        plain_walks_change_nothing(
            c,
            clause,
            before,
            children.drop_last(),
            mid,
            walked_children.drop_last(),
            r,
        );
        assert(is_plain(children[children.len() - 1].tree));
        plain_walk_changes_nothing(
            c,
            clause,
            mid,
            children.last().tree,
            after,
            walked_children.last().tree,
            result,
        );
        assert(children =~= children.drop_last().push(children.last()));
        assert(walked_children =~= walked_children.drop_last().push(walked_children.last()));
    }
}

/// Walking an expression again, once its subqueries are planned, succeeds and changes nothing.
pub proof fn walking_again_changes_nothing<C: SelectCompiler>(
    c: C,
    clause: Clause,
    before: PlanState,
    t: ExprTree,
    mid: PlanState,
    seen: ExprTree,
    after: PlanState,
    tree: ExprTree,
    result: Result<(), ErrorView>,
)
    requires
        walked(c, clause, before, t, mid, seen, Ok(())),
        walked(c, clause, mid, seen, after, tree, result),
    ensures
        result == Ok::<(), ErrorView>(()),
        after == mid,
        tree == seen,
{
    walk_leaves_no_subquery(c, clause, before, t, mid, seen);
    plain_walk_changes_nothing(c, clause, mid, seen, after, tree, result);
}

// ---------------------------------------------------------------------------------------------
// What the planned subqueries are like.

/// An entry of the list of subqueries is as it should be: it waits with a plan, it is noted
/// whether that is correlated, a plan of which one row decides has a limit of one row, and the
/// rows go where the result is looked for.
pub open spec fn is_sound(e: NonFromClauseSubquery) -> bool {
    &&& e.state matches SubqueryState::Unevaluated { plan: Some(plan) } && {
        &&& e.correlated == correlates(*plan)
        &&& match e.query_type {
            SubqueryType::Exists { .. } => plan.limit matches Some(limit) && is_one((*limit)@),
            SubqueryType::RowValue { result_reg_start, num_regs } => {
                &&& plan.limit matches Some(limit) && is_one((*limit)@)
                &&& plan.query_destination == QueryDestination::RowValueSubqueryResult {
                    result_reg_start,
                    num_regs,
                }
                &&& plan.result_columns@.len() == num_regs
            },
            SubqueryType::In { cursor_id } => {
                &&& plan.query_destination matches QueryDestination::EphemeralIndex {
                    cursor_id: destination,
                    is_delete,
                    ..
                } && destination == cursor_id && !is_delete
            },
        }
    }
}

/// The subqueries that were added are as they should be, and none of them is correlated where
/// that is not supported.
pub open spec fn soundly_grown(
    position: SubqueryPosition,
    before: Seq<NonFromClauseSubquery>,
    after: Seq<NonFromClauseSubquery>,
) -> bool {
    &&& grown(before, after)
    &&& forall|i: int|
        before.len() <= i < after.len() ==> is_sound(#[trigger] after[i]) && (after[i].correlated
            ==> position.may_correlate())
}

proof fn visit_plans_soundly<C: SelectCompiler>(
    c: C,
    clause: Clause,
    before: PlanState,
    t: ExprTree,
    after: PlanState,
    tree: ExprTree,
    result: Result<(), ErrorView>,
)
    requires
        visited(c, clause, before, t, after, tree, result),
    ensures
        soundly_grown(clause.position, before.subqueries, after.subqueries),
{
}

/// Every subquery that a walk adds is as it should be, whether the walk succeeds or fails.
pub proof fn walk_plans_soundly<C: SelectCompiler>(
    c: C,
    clause: Clause,
    before: PlanState,
    t: ExprTree,
    after: PlanState,
    tree: ExprTree,
    result: Result<(), ErrorView>,
)
    requires
        walked(c, clause, before, t, after, tree, result),
    ensures
        soundly_grown(clause.position, before.subqueries, after.subqueries),
    decreases t,
{
    let (mid, seen, r) = walk_steps(c, clause, before, t, after, tree, result);
    visit_plans_soundly(c, clause, before, t, mid, seen, r);
    if r is Ok {
        walks_plan_soundly(c, clause, mid, t.children, after, tree.children, result);
    }
}

/// The same of several expressions that are walked one after the other.
pub proof fn walks_plan_soundly<C: SelectCompiler>(
    c: C,
    clause: Clause,
    before: PlanState,
    children: Seq<Child>,
    after: PlanState,
    walked_children: Seq<Child>,
    result: Result<(), ErrorView>,
)
    requires
        children_walked(c, clause, before, children, after, walked_children, result),
    ensures
        soundly_grown(clause.position, before.subqueries, after.subqueries),
    decreases children,
{
    if children.len() > 0 {
        let (mid, r) = walks_steps(c, clause, before, children, after, walked_children, result);
        walks_plan_soundly(
            c,
            clause,
            before,
            children.drop_last(),
            mid,
            walked_children.drop_last(),
            r,
        );
        if r is Ok {
            walk_plans_soundly(
                c,
                clause,
                mid,
                children.last().tree,
                after,
                walked_children.last().tree,
                result,
            );
        }
    }
}

// ---------------------------------------------------------------------------------------------
// Results and the subqueries they stand for.

/// There is a subquery with that number and that kind of result.
pub open spec fn has_entry(
    subqueries: Seq<NonFromClauseSubquery>,
    id: TableInternalId,
    query_type: SubqueryType,
) -> bool {
    exists|i: int|
        0 <= i < subqueries.len() && (#[trigger] subqueries[i]).internal_id == id
            && subqueries[i].query_type == query_type
}

/// Every result in an expression is that of a subquery of the list.
pub open spec fn is_answered(subqueries: Seq<NonFromClauseSubquery>, t: ExprTree) -> bool
    decreases t,
{
    &&& t.kind matches ExprKind::SubqueryResult { subquery_id, query_type, .. } ==> has_entry(
        subqueries,
        subquery_id,
        query_type,
    )
    &&& forall|i: int|
        0 <= i < t.children.len() ==> is_answered(subqueries, (#[trigger] t.children[i]).tree)
}

/// Every result in several expressions is that of a subquery of the list.
pub open spec fn are_answered(
    subqueries: Seq<NonFromClauseSubquery>,
    children: Seq<Child>,
) -> bool {
    forall|i: int|
        0 <= i < children.len() ==> is_answered(subqueries, (#[trigger] children[i]).tree)
}

proof fn entry_stays(
    before: Seq<NonFromClauseSubquery>,
    after: Seq<NonFromClauseSubquery>,
    id: TableInternalId,
    query_type: SubqueryType,
)
    requires
        grown(before, after),
        has_entry(before, id, query_type),
    ensures
        has_entry(after, id, query_type),
{
    let i = choose|i: int|
        0 <= i < before.len() && (#[trigger] before[i]).internal_id == id
            && before[i].query_type == query_type;
    assert(after[i] == before[i]);
}

proof fn answer_stays(
    before: Seq<NonFromClauseSubquery>,
    after: Seq<NonFromClauseSubquery>,
    t: ExprTree,
)
    requires
        grown(before, after),
        is_answered(before, t),
    ensures
        is_answered(after, t),
    decreases t,
{
    if let ExprKind::SubqueryResult { subquery_id, query_type, .. } = t.kind {
        entry_stays(before, after, subquery_id, query_type);
    }
    assert forall|i: int| 0 <= i < t.children.len() implies is_answered(
        after,
        (#[trigger] t.children[i]).tree,
    ) by {
        answer_stays(before, after, t.children[i].tree);
    }
}

proof fn answers_stay(
    before: Seq<NonFromClauseSubquery>,
    after: Seq<NonFromClauseSubquery>,
    children: Seq<Child>,
)
    requires
        grown(before, after),
        are_answered(before, children),
    ensures
        are_answered(after, children),
{
    assert forall|i: int| 0 <= i < children.len() implies is_answered(
        after,
        (#[trigger] children[i]).tree,
    ) by {
        answer_stays(before, after, children[i].tree);
    }
}

proof fn visit_answers<C: SelectCompiler>(
    c: C,
    clause: Clause,
    before: PlanState,
    t: ExprTree,
    after: PlanState,
    tree: ExprTree,
)
    requires
        visited(c, clause, before, t, after, tree, Ok(())),
        is_answered(before.subqueries, t),
    ensures
        tree.kind matches ExprKind::SubqueryResult { subquery_id, query_type, .. } ==> has_entry(
            after.subqueries,
            subquery_id,
            query_type,
        ),
        is_subquery(t.kind) ==> tree.kind is SubqueryResult,
{
    if is_subquery(t.kind) {
        let n = after.subqueries.len() - 1;
        assert(tree.kind is SubqueryResult);
        assert(after.subqueries[n].internal_id == tree.kind->subquery_id);
        assert(after.subqueries[n].query_type == tree.kind->query_type);
    }
}

/// After a walk that succeeds, every result in the expression is that of a planned subquery, with
/// the same number and in the same place, as long as that was so before.
pub proof fn walk_answers<C: SelectCompiler>(
    c: C,
    clause: Clause,
    before: PlanState,
    t: ExprTree,
    after: PlanState,
    tree: ExprTree,
)
    requires
        walked(c, clause, before, t, after, tree, Ok(())),
        is_answered(before.subqueries, t),
    ensures
        is_answered(after.subqueries, tree),
    decreases t,
{
    let (mid, seen, r) = walk_steps(c, clause, before, t, after, tree, Ok(()));
    visit_grows(c, clause, before, t, mid, seen, r);
    visit_answers(c, clause, before, t, mid, seen);
    answers_stay(before.subqueries, mid.subqueries, t.children);
    walks_answer(c, clause, mid, t.children, after, tree.children);
    walks_grow(c, clause, mid, t.children, after, tree.children, Ok(()));
    if let ExprKind::SubqueryResult { subquery_id, query_type, .. } = tree.kind {
        entry_stays(mid.subqueries, after.subqueries, subquery_id, query_type);
    }
}

/// The same of several expressions that are walked one after the other.
pub proof fn walks_answer<C: SelectCompiler>(
    c: C,
    clause: Clause,
    before: PlanState,
    children: Seq<Child>,
    after: PlanState,
    walked_children: Seq<Child>,
)
    requires
        children_walked(c, clause, before, children, after, walked_children, Ok(())),
        are_answered(before.subqueries, children),
    ensures
        are_answered(after.subqueries, walked_children),
    decreases children,
{
    if children.len() > 0 {
        let (mid, r) = walks_steps(c, clause, before, children, after, walked_children, Ok(()));
        let earlier = children.drop_last();
        let walked_earlier = walked_children.drop_last();
        assert forall|i: int| 0 <= i < earlier.len() implies is_answered(
            before.subqueries,
            (#[trigger] earlier[i]).tree,
        ) by {
            assert(earlier[i] == children[i]);
        }
        walks_answer(c, clause, before, earlier, mid, walked_earlier);
        walks_grow(c, clause, before, earlier, mid, walked_earlier, Ok(()));
        assert(is_answered(before.subqueries, children[children.len() - 1].tree));
        answer_stays(before.subqueries, mid.subqueries, children.last().tree);
        let last = walked_children.last().tree;
        walk_answers(c, clause, mid, children.last().tree, after, last);
        walk_grows(c, clause, mid, children.last().tree, after, last, Ok(()));
        assert forall|i: int| 0 <= i < walked_children.len() implies is_answered(
            after.subqueries,
            (#[trigger] walked_children[i]).tree,
        ) by {
            if i < walked_children.len() - 1 {
                assert(walked_earlier[i] == walked_children[i]);
                answer_stays(mid.subqueries, after.subqueries, walked_children[i].tree);
            }
        }
    }
}

// ---------------------------------------------------------------------------------------------
// Numbers of subqueries.

/// The compiler never takes table numbers back.
pub open spec fn never_takes_numbers_back<C: SelectCompiler>(c: C) -> bool {
    forall|
        before: ProgramView,
        select: Select,
        resolver: ResolverView,
        refs: Seq<OuterQueryReferenceView>,
        destination: QueryDestination,
        after: ProgramView,
        reply: Result<Plan, LimboError>,
    | #[trigger]
        prepares(c, before, select, resolver, refs, destination, after, reply)
            ==> before.next_table_id <= after.next_table_id
}

/// The subqueries that were added have numbers of their own, which were free before and are not
/// any more, in increasing order.
pub open spec fn freshly_numbered(before: PlanState, after: PlanState) -> bool {
    let n = before.subqueries.len();
    let added = after.subqueries;
    &&& grown(before.subqueries, added)
    &&& before.program.next_table_id <= after.program.next_table_id
    &&& forall|i: int|
        n <= i < added.len() ==> before.program.next_table_id <= (
        #[trigger] added[i]).internal_id.0 < after.program.next_table_id
    &&& forall|i: int, j: int|
        n <= i < j < added.len() ==> (#[trigger] added[i]).internal_id.0 < (
        #[trigger] added[j]).internal_id.0
}

proof fn visit_numbers_freshly<C: SelectCompiler>(
    c: C,
    clause: Clause,
    before: PlanState,
    t: ExprTree,
    after: PlanState,
    tree: ExprTree,
    result: Result<(), ErrorView>,
)
    requires
        visited(c, clause, before, t, after, tree, result),
        never_takes_numbers_back(c),
    ensures
        freshly_numbered(before, after),
{
}

/// If the compiler never takes table numbers back, no two subqueries that a walk adds have the
/// same number, and none has one that was in use before.
pub proof fn walk_numbers_freshly<C: SelectCompiler>(
    c: C,
    clause: Clause,
    before: PlanState,
    t: ExprTree,
    after: PlanState,
    tree: ExprTree,
    result: Result<(), ErrorView>,
)
    requires
        walked(c, clause, before, t, after, tree, result),
        never_takes_numbers_back(c),
    ensures
        freshly_numbered(before, after),
    decreases t,
{
    let (mid, seen, r) = walk_steps(c, clause, before, t, after, tree, result);
    visit_numbers_freshly(c, clause, before, t, mid, seen, r);
    if r is Ok {
        walks_number_freshly(c, clause, mid, t.children, after, tree.children, result);
    }
}

/// The same of several expressions that are walked one after the other.
pub proof fn walks_number_freshly<C: SelectCompiler>(
    c: C,
    clause: Clause,
    before: PlanState,
    children: Seq<Child>,
    after: PlanState,
    walked_children: Seq<Child>,
    result: Result<(), ErrorView>,
)
    requires
        children_walked(c, clause, before, children, after, walked_children, result),
        never_takes_numbers_back(c),
    ensures
        freshly_numbered(before, after),
    decreases children,
{
    if children.len() > 0 {
        let (mid, r) = walks_steps(c, clause, before, children, after, walked_children, result);
        walks_number_freshly(
            c,
            clause,
            before,
            children.drop_last(),
            mid,
            walked_children.drop_last(),
            r,
        );
        if r is Ok {
            walk_numbers_freshly(
                c,
                clause,
                mid,
                children.last().tree,
                after,
                walked_children.last().tree,
                result,
            );
        }
    }
}

// ---------------------------------------------------------------------------------------------
// Places of results.

/// The compiler never takes registers or cursors back.
pub open spec fn never_takes_places_back<C: SelectCompiler>(c: C) -> bool {
    forall|
        before: ProgramView,
        select: Select,
        resolver: ResolverView,
        refs: Seq<OuterQueryReferenceView>,
        destination: QueryDestination,
        after: ProgramView,
        reply: Result<Plan, LimboError>,
    | #[trigger]
        prepares(c, before, select, resolver, refs, destination, after, reply)
            ==> before.next_free_register <= after.next_free_register && before.cursors.len()
            <= after.cursors.len()
}

/// The first register of a result, and the one behind its last.
pub open spec fn result_registers(query_type: SubqueryType) -> Option<(int, int)> {
    match query_type {
        SubqueryType::Exists { result_reg } => Some((result_reg as int, result_reg + 1)),
        SubqueryType::RowValue { result_reg_start, num_regs } => Some(
            (result_reg_start as int, result_reg_start + num_regs),
        ),
        SubqueryType::In { .. } => None,
    }
}

/// A result lies in what was free before, and is not any more.
pub open spec fn lies_between(
    query_type: SubqueryType,
    before: ProgramView,
    after: ProgramView,
) -> bool {
    &&& result_registers(query_type) matches Some((start, end)) ==> before.next_free_register
        <= start <= end <= after.next_free_register
    &&& query_type matches SubqueryType::In { cursor_id } ==> before.cursors.len() <= cursor_id
        < after.cursors.len()
}

/// One result lies in front of another: their registers do not overlap, and their cursors differ.
pub open spec fn lies_before(first: SubqueryType, second: SubqueryType) -> bool {
    &&& match (result_registers(first), result_registers(second)) {
        (Some((_, end)), Some((start, _))) => end <= start,
        _ => true,
    }
    &&& (first is In && second is In) ==> first->cursor_id < second->cursor_id
}

/// The results of the subqueries that were added have places of their own, which were free before
/// and are not any more: no two share a register or a cursor.
pub open spec fn freshly_placed(before: PlanState, after: PlanState) -> bool {
    let n = before.subqueries.len();
    let added = after.subqueries;
    &&& grown(before.subqueries, added)
    &&& before.program.next_free_register <= after.program.next_free_register
    &&& before.program.cursors.len() <= after.program.cursors.len()
    &&& forall|i: int|
        n <= i < added.len() ==> lies_between(
            (#[trigger] added[i]).query_type,
            before.program,
            after.program,
        )
    &&& forall|i: int, j: int|
        n <= i < j < added.len() ==> lies_before(
            (#[trigger] added[i]).query_type,
            (#[trigger] added[j]).query_type,
        )
}

proof fn placed_on(first: PlanState, second: PlanState, third: PlanState)
    requires
        freshly_placed(first, second),
        freshly_placed(second, third),
    ensures
        freshly_placed(first, third),
{
    let n = first.subqueries.len();
    let m = second.subqueries.len();
    let added = third.subqueries;
    assert forall|i: int| n <= i < added.len() implies lies_between(
        (#[trigger] added[i]).query_type,
        first.program,
        third.program,
    ) by {
        if i < m {
            assert(second.subqueries[i] == added[i]);
        }
    }
    assert forall|i: int, j: int| n <= i < j < added.len() implies lies_before(
        (#[trigger] added[i]).query_type,
        (#[trigger] added[j]).query_type,
    ) by {
        if i < m {
            assert(second.subqueries[i] == added[i]);
            if j < m {
                assert(second.subqueries[j] == added[j]);
            } else {
                assert(lies_between(
                    second.subqueries[i].query_type,
                    first.program,
                    second.program,
                ));
                assert(lies_between(added[j].query_type, second.program, third.program));
            }
        }
    }
}

/// What a visit adds has a place of its own. The cursors have to be numbers that the machine has.
proof fn visit_places_freshly<C: SelectCompiler>(
    c: C,
    clause: Clause,
    before: PlanState,
    t: ExprTree,
    after: PlanState,
    tree: ExprTree,
    result: Result<(), ErrorView>,
)
    requires
        visited(c, clause, before, t, after, tree, result),
        never_takes_places_back(c),
        after.program.cursors.len() <= usize::MAX,
    ensures
        freshly_placed(before, after),
{
    visit_grows(c, clause, before, t, after, tree, result);
}

/// If the compiler never takes registers or cursors back, no two subqueries that a walk adds share
/// a register or a cursor, and none has one that was in use before. The cursors have to be numbers
/// that the machine has.
pub proof fn walk_places_freshly<C: SelectCompiler>(
    c: C,
    clause: Clause,
    before: PlanState,
    t: ExprTree,
    after: PlanState,
    tree: ExprTree,
    result: Result<(), ErrorView>,
)
    requires
        walked(c, clause, before, t, after, tree, result),
        never_takes_places_back(c),
        after.program.cursors.len() <= usize::MAX,
    ensures
        freshly_placed(before, after),
    decreases t,
{
    let (mid, seen, r) = walk_steps(c, clause, before, t, after, tree, result);
    if r is Ok {
        walks_place_freshly(c, clause, mid, t.children, after, tree.children, result);
    }
    visit_places_freshly(c, clause, before, t, mid, seen, r);
    if r is Ok {
        placed_on(before, mid, after);
    }
}

/// The same of several expressions that are walked one after the other.
pub proof fn walks_place_freshly<C: SelectCompiler>(
    c: C,
    clause: Clause,
    before: PlanState,
    children: Seq<Child>,
    after: PlanState,
    walked_children: Seq<Child>,
    result: Result<(), ErrorView>,
)
    requires
        children_walked(c, clause, before, children, after, walked_children, result),
        never_takes_places_back(c),
        after.program.cursors.len() <= usize::MAX,
    ensures
        freshly_placed(before, after),
    decreases children,
{
    if children.len() > 0 {
        let (mid, r) = walks_steps(c, clause, before, children, after, walked_children, result);
        if r is Ok {
            walk_places_freshly(
                c,
                clause,
                mid,
                children.last().tree,
                after,
                walked_children.last().tree,
                result,
            );
        }
        walks_place_freshly(
            c,
            clause,
            before,
            children.drop_last(),
            mid,
            walked_children.drop_last(),
            r,
        );
        if r is Ok {
            placed_on(before, mid, after);
        }
    }
}

// ---------------------------------------------------------------------------------------------
// Visiting one expression after the other.

/// Expressions are visited in turn, each with success: `states` are the states before, between and
/// after the visits.
pub open spec fn visited_in_turn<C: SelectCompiler>(
    c: C,
    clause: Clause,
    states: Seq<PlanState>,
    exprs: Seq<ExprTree>,
    seen: Seq<ExprTree>,
) -> bool {
    &&& states.len() == exprs.len() + 1
    &&& seen.len() == exprs.len()
    &&& forall|i: int|
        0 <= i < exprs.len() ==> #[trigger] visited(
            c,
            clause,
            states[i],
            exprs[i],
            states[i + 1],
            seen[i],
            Ok(()),
        )
}

/// The subqueries that visits in turn add match the expressions that were subqueries, one to one
/// and in the same order: the entry of an expression stands where the list ended before its visit,
/// with the number and the place of the result that the expression became. Every entry is as it
/// should be, and if the compiler takes nothing back, all of them have numbers, registers and
/// cursors of their own.
pub proof fn visits_in_turn_match<C: SelectCompiler>(
    c: C,
    clause: Clause,
    states: Seq<PlanState>,
    exprs: Seq<ExprTree>,
    seen: Seq<ExprTree>,
)
    requires
        visited_in_turn(c, clause, states, exprs, seen),
    ensures
        soundly_grown(clause.position, states.first().subqueries, states.last().subqueries),
        forall|i: int|
            #![trigger exprs[i]]
            0 <= i < exprs.len() ==> {
                let n = states[i].subqueries.len();
                if is_subquery(exprs[i].kind) {
                    &&& states[i + 1].subqueries.len() == n + 1
                    &&& n < states.last().subqueries.len()
                    &&& seen[i].kind matches ExprKind::SubqueryResult {
                        subquery_id,
                        query_type,
                        ..
                    } && states.last().subqueries[n as int].internal_id == subquery_id
                        && states.last().subqueries[n as int].query_type == query_type
                } else {
                    states[i + 1].subqueries.len() == n && seen[i] == exprs[i]
                }
            },
        never_takes_numbers_back(c) ==> freshly_numbered(states.first(), states.last()),
        never_takes_places_back(c) && states.last().program.cursors.len() <= usize::MAX
            ==> freshly_placed(states.first(), states.last()),
    decreases exprs.len(),
{
    if exprs.len() > 0 {
        let n = exprs.len() - 1;
        let earlier = states.drop_last();
        assert(visited(c, clause, states[n], exprs[n], states[n + 1], seen[n], Ok(())));
        assert forall|i: int| 0 <= i < exprs.drop_last().len() implies #[trigger] visited(
            c,
            clause,
            earlier[i],
            exprs.drop_last()[i],
            earlier[i + 1],
            seen.drop_last()[i],
            Ok(()),
        ) by {
            assert(visited(c, clause, states[i], exprs[i], states[i + 1], seen[i], Ok(())));
        }
        visits_in_turn_match(c, clause, earlier, exprs.drop_last(), seen.drop_last());
        visit_plans_soundly(c, clause, states[n], exprs[n], states[n + 1], seen[n], Ok(()));
        visit_grows(c, clause, states[n], exprs[n], states[n + 1], seen[n], Ok(()));
        if never_takes_numbers_back(c) {
            visit_numbers_freshly(c, clause, states[n], exprs[n], states[n + 1], seen[n], Ok(()));
        }
        if never_takes_places_back(c) && states.last().program.cursors.len() <= usize::MAX {
            visit_places_freshly(c, clause, states[n], exprs[n], states[n + 1], seen[n], Ok(()));
            placed_on(states.first(), states[n], states.last());
        }
        assert forall|i: int|
            #![trigger exprs[i]]
            0 <= i < exprs.len() implies {
            let m = states[i].subqueries.len();
            if is_subquery(exprs[i].kind) {
                &&& states[i + 1].subqueries.len() == m + 1
                &&& m < states.last().subqueries.len()
                &&& seen[i].kind matches ExprKind::SubqueryResult { subquery_id, query_type, .. }
                    && states.last().subqueries[m as int].internal_id == subquery_id
                    && states.last().subqueries[m as int].query_type == query_type
            } else {
                states[i + 1].subqueries.len() == m && seen[i] == exprs[i]
            }
        } by {
            if i < n {
                assert(exprs.drop_last()[i] == exprs[i]);
                assert(earlier[i] == states[i]);
                assert(earlier[i + 1] == states[i + 1]);
                assert(seen.drop_last()[i] == seen[i]);
            }
        }
    }
}

// ---------------------------------------------------------------------------------------------
// All clauses of a query.

/// Planning that succeeds leaves no subquery in any clause of the query.
pub proof fn planning_leaves_no_subquery<C: SelectCompiler>(
    c: C,
    scope: QueryScope,
    before: PlanState,
    first: Seq<Seq<Child>>,
    after: PlanState,
    last: Seq<Seq<Child>>,
)
    requires
        sections_walked(c, scope, before, first, after, last, Ok(())),
    ensures
        forall|i: int| 0 <= i < last.len() ==> are_plain(#[trigger] last[i]),
    decreases first.len(),
{
    if first.len() > 0 {
        let (mid, r) = sections_steps(c, scope, before, first, after, last, Ok(()));
        let clause = section_clause(scope, first.len() - 1);
        let earlier = first.drop_last();
        let walked_earlier = last.drop_last();
        planning_leaves_no_subquery(c, scope, before, earlier, mid, walked_earlier);
        walks_leave_no_subquery(c, clause, mid, first.last(), after, last.last());
        assert forall|i: int| 0 <= i < last.len() implies are_plain(#[trigger] last[i]) by {
            if i < last.len() - 1 {
                assert(walked_earlier[i] == last[i]);
            }
        }
    }
}

/// Planning a query without subqueries succeeds and changes nothing.
pub proof fn plain_planning_changes_nothing<C: SelectCompiler>(
    c: C,
    scope: QueryScope,
    before: PlanState,
    first: Seq<Seq<Child>>,
    after: PlanState,
    last: Seq<Seq<Child>>,
    result: Result<(), ErrorView>,
)
    requires
        sections_walked(c, scope, before, first, after, last, result),
        forall|i: int| 0 <= i < first.len() ==> are_plain(#[trigger] first[i]),
    ensures
        result == Ok::<(), ErrorView>(()),
        after == before,
        last == first,
    decreases first.len(),
{
    if first.len() > 0 {
        let (mid, r) = sections_steps(c, scope, before, first, after, last, result);
        let clause = section_clause(scope, first.len() - 1);
        let earlier = first.drop_last();
        let walked_earlier = last.drop_last();
        assert forall|i: int| 0 <= i < earlier.len() implies are_plain(#[trigger] earlier[i]) by {
            assert(earlier[i] == first[i]);
        }
        plain_planning_changes_nothing(c, scope, before, earlier, mid, walked_earlier, r);
        assert(are_plain(first[first.len() - 1]));
        plain_walks_change_nothing(c, clause, mid, first.last(), after, last.last(), result);
        assert(first =~= earlier.push(first.last()));
        assert(last =~= walked_earlier.push(last.last()));
    }
}

/// Every subquery that planning adds is as it should be, and the ones before are kept.
pub proof fn planning_is_sound<C: SelectCompiler>(
    c: C,
    scope: QueryScope,
    before: PlanState,
    first: Seq<Seq<Child>>,
    after: PlanState,
    last: Seq<Seq<Child>>,
    result: Result<(), ErrorView>,
)
    requires
        sections_walked(c, scope, before, first, after, last, result),
    ensures
        grown(before.subqueries, after.subqueries),
        forall|i: int|
            before.subqueries.len() <= i < after.subqueries.len() ==> is_sound(
                #[trigger] after.subqueries[i],
            ),
    decreases first.len(),
{
    if first.len() > 0 {
        let (mid, r) = sections_steps(c, scope, before, first, after, last, result);
        let clause = section_clause(scope, first.len() - 1);
        let earlier = first.drop_last();
        let walked_earlier = last.drop_last();
        planning_is_sound(c, scope, before, earlier, mid, walked_earlier, r);
        if r is Ok {
            walks_plan_soundly(c, clause, mid, first.last(), after, last.last(), result);
        }
    }
}

/// After planning that succeeds, every result in the query is that of a planned subquery, as long
/// as that was so before.
pub proof fn planning_answers<C: SelectCompiler>(
    c: C,
    scope: QueryScope,
    before: PlanState,
    first: Seq<Seq<Child>>,
    after: PlanState,
    last: Seq<Seq<Child>>,
)
    requires
        sections_walked(c, scope, before, first, after, last, Ok(())),
        forall|i: int|
            0 <= i < first.len() ==> are_answered(before.subqueries, #[trigger] first[i]),
    ensures
        forall|i: int|
            0 <= i < last.len() ==> are_answered(after.subqueries, #[trigger] last[i]),
    decreases first.len(),
{
    if first.len() > 0 {
        let (mid, r) = sections_steps(c, scope, before, first, after, last, Ok(()));
        let clause = section_clause(scope, first.len() - 1);
        let earlier = first.drop_last();
        let walked_earlier = last.drop_last();
        assert forall|i: int| 0 <= i < earlier.len() implies are_answered(
            before.subqueries,
            #[trigger] earlier[i],
        ) by {
            assert(earlier[i] == first[i]);
        }
        planning_answers(c, scope, before, earlier, mid, walked_earlier);
        planning_is_sound(c, scope, before, earlier, mid, walked_earlier, Ok(()));
        assert(are_answered(before.subqueries, first[first.len() - 1]));
        answers_stay(before.subqueries, mid.subqueries, first.last());
        walks_answer(c, clause, mid, first.last(), after, last.last());
        walks_grow(c, clause, mid, first.last(), after, last.last(), Ok(()));
        assert forall|i: int| 0 <= i < last.len() implies are_answered(
            after.subqueries,
            #[trigger] last[i],
        ) by {
            if i < last.len() - 1 {
                assert(walked_earlier[i] == last[i]);
                answers_stay(mid.subqueries, after.subqueries, last[i]);
            }
        }
    }
}

/// If the compiler never takes table numbers back, no two subqueries that planning adds have the
/// same number, and none has one that was in use before.
pub proof fn planning_numbers_freshly<C: SelectCompiler>(
    c: C,
    scope: QueryScope,
    before: PlanState,
    first: Seq<Seq<Child>>,
    after: PlanState,
    last: Seq<Seq<Child>>,
    result: Result<(), ErrorView>,
)
    requires
        sections_walked(c, scope, before, first, after, last, result),
        never_takes_numbers_back(c),
    ensures
        freshly_numbered(before, after),
    decreases first.len(),
{
    if first.len() > 0 {
        let (mid, r) = sections_steps(c, scope, before, first, after, last, result);
        let clause = section_clause(scope, first.len() - 1);
        let earlier = first.drop_last();
        let walked_earlier = last.drop_last();
        planning_numbers_freshly(c, scope, before, earlier, mid, walked_earlier, r);
        if r is Ok {
            walks_number_freshly(c, clause, mid, first.last(), after, last.last(), result);
        }
    }
}

/// If the compiler never takes registers or cursors back, no two subqueries that planning adds
/// share a register or a cursor, and none has one that was in use before. The cursors have to be
/// numbers that the machine has.
pub proof fn planning_places_freshly<C: SelectCompiler>(
    c: C,
    scope: QueryScope,
    before: PlanState,
    first: Seq<Seq<Child>>,
    after: PlanState,
    last: Seq<Seq<Child>>,
    result: Result<(), ErrorView>,
)
    requires
        sections_walked(c, scope, before, first, after, last, result),
        never_takes_places_back(c),
        after.program.cursors.len() <= usize::MAX,
    ensures
        freshly_placed(before, after),
    decreases first.len(),
{
    if first.len() > 0 {
        let (mid, r) = sections_steps(c, scope, before, first, after, last, result);
        let clause = section_clause(scope, first.len() - 1);
        if r is Ok {
            walks_place_freshly(c, clause, mid, first.last(), after, last.last(), result);
        }
        planning_places_freshly(c, scope, before, first.drop_last(), mid, last.drop_last(), r);
        if r is Ok {
            placed_on(before, mid, after);
        }
    }
}

/// No subquery of `LIMIT` or `OFFSET` refers to a table outside of it: none is offered to it, and
/// one that does is refused.
pub proof fn limit_does_not_correlate<C: SelectCompiler>(
    c: C,
    scope: QueryScope,
    section: int,
    before: PlanState,
    children: Seq<Child>,
    after: PlanState,
    walked_children: Seq<Child>,
    result: Result<(), ErrorView>,
)
    requires
        section >= 5,
        children_walked(
            c,
            section_clause(scope, section),
            before,
            children,
            after,
            walked_children,
            result,
        ),
    ensures
        section_clause(scope, section).refs.len() == 0,
        forall|i: int|
            before.subqueries.len() <= i < after.subqueries.len() ==> !(
            #[trigger] after.subqueries[i]).correlated,
{
    walks_plan_soundly(
        c,
        section_clause(scope, section),
        before,
        children,
        after,
        walked_children,
        result,
    );
}

/// Planning a query again, once its subqueries are planned, succeeds and changes nothing.
pub proof fn planning_again_changes_nothing<C: SelectCompiler>(
    c: C,
    scope: QueryScope,
    before: PlanState,
    first: Seq<Seq<Child>>,
    mid: PlanState,
    planned: Seq<Seq<Child>>,
    after: PlanState,
    last: Seq<Seq<Child>>,
    result: Result<(), ErrorView>,
)
    requires
        sections_walked(c, scope, before, first, mid, planned, Ok(())),
        sections_walked(c, scope, mid, planned, after, last, result),
    ensures
        result == Ok::<(), ErrorView>(()),
        after == mid,
        last == planned,
{
    planning_leaves_no_subquery(c, scope, before, first, mid, planned);
    plain_planning_changes_nothing(c, scope, mid, planned, after, last, result);
}

} // verus!
