//! The list of planned subqueries only grows, and only by subqueries that wait to be evaluated.
use crate::ast::{Child, ExprTree};
use crate::compiler::SelectCompiler;
use crate::masks::is_planned;
use crate::plan::NonFromClauseSubquery;
use crate::program::ErrorView;
use crate::walk::{children_walked, visited, walk_steps, walked, walks_steps, Clause, PlanState};
use vstd::prelude::*;

verus! {

/// The old list is the beginning of the new one, and what was added waits to be evaluated.
pub open spec fn grown(
    before: Seq<NonFromClauseSubquery>,
    after: Seq<NonFromClauseSubquery>,
) -> bool {
    &&& before.len() <= after.len()
    &&& forall|i: int| 0 <= i < before.len() ==> #[trigger] after[i] == before[i]
    &&& forall|i: int| before.len() <= i < after.len() ==> is_planned(#[trigger] after[i])
}

/// Visiting a node adds at most one subquery to the list, and that one waits to be evaluated.
pub proof fn visit_grows<C: SelectCompiler>(
    c: C,
    clause: Clause,
    before: PlanState,
    t: ExprTree,
    after: PlanState,
    tree: ExprTree,
    result: Result<(), ErrorView>,
)
    requires
        visited(c, clause, before, t, after, tree, result),
    ensures
        grown(before.subqueries, after.subqueries),
        after.subqueries.len() <= before.subqueries.len() + 1,
        result is Err ==> after.subqueries == before.subqueries,
{
}

/// Walking an expression keeps the subqueries that were planned before and appends the new ones,
/// each waiting to be evaluated, whether the walk succeeds or fails.
pub proof fn walk_grows<C: SelectCompiler>(
    c: C,
    clause: Clause,
    before: PlanState,
    t: ExprTree,
    after: PlanState,
    tree: ExprTree,
    result: Result<(), ErrorView>,
)
    requires
        walked(c, clause, before, t, after, tree, result),
    ensures
        grown(before.subqueries, after.subqueries),
    decreases t,
{
    let (mid, seen, r) = walk_steps(c, clause, before, t, after, tree, result);
    visit_grows(c, clause, before, t, mid, seen, r);
    if r is Ok {
        walks_grow(c, clause, mid, t.children, after, tree.children, result);
    }
}

/// The same of several expressions that are walked one after the other.
pub proof fn walks_grow<C: SelectCompiler>(
    c: C,
    clause: Clause,
    before: PlanState,
    children: Seq<Child>,
    after: PlanState,
    walked_children: Seq<Child>,
    result: Result<(), ErrorView>,
)
    requires
        children_walked(c, clause, before, children, after, walked_children, result),
    ensures
        grown(before.subqueries, after.subqueries),
    decreases children,
{
    if children.len() > 0 {
        let (mid, r) = walks_steps(c, clause, before, children, after, walked_children, result);
        walks_grow(
            c,
            clause,
            before,
            children.drop_last(),
            mid,
            walked_children.drop_last(),
            r,
        );
        if r is Ok {
            walk_grows(
                c,
                clause,
                mid,
                children.last().tree,
                after,
                walked_children.last().tree,
                result,
            );
        }
    }
}

} // verus!
