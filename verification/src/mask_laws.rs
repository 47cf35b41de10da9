//! What holds of marking the columns that subqueries use.
use crate::ast::TableInternalId;
use crate::masks::{is_first_joined, is_first_outer, marked, plan_refs, precedes, refers, used_by};
use crate::plan::{
    JoinedTable, NonFromClauseSubquery, OuterQueryReference, SubqueryState, TableReferences,
};
use vstd::prelude::*;

verus! {

/// A subquery refers to a column of a table, through one of the references in its plan.
pub open spec fn uses(
    subquery: NonFromClauseSubquery,
    id: TableInternalId,
    column: nat,
) -> bool {
    exists|b: int|
        0 <= b < plan_refs(subquery).len() && (#[trigger] plan_refs(subquery)[b]).internal_id
            == id && plan_refs(subquery)[b].col_used_mask@.contains(column)
}

proof fn use_is_counted(
    subqueries: Seq<NonFromClauseSubquery>,
    a: int,
    id: TableInternalId,
    column: nat,
)
    requires
        0 <= a < subqueries.len(),
        uses(subqueries[a], id, column),
    ensures
        used_by(subqueries, id).contains(column),
{
    let b = choose|b: int|
        0 <= b < plan_refs(subqueries[a]).len() && (#[trigger] plan_refs(
            subqueries[a],
        )[b]).internal_id == id && plan_refs(subqueries[a])[b].col_used_mask@.contains(column);
    assert(precedes(subqueries, a, b, subqueries.len() as int, 0));
    assert(refers(subqueries, a, b, id, column));
}

/// A column that a subquery uses is marked in the table of the query, and in the reference to
/// the table if it belongs to a query further out.
pub proof fn used_columns_are_marked(
    before: TableReferences,
    after: TableReferences,
    subqueries: Seq<NonFromClauseSubquery>,
    a: int,
    id: TableInternalId,
    column: nat,
)
    requires
        marked(before, after, subqueries),
        0 <= a < subqueries.len(),
        uses(subqueries[a], id, column),
    ensures
        forall|i: int|
            0 <= i < before.joined_tables@.len() && before.joined_tables@[i].internal_id == id
                && is_first_joined(before.joined_tables@, i)
                ==> (#[trigger] after.joined_tables@[i]).col_used_mask@.contains(column),
        forall|i: int|
            0 <= i < before.outer_query_refs@.len() && before.outer_query_refs@[i].internal_id
                == id && is_first_outer(before.outer_query_refs@, i)
                ==> (#[trigger] after.outer_query_refs@[i]).col_used_mask@.contains(column),
{
    use_is_counted(subqueries, a, id, column);
}

/// Marking never takes a mark away, and changes nothing but marks.
pub proof fn marks_only_grow(
    before: TableReferences,
    after: TableReferences,
    subqueries: Seq<NonFromClauseSubquery>,
)
    requires
        marked(before, after, subqueries),
    ensures
        after.joined_tables@.len() == before.joined_tables@.len(),
        after.outer_query_refs@.len() == before.outer_query_refs@.len(),
        forall|i: int|
            0 <= i < before.joined_tables@.len() ==> {
                &&& before.joined_tables@[i].col_used_mask@.subset_of(
                    (#[trigger] after.joined_tables@[i]).col_used_mask@,
                )
                &&& after.joined_tables@[i] == JoinedTable {
                    col_used_mask: after.joined_tables@[i].col_used_mask,
                    ..before.joined_tables@[i]
                }
            },
        forall|i: int|
            0 <= i < before.outer_query_refs@.len() ==> {
                &&& before.outer_query_refs@[i].col_used_mask@.subset_of(
                    (#[trigger] after.outer_query_refs@[i]).col_used_mask@,
                )
                &&& after.outer_query_refs@[i] == OuterQueryReference {
                    col_used_mask: after.outer_query_refs@[i].col_used_mask,
                    ..before.outer_query_refs@[i]
                }
            },
{
}

/// A column that the subqueries use is used by one of them.
proof fn counted_use_is_there(
    subqueries: Seq<NonFromClauseSubquery>,
    id: TableInternalId,
    column: nat,
)
    requires
        used_by(subqueries, id).contains(column),
    ensures
        exists|a: int| 0 <= a < subqueries.len() && uses(#[trigger] subqueries[a], id, column),
{
    let (a, b): (int, int) = choose|a: int, b: int|
        precedes(subqueries, a, b, subqueries.len() as int, 0) && #[trigger] refers(
            subqueries,
            a,
            b,
            id,
            column,
        );
    assert(plan_refs(subqueries[a])[b].internal_id == id);
    assert(uses(subqueries[a], id, column));
}

/// Nothing is marked but what was marked before or what a subquery uses, neither in the tables of
/// the query nor in the references to those further out.
pub proof fn only_used_columns_are_marked(
    before: TableReferences,
    after: TableReferences,
    subqueries: Seq<NonFromClauseSubquery>,
    column: nat,
)
    requires
        marked(before, after, subqueries),
    ensures
        forall|i: int|
            0 <= i < before.joined_tables@.len() && (
            #[trigger] after.joined_tables@[i]).col_used_mask@.contains(column)
                ==> before.joined_tables@[i].col_used_mask@.contains(column) || exists|a: int|
                0 <= a < subqueries.len() && uses(
                    #[trigger] subqueries[a],
                    before.joined_tables@[i].internal_id,
                    column,
                ),
        forall|i: int|
            0 <= i < before.outer_query_refs@.len() && (
            #[trigger] after.outer_query_refs@[i]).col_used_mask@.contains(column)
                ==> before.outer_query_refs@[i].col_used_mask@.contains(column) || exists|a: int|
                0 <= a < subqueries.len() && uses(
                    #[trigger] subqueries[a],
                    before.outer_query_refs@[i].internal_id,
                    column,
                ),
{
    assert forall|i: int|
        0 <= i < before.joined_tables@.len() && (
        #[trigger] after.joined_tables@[i]).col_used_mask@.contains(
            column,
        ) implies before.joined_tables@[i].col_used_mask@.contains(column) || exists|a: int|
        0 <= a < subqueries.len() && uses(
            #[trigger] subqueries[a],
            before.joined_tables@[i].internal_id,
            column,
        ) by {
        if !before.joined_tables@[i].col_used_mask@.contains(column) {
            counted_use_is_there(subqueries, before.joined_tables@[i].internal_id, column);
        }
    }
    assert forall|i: int|
        0 <= i < before.outer_query_refs@.len() && (
        #[trigger] after.outer_query_refs@[i]).col_used_mask@.contains(
            column,
        ) implies before.outer_query_refs@[i].col_used_mask@.contains(column) || exists|a: int|
        0 <= a < subqueries.len() && uses(
            #[trigger] subqueries[a],
            before.outer_query_refs@[i].internal_id,
            column,
        ) by {
        if !before.outer_query_refs@[i].col_used_mask@.contains(column) {
            counted_use_is_there(subqueries, before.outer_query_refs@[i].internal_id, column);
        }
    }
}

/// The plan of a subquery holds, at position `b`, a reference to a column of the table `id`.
pub open spec fn holds_reference(
    subquery: NonFromClauseSubquery,
    b: int,
    id: TableInternalId,
    column: nat,
) -> bool {
    match subquery.state {
        SubqueryState::Unevaluated { plan: Some(plan) } => {
            let refs = plan.table_references.outer_query_refs@;
            0 <= b < refs.len() && refs[b].internal_id == id && refs[b].col_used_mask@.contains(
                column,
            )
        },
        _ => false,
    }
}

/// The plan of one of the subqueries holds a reference to a column of the table `id`.
pub open spec fn one_refers_to(
    subqueries: Seq<NonFromClauseSubquery>,
    id: TableInternalId,
    column: nat,
) -> bool {
    exists|a: int, b: int|
        0 <= a < subqueries.len() && #[trigger] holds_reference(subqueries[a], b, id, column)
}

proof fn counted_uses(subqueries: Seq<NonFromClauseSubquery>, id: TableInternalId, column: nat)
    ensures
        used_by(subqueries, id).contains(column) <==> one_refers_to(subqueries, id, column),
{
    if used_by(subqueries, id).contains(column) {
        let (a, b): (int, int) = choose|a: int, b: int|
            precedes(subqueries, a, b, subqueries.len() as int, 0) && #[trigger] refers(
                subqueries,
                a,
                b,
                id,
                column,
            );
        assert(holds_reference(subqueries[a], b, id, column));
    }
    if one_refers_to(subqueries, id, column) {
        let (a, b): (int, int) = choose|a: int, b: int|
            0 <= a < subqueries.len() && #[trigger] holds_reference(subqueries[a], b, id, column);
        assert(precedes(subqueries, a, b, subqueries.len() as int, 0));
        assert(refers(subqueries, a, b, id, column));
    }
}

/// A column is marked in a table of the query exactly if it was marked before, or if the plan of a
/// subquery holds a reference to it and the table is the first with its number. The same goes for
/// the references to tables further out.
pub proof fn marks_are_those_of_the_plans(
    before: TableReferences,
    after: TableReferences,
    subqueries: Seq<NonFromClauseSubquery>,
    column: nat,
)
    requires
        marked(before, after, subqueries),
    ensures
        after.joined_tables@.len() == before.joined_tables@.len(),
        after.outer_query_refs@.len() == before.outer_query_refs@.len(),
        forall|i: int|
            0 <= i < before.joined_tables@.len() ==> {
                let t = before.joined_tables@[i];
                let first = forall|k: int|
                    0 <= k < i ==> (#[trigger] before.joined_tables@[k]).internal_id
                        != t.internal_id;
                (#[trigger] after.joined_tables@[i]).col_used_mask@.contains(column) <==> {
                    ||| t.col_used_mask@.contains(column)
                    ||| first && one_refers_to(subqueries, t.internal_id, column)
                }
            },
        forall|i: int|
            0 <= i < before.outer_query_refs@.len() ==> {
                let t = before.outer_query_refs@[i];
                let first = forall|k: int|
                    0 <= k < i ==> (#[trigger] before.outer_query_refs@[k]).internal_id
                        != t.internal_id;
                (#[trigger] after.outer_query_refs@[i]).col_used_mask@.contains(column) <==> {
                    ||| t.col_used_mask@.contains(column)
                    ||| first && one_refers_to(subqueries, t.internal_id, column)
                }
            },
{
    assert forall|id: TableInternalId|
        #![trigger used_by(subqueries, id)]
        used_by(subqueries, id).contains(column) <==> one_refers_to(subqueries, id, column) by {
        counted_uses(subqueries, id, column);
    }
    assert forall|i: int| 0 <= i < before.joined_tables@.len() implies ({
        let t = before.joined_tables@[i];
        let first = forall|k: int|
            0 <= k < i ==> (#[trigger] before.joined_tables@[k]).internal_id != t.internal_id;
        (#[trigger] after.joined_tables@[i]).col_used_mask@.contains(column) <==> {
            ||| t.col_used_mask@.contains(column)
            ||| first && one_refers_to(subqueries, t.internal_id, column)
        }
    }) by {
        counted_uses(subqueries, before.joined_tables@[i].internal_id, column);
        assert(is_first_joined(before.joined_tables@, i) || !is_first_joined(
            before.joined_tables@,
            i,
        ));
    }
    assert forall|i: int| 0 <= i < before.outer_query_refs@.len() implies ({
        let t = before.outer_query_refs@[i];
        let first = forall|k: int|
            0 <= k < i ==> (#[trigger] before.outer_query_refs@[k]).internal_id != t.internal_id;
        (#[trigger] after.outer_query_refs@[i]).col_used_mask@.contains(column) <==> {
            ||| t.col_used_mask@.contains(column)
            ||| first && one_refers_to(subqueries, t.internal_id, column)
        }
    }) by {
        counted_uses(subqueries, before.outer_query_refs@[i].internal_id, column);
        assert(is_first_outer(before.outer_query_refs@, i) || !is_first_outer(
            before.outer_query_refs@,
            i,
        ));
    }
}

/// Marking twice is the same as marking once.
pub proof fn marking_again_changes_nothing(
    before: TableReferences,
    once: TableReferences,
    twice: TableReferences,
    subqueries: Seq<NonFromClauseSubquery>,
)
    requires
        marked(before, once, subqueries),
        marked(once, twice, subqueries),
    ensures
        forall|i: int|
            0 <= i < once.joined_tables@.len() ==> (
            #[trigger] twice.joined_tables@[i]).col_used_mask@
                == once.joined_tables@[i].col_used_mask@,
        forall|i: int|
            0 <= i < once.outer_query_refs@.len() ==> (
            #[trigger] twice.outer_query_refs@[i]).col_used_mask@
                == once.outer_query_refs@[i].col_used_mask@,
{
    assert forall|i: int| 0 <= i < once.joined_tables@.len() implies (
    #[trigger] twice.joined_tables@[i]).col_used_mask@
        == once.joined_tables@[i].col_used_mask@ by {
        assert(once.joined_tables@[i].internal_id == before.joined_tables@[i].internal_id);
        assert(is_first_joined(once.joined_tables@, i) ==> is_first_joined(
            before.joined_tables@,
            i,
        )) by {
            assert forall|k: int| 0 <= k < i implies (
            #[trigger] once.joined_tables@[k]).internal_id
                == before.joined_tables@[k].internal_id by {}
            if is_first_joined(once.joined_tables@, i) {
                assert forall|k: int| 0 <= k < i implies (
                #[trigger] before.joined_tables@[k]).internal_id
                    != before.joined_tables@[i].internal_id by {
                    assert(once.joined_tables@[k].internal_id
                        != once.joined_tables@[i].internal_id);
                }
            }
        }
        assert(twice.joined_tables@[i].col_used_mask@
            =~= once.joined_tables@[i].col_used_mask@);
    }
    assert forall|i: int| 0 <= i < once.outer_query_refs@.len() implies (
    #[trigger] twice.outer_query_refs@[i]).col_used_mask@
        == once.outer_query_refs@[i].col_used_mask@ by {
        assert(once.outer_query_refs@[i].internal_id == before.outer_query_refs@[i].internal_id);
        assert(is_first_outer(once.outer_query_refs@, i) ==> is_first_outer(
            before.outer_query_refs@,
            i,
        )) by {
            if is_first_outer(once.outer_query_refs@, i) {
                assert forall|k: int| 0 <= k < i implies (
                #[trigger] before.outer_query_refs@[k]).internal_id
                    != before.outer_query_refs@[i].internal_id by {
                    assert(once.outer_query_refs@[k].internal_id
                        != once.outer_query_refs@[i].internal_id);
                }
            }
        }
        assert(twice.outer_query_refs@[i].col_used_mask@
            =~= once.outer_query_refs@[i].col_used_mask@);
    }
}

/// A reference reaches the table it means through the query in between: if the innermost of
/// three queries uses a column of a table of the outermost, the outermost learns of it. The
/// middle query is marked first, and then stands with its marks in the list of the outermost.
pub proof fn reference_reaches_the_outermost_query(
    middle_before: TableReferences,
    middle: TableReferences,
    innermost: Seq<NonFromClauseSubquery>,
    outermost_before: TableReferences,
    outermost: TableReferences,
    subqueries: Seq<NonFromClauseSubquery>,
    a: int,
    m: int,
    r: int,
    t: int,
    column: nat,
)
    requires
        marked(middle_before, middle, innermost),
        0 <= a < innermost.len(),
        uses(innermost[a], outermost_before.joined_tables@[t].internal_id, column),
        0 <= r < middle_before.outer_query_refs@.len(),
        middle_before.outer_query_refs@[r].internal_id
            == outermost_before.joined_tables@[t].internal_id,
        is_first_outer(middle_before.outer_query_refs@, r),
        0 <= m < subqueries.len(),
        plan_refs(subqueries[m]) == middle.outer_query_refs@,
        marked(outermost_before, outermost, subqueries),
        0 <= t < outermost_before.joined_tables@.len(),
        is_first_joined(outermost_before.joined_tables@, t),
    ensures
        outermost.joined_tables@[t].col_used_mask@.contains(column),
{
    let id = outermost_before.joined_tables@[t].internal_id;
    used_columns_are_marked(middle_before, middle, innermost, a, id, column);
    assert(middle.outer_query_refs@[r].col_used_mask@.contains(column));
    assert(plan_refs(subqueries[m])[r].internal_id == id);
    assert(uses(subqueries[m], id, column));
    used_columns_are_marked(outermost_before, outermost, subqueries, m, id, column);
    assert(outermost.joined_tables@[t].col_used_mask@.contains(column));
}

} // verus!
