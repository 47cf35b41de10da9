//! Telling the tables of a query which of their columns its subqueries use.
//!
//! Whether an expression can be evaluated early, or an index covers a query, is decided by the
//! columns that are referred to. Subqueries nest to any depth, so a reference in an inner query
//! has to reach the table it means through every query in between.
use crate::ast::TableInternalId;
use crate::plan::{
    JoinedTable, NonFromClauseSubquery, OuterQueryReference, SubqueryState, TableReferences,
};
use vstd::prelude::*;

verus! {

/// A subquery has a plan and is not evaluated yet.
pub open spec fn is_planned(subquery: NonFromClauseSubquery) -> bool {
    subquery.state matches SubqueryState::Unevaluated { plan: Some(_) }
}

/// Every subquery has a plan and is not evaluated yet.
pub open spec fn all_planned(subqueries: Seq<NonFromClauseSubquery>) -> bool {
    forall|i: int| 0 <= i < subqueries.len() ==> is_planned(#[trigger] subqueries[i])
}

/// The outer tables that the plan of a subquery refers to.
pub open spec fn plan_refs(subquery: NonFromClauseSubquery) -> Seq<OuterQueryReference> {
    match subquery.state {
        SubqueryState::Unevaluated { plan: Some(plan) } => {
            plan.table_references.outer_query_refs@
        },
        _ => seq![],
    }
}

/// The reference at position `b` of the subquery at position `a` is to a column of the table.
pub open spec fn refers(
    subqueries: Seq<NonFromClauseSubquery>,
    a: int,
    b: int,
    id: TableInternalId,
    column: nat,
) -> bool {
    let r = plan_refs(subqueries[a])[b];
    r.internal_id == id && r.col_used_mask@.contains(column)
}

/// The reference `(a, b)` exists and comes before `(s, r)`.
pub open spec fn precedes(
    subqueries: Seq<NonFromClauseSubquery>,
    a: int,
    b: int,
    s: int,
    r: int,
) -> bool {
    &&& 0 <= a < subqueries.len()
    &&& 0 <= b < plan_refs(subqueries[a]).len()
    &&& a < s || (a == s && b < r)
}

/// The columns of a table that the references before `(s, r)` use.
pub open spec fn used_before(
    subqueries: Seq<NonFromClauseSubquery>,
    s: int,
    r: int,
    id: TableInternalId,
) -> Set<nat> {
    Set::new(
        |column: nat|
            exists|a: int, b: int|
                precedes(subqueries, a, b, s, r) && #[trigger] refers(
                    subqueries,
                    a,
                    b,
                    id,
                    column,
                ),
    )
}

/// The columns of a table that the subqueries use.
pub open spec fn used_by(subqueries: Seq<NonFromClauseSubquery>, id: TableInternalId) -> Set<nat> {
    used_before(subqueries, subqueries.len() as int, 0, id)
}

/// The table at position `i` is the first with its number.
pub open spec fn is_first_joined(tables: Seq<JoinedTable>, i: int) -> bool {
    forall|k: int| 0 <= k < i ==> (#[trigger] tables[k]).internal_id != tables[i].internal_id
}

/// The outer table at position `i` is the first with its number.
pub open spec fn is_first_outer(refs: Seq<OuterQueryReference>, i: int) -> bool {
    forall|k: int| 0 <= k < i ==> (#[trigger] refs[k]).internal_id != refs[i].internal_id
}

/// The tables with the columns added that the references before `(s, r)` use, and nothing else
/// changed.
pub open spec fn joined_marked(
    before: Seq<JoinedTable>,
    after: Seq<JoinedTable>,
    subqueries: Seq<NonFromClauseSubquery>,
    s: int,
    r: int,
) -> bool {
    &&& after.len() == before.len()
    &&& forall|i: int|
        0 <= i < before.len() ==> {
            &&& #[trigger] after[i] == JoinedTable {
                col_used_mask: after[i].col_used_mask,
                ..before[i]
            }
            &&& after[i].col_used_mask@ == if is_first_joined(before, i) {
                before[i].col_used_mask@.union(
                    used_before(subqueries, s, r, before[i].internal_id),
                )
            } else {
                before[i].col_used_mask@
            }
        }
}

/// The outer tables with the columns added that the references before `(s, r)` use, and nothing
/// else changed.
pub open spec fn outer_marked(
    before: Seq<OuterQueryReference>,
    after: Seq<OuterQueryReference>,
    subqueries: Seq<NonFromClauseSubquery>,
    s: int,
    r: int,
) -> bool {
    &&& after.len() == before.len()
    &&& forall|i: int|
        0 <= i < before.len() ==> {
            &&& #[trigger] after[i] == OuterQueryReference {
                col_used_mask: after[i].col_used_mask,
                ..before[i]
            }
            &&& after[i].col_used_mask@ == if is_first_outer(before, i) {
                before[i].col_used_mask@.union(
                    used_before(subqueries, s, r, before[i].internal_id),
                )
            } else {
                before[i].col_used_mask@
            }
        }
}

/// Every table has the columns added that the subqueries use of it, and nothing else is changed.
pub open spec fn marked(
    before: TableReferences,
    after: TableReferences,
    subqueries: Seq<NonFromClauseSubquery>,
) -> bool {
    let n = subqueries.len() as int;
    &&& joined_marked(before.joined_tables@, after.joined_tables@, subqueries, n, 0)
    &&& outer_marked(before.outer_query_refs@, after.outer_query_refs@, subqueries, n, 0)
}

/// The first table with a number.
fn find_joined(tables: &Vec<JoinedTable>, id: TableInternalId) -> (r: Option<usize>)
    ensures
        match r {
            Some(i) => i < tables@.len() && tables@[i as int].internal_id == id && is_first_joined(
                tables@,
                i as int,
            ),
            None => forall|k: int|
                0 <= k < tables@.len() ==> (#[trigger] tables@[k]).internal_id != id,
        },
{
    let mut i: usize = 0;
    while i < tables.len()
        invariant
            i <= tables@.len(),
            forall|k: int| 0 <= k < i ==> (#[trigger] tables@[k]).internal_id != id,
        decreases tables@.len() - i,
    {
        if tables[i].internal_id == id {
            return Some(i);
        }
        i += 1;
    }
    None
}

/// The first outer table with a number.
fn find_outer(refs: &Vec<OuterQueryReference>, id: TableInternalId) -> (r: Option<usize>)
    ensures
        match r {
            Some(i) => i < refs@.len() && refs@[i as int].internal_id == id && is_first_outer(
                refs@,
                i as int,
            ),
            None => forall|k: int| 0 <= k < refs@.len() ==> (#[trigger] refs@[k]).internal_id != id,
        },
{
    let mut i: usize = 0;
    while i < refs.len()
        invariant
            i <= refs@.len(),
            forall|k: int| 0 <= k < i ==> (#[trigger] refs@[k]).internal_id != id,
        decreases refs@.len() - i,
    {
        if refs[i].internal_id == id {
            return Some(i);
        }
        i += 1;
    }
    None
}

/// One more reference adds its columns to its own table.
proof fn used_step(
    subqueries: Seq<NonFromClauseSubquery>,
    s: int,
    r: int,
    id: TableInternalId,
)
    requires
        0 <= s < subqueries.len(),
        0 <= r < plan_refs(subqueries[s]).len(),
    ensures
        used_before(subqueries, s, r + 1, id) == (if plan_refs(subqueries[s])[r].internal_id == id {
            used_before(subqueries, s, r, id).union(plan_refs(subqueries[s])[r].col_used_mask@)
        } else {
            used_before(subqueries, s, r, id)
        }),
{
    let next = plan_refs(subqueries[s])[r];
    assert forall|column: nat|
        #[trigger] used_before(subqueries, s, r + 1, id).contains(column) == (used_before(
            subqueries,
            s,
            r,
            id,
        ).contains(column) || (next.internal_id == id && next.col_used_mask@.contains(column))) by {
        if next.internal_id == id && next.col_used_mask@.contains(column) {
            assert(precedes(subqueries, s, r, s, r + 1));
            assert(refers(subqueries, s, r, id, column));
        }
        if used_before(subqueries, s, r, id).contains(column) {
            let (a, b) = choose|a: int, b: int|
                precedes(subqueries, a, b, s, r) && #[trigger] refers(
                    subqueries,
                    a,
                    b,
                    id,
                    column,
                );
            assert(precedes(subqueries, a, b, s, r + 1));
        }
        if used_before(subqueries, s, r + 1, id).contains(column) {
            let (a, b) = choose|a: int, b: int|
                precedes(subqueries, a, b, s, r + 1) && #[trigger] refers(
                    subqueries,
                    a,
                    b,
                    id,
                    column,
                );
            if !(a == s && b == r) {
                assert(precedes(subqueries, a, b, s, r));
            }
        }
    }
    assert(used_before(subqueries, s, r + 1, id) =~= (if next.internal_id == id {
        used_before(subqueries, s, r, id).union(next.col_used_mask@)
    } else {
        used_before(subqueries, s, r, id)
    }));
}

/// The end of one subquery is the start of the next.
proof fn used_next(subqueries: Seq<NonFromClauseSubquery>, s: int, id: TableInternalId)
    requires
        0 <= s < subqueries.len(),
    ensures
        used_before(subqueries, s, plan_refs(subqueries[s]).len() as int, id) == used_before(
            subqueries,
            s + 1,
            0,
            id,
        ),
{
    let n = plan_refs(subqueries[s]).len() as int;
    assert forall|a: int, b: int|
        precedes(subqueries, a, b, s, n) == precedes(subqueries, a, b, s + 1, 0) by {}
    assert(used_before(subqueries, s, n, id) =~= used_before(subqueries, s + 1, 0, id));
}

/// Adds the columns of one reference to the tables it means.
fn mark_reference(
    table_refs: &mut TableReferences,
    reference: &OuterQueryReference,
    Ghost(before): Ghost<TableReferences>,
    Ghost(subqueries): Ghost<Seq<NonFromClauseSubquery>>,
    Ghost(s): Ghost<int>,
    Ghost(r): Ghost<int>,
)
    requires
        0 <= s < subqueries.len(),
        0 <= r < plan_refs(subqueries[s]).len(),
        *reference == plan_refs(subqueries[s])[r],
        joined_marked(before.joined_tables@, old(table_refs).joined_tables@, subqueries, s, r),
        outer_marked(before.outer_query_refs@, old(table_refs).outer_query_refs@, subqueries, s, r),
    ensures
        joined_marked(before.joined_tables@, final(table_refs).joined_tables@, subqueries, s, r + 1),
        outer_marked(
            before.outer_query_refs@,
            final(table_refs).outer_query_refs@,
            subqueries,
            s,
            r + 1,
        ),
{
    proof {
        assert forall|id: TableInternalId|
            #[trigger] used_before(subqueries, s, r + 1, id) == (if reference.internal_id == id {
                used_before(subqueries, s, r, id).union(reference.col_used_mask@)
            } else {
                used_before(subqueries, s, r, id)
            }) by {
            used_step(subqueries, s, r, id);
        }
    }
    let ghost joined = table_refs.joined_tables@;
    let ghost outer = table_refs.outer_query_refs@;
    let ghost id = reference.internal_id;
    let ghost first = before.joined_tables@;
    let ghost first_outer = before.outer_query_refs@;
    assert forall|k: int| 0 <= k < first.len() implies (#[trigger] first[k]).internal_id
        == joined[k].internal_id by {
        assert(joined[k].internal_id == first[k].internal_id);
    }
    assert forall|k: int| 0 <= k < first_outer.len() implies (
    #[trigger] first_outer[k]).internal_id == outer[k].internal_id by {
        assert(outer[k].internal_id == first_outer[k].internal_id);
    }
    if !reference.is_used() {
        assert(forall|set: Set<nat>| #[trigger] set.union(reference.col_used_mask@) =~= set);
        return;
    }
    if let Some(i) = find_joined(&table_refs.joined_tables, reference.internal_id) {
        table_refs.joined_tables[i].col_used_mask.union_with(&reference.col_used_mask);
        assert(joined[i as int] == JoinedTable {
            col_used_mask: joined[i as int].col_used_mask,
            ..first[i as int]
        });
        assert(table_refs.joined_tables@[i as int].col_used_mask@
            =~= first[i as int].col_used_mask@.union(used_before(subqueries, s, r + 1, id)));
    }
    if let Some(i) = find_outer(&table_refs.outer_query_refs, reference.internal_id) {
        table_refs.outer_query_refs[i].col_used_mask.union_with(&reference.col_used_mask);
        assert(outer[i as int] == OuterQueryReference {
            col_used_mask: outer[i as int].col_used_mask,
            ..first_outer[i as int]
        });
        assert(table_refs.outer_query_refs@[i as int].col_used_mask@
            =~= first_outer[i as int].col_used_mask@.union(used_before(subqueries, s, r + 1, id)));
    }
    assert forall|k: int| 0 <= k < first.len() implies {
        let table = #[trigger] table_refs.joined_tables@[k];
        &&& table == JoinedTable { col_used_mask: table.col_used_mask, ..first[k] }
        &&& table.col_used_mask@ == if is_first_joined(first, k) {
            first[k].col_used_mask@.union(used_before(subqueries, s, r + 1, first[k].internal_id))
        } else {
            first[k].col_used_mask@
        }
    } by {
        assert(joined[k].internal_id == first[k].internal_id);
        if first[k].internal_id == id && is_first_joined(first, k) {
            assert(is_first_joined(joined, k));
        }
    }
    assert forall|k: int| 0 <= k < first_outer.len() implies {
        let table = #[trigger] table_refs.outer_query_refs@[k];
        &&& table == OuterQueryReference { col_used_mask: table.col_used_mask, ..first_outer[k] }
        &&& table.col_used_mask@ == if is_first_outer(first_outer, k) {
            first_outer[k].col_used_mask@.union(
                used_before(subqueries, s, r + 1, first_outer[k].internal_id),
            )
        } else {
            first_outer[k].col_used_mask@
        }
    } by {
        assert(outer[k].internal_id == first_outer[k].internal_id);
        if first_outer[k].internal_id == id && is_first_outer(first_outer, k) {
            assert(is_first_outer(outer, k));
        }
    }
}

/// Adds to every table of a query the columns that its subqueries use of it.
pub fn update_column_used_masks(
    table_refs: &mut TableReferences,
    subqueries: &Vec<NonFromClauseSubquery>,
)
    requires
        all_planned(subqueries@),
    ensures
        marked(*old(table_refs), *final(table_refs), subqueries@),
{
    let ghost before = *table_refs;
    let mut s: usize = 0;
    assert forall|id: TableInternalId| #[trigger]
        used_before(subqueries@, 0, 0, id) == Set::<nat>::empty() by {
        assert(used_before(subqueries@, 0, 0, id) =~= Set::<nat>::empty());
    }
    assert(forall|set: Set<nat>| #[trigger] set.union(Set::<nat>::empty()) =~= set);
    while s < subqueries.len()
        invariant
            s <= subqueries@.len(),
            all_planned(subqueries@),
            joined_marked(
                before.joined_tables@,
                table_refs.joined_tables@,
                subqueries@,
                s as int,
                0,
            ),
            outer_marked(
                before.outer_query_refs@,
                table_refs.outer_query_refs@,
                subqueries@,
                s as int,
                0,
            ),
        decreases subqueries@.len() - s,
    {
        assert(is_planned(subqueries@[s as int]));
        let refs = match &subqueries[s].state {
            SubqueryState::Unevaluated { plan: Some(plan) } => {
                &plan.table_references.outer_query_refs
            },
            _ => vstd::pervasive::unreached(),
        };
        let mut r: usize = 0;
        while r < refs.len()
            invariant
                s < subqueries@.len(),
                refs@ == plan_refs(subqueries@[s as int]),
                r <= refs@.len(),
                joined_marked(
                    before.joined_tables@,
                    table_refs.joined_tables@,
                    subqueries@,
                    s as int,
                    r as int,
                ),
                outer_marked(
                    before.outer_query_refs@,
                    table_refs.outer_query_refs@,
                    subqueries@,
                    s as int,
                    r as int,
                ),
            decreases refs@.len() - r,
        {
            mark_reference(
                table_refs,
                &refs[r],
                Ghost(before),
                Ghost(subqueries@),
                Ghost(s as int),
                Ghost(r as int),
            );
            r += 1;
        }
        proof {
            assert forall|id: TableInternalId| #[trigger]
                used_before(subqueries@, s as int, refs@.len() as int, id) == used_before(
                    subqueries@,
                    s + 1,
                    0,
                    id,
                ) by {
                used_next(subqueries@, s as int, id);
            }
        }
        s += 1;
    }
}

} // verus!
