//! What holds of binding column names.
use crate::ast::{ExprKind, ExprTree, TableInternalId};
use crate::bind::{
    bound, bound_child, column_kind, column_position, looked_up, name_position, resolved,
    table_column, Scope, TableScope,
};
use crate::cte_code::OtherTable;
use crate::plan::{RecursiveCte, SelectTable};
use crate::recursive_cte::{bound_by_aliases, bound_in_member, cte_scope, others_scope};
use crate::schema::Column;
use crate::text::same_name;
use vstd::prelude::*;

verus! {

proof fn name_position_is_there(names: Seq<Seq<char>>, wanted: Seq<char>, start: nat)
    ensures
        name_position(names, wanted, start) matches Some(i) ==> start <= i < names.len()
            && same_name(names[i as int], wanted),
    decreases names.len() - start,
{
    if start < names.len() && !same_name(names[start as int], wanted) {
        name_position_is_there(names, wanted, start + 1);
    }
}

proof fn column_position_is_there(columns: Seq<Column>, wanted: Seq<char>, start: nat)
    ensures
        column_position(columns, wanted, start) matches Some(i) ==> start <= i < columns.len()
            && columns[i as int].name is Some && same_name(columns[i as int].name->0@, wanted),
    decreases columns.len() - start,
{
    if start < columns.len() {
        if !(columns[start as int].name matches Some(name) && same_name(name@, wanted)) {
            column_position_is_there(columns, wanted, start + 1);
        }
    }
}

/// A column of a table of the scope, whose name is the wanted one.
pub open spec fn is_column_of(t: TableScope, kind: ExprKind, wanted: Seq<char>) -> bool {
    exists|i: nat|
        {
            &&& i < t.columns.len()
            &&& kind == #[trigger] column_kind(
                t.internal_id,
                i,
                t.columns[i as int].is_rowid_alias,
            )
            &&& t.columns[i as int].name matches Some(name) && same_name(name@, wanted)
        }
}

proof fn table_column_is_there(
    tables: Seq<TableScope>,
    qualifier: Option<Seq<char>>,
    wanted: Seq<char>,
    start: nat,
)
    ensures
        table_column(tables, qualifier, wanted, start) matches Some(kind) ==> exists|k: int|
            start <= k < tables.len() && is_column_of(#[trigger] tables[k], kind, wanted) && (
            qualifier matches Some(q) ==> same_name(tables[k].name, q)),
    decreases tables.len() - start,
{
    if start < tables.len() {
        let t = tables[start as int];
        column_position_is_there(t.columns, wanted, 0);
        let eligible = qualifier matches Some(q) ==> same_name(t.name, q);
        match column_position(t.columns, wanted, 0) {
            Some(i) if eligible => {
                let kind = column_kind(t.internal_id, i, t.columns[i as int].is_rowid_alias);
                assert(is_column_of(tables[start as int], kind, wanted));
            },
            _ => {
                table_column_is_there(tables, qualifier, wanted, start + 1);
            },
        }
    }
}

/// A column that a name is bound to is one that the scope has, under that name, and in a table of
/// that name if the name is qualified.
pub proof fn found_column_is_in_scope(
    scope: Scope,
    qualifier: Option<Seq<char>>,
    wanted: Seq<char>,
    kind: ExprKind,
)
    requires
        looked_up(scope, qualifier, wanted) == Some(kind),
    ensures
        match scope {
            Scope::Cte { name, columns, internal_id } => {
                &&& qualifier matches Some(q) ==> same_name(q, name)
                &&& exists|i: nat|
                    {
                        &&& i < columns.len()
                        &&& kind == #[trigger] column_kind(internal_id, i, false)
                        &&& same_name(columns[i as int], wanted)
                    }
            },
            Scope::Tables(tables) => exists|k: int|
                0 <= k < tables.len() && is_column_of(#[trigger] tables[k], kind, wanted) && (
                qualifier matches Some(q) ==> same_name(tables[k].name, q)),
        },
{
    match scope {
        Scope::Cte { name, columns, internal_id } => {
            name_position_is_there(columns, wanted, 0);
            let i = name_position(columns, wanted, 0)->0;
            assert(kind == column_kind(internal_id, i, false));
        },
        Scope::Tables(tables) => {
            table_column_is_there(tables, qualifier, wanted, 0);
        },
    }
}

/// Only column names are ever bound, and what they are bound to is a column.
proof fn resolved_is_column(scope: Scope, kind: ExprKind)
    ensures
        resolved(scope, kind) matches Some(found) ==> (kind is Id || kind is Qualified)
            && found is Column,
{
    match kind {
        ExprKind::Id(name) => {
            let wanted = crate::text::lowercase(name.value@);
            if let Some(found) = looked_up(scope, None, wanted) {
                found_column_is_in_scope(scope, None, wanted, found);
            }
        },
        ExprKind::Qualified(table, name) => {
            let qualifier = Some(crate::text::lowercase(table.value@));
            let wanted = crate::text::lowercase(name.value@);
            if let Some(found) = looked_up(scope, qualifier, wanted) {
                found_column_is_in_scope(scope, qualifier, wanted, found);
            }
        },
        _ => {},
    }
}

/// Binding keeps the shape of an expression: no subexpression comes or goes, or changes its role,
/// and any node but a column name stays what it is.
pub proof fn binding_keeps_the_shape(scope: Scope, t: ExprTree)
    ensures
        bound(scope, t).children.len() == t.children.len(),
        forall|i: int|
            0 <= i < t.children.len() ==> (#[trigger] bound(scope, t).children[i]).role
                == t.children[i].role,
        bound(scope, t).kind == t.kind || ((t.kind is Id || t.kind is Qualified) && bound(
            scope,
            t,
        ).kind is Column),
{
    resolved_is_column(scope, t.kind);
    assert forall|i: int| 0 <= i < t.children.len() implies (
    #[trigger] bound(scope, t).children[i]).role == t.children[i].role by {
        assert(bound(scope, t).children[i] == bound_child(scope, t.children[i]));
    }
}

/// Binding twice is the same as binding once.
pub proof fn binding_again_changes_nothing(scope: Scope, t: ExprTree)
    ensures
        bound(scope, bound(scope, t)) == bound(scope, t),
    decreases t,
{
    let once = bound(scope, t);
    let twice = bound(scope, once);
    resolved_is_column(scope, t.kind);
    assert(twice.kind == once.kind);
    assert forall|i: int| 0 <= i < once.children.len() implies #[trigger] twice.children[i]
        == once.children[i] by {
        assert(once.children[i] == bound_child(scope, t.children[i]));
        assert(twice.children[i] == bound_child(scope, once.children[i]));
        binding_again_changes_nothing(scope, t.children[i].tree);
    }
    assert(twice.children =~= once.children);
}

/// No column name that the scope knows is left in an expression.
pub open spec fn is_free_of_names(scope: Scope, t: ExprTree) -> bool
    decreases t,
{
    &&& resolved(scope, t.kind) is None
    &&& forall|i: int|
        0 <= i < t.children.len() ==> is_free_of_names(scope, (#[trigger] t.children[i]).tree)
}

/// Binding leaves no column name that the scope knows, at any depth.
pub proof fn binding_leaves_no_known_name(scope: Scope, t: ExprTree)
    ensures
        is_free_of_names(scope, bound(scope, t)),
    decreases t,
{
    let b = bound(scope, t);
    resolved_is_column(scope, t.kind);
    assert forall|i: int| 0 <= i < b.children.len() implies is_free_of_names(
        scope,
        (#[trigger] b.children[i]).tree,
    ) by {
        assert(b.children[i] == bound_child(scope, t.children[i]));
        binding_leaves_no_known_name(scope, t.children[i].tree);
    }
}

/// Binding under aliases leaves a bound column what it is.
proof fn aliases_keep_columns(
    cte: RecursiveCte,
    internal_id: TableInternalId,
    others: Seq<OtherTable>,
    tables: Seq<SelectTable>,
    t: ExprTree,
)
    requires
        t.kind is Column,
    ensures
        bound_by_aliases(cte, internal_id, others, tables, t).kind == t.kind,
    decreases tables.len(),
{
    if tables.len() > 0 {
        aliases_keep_columns(cte, internal_id, others, tables.drop_last(), t);
    }
}

/// In a recursive member, a name that the expression itself has a column for is bound to that
/// column, whatever the other tables have and whatever the aliases are.
pub proof fn columns_of_the_cte_win(
    cte: RecursiveCte,
    internal_id: TableInternalId,
    others: Seq<OtherTable>,
    tables: Seq<SelectTable>,
    t: ExprTree,
)
    requires
        resolved(cte_scope(cte, cte.name@, internal_id), t.kind) is Some,
    ensures
        Some(bound_in_member(cte, internal_id, others, tables, t).kind) == resolved(
            cte_scope(cte, cte.name@, internal_id),
            t.kind,
        ),
        bound_in_member(cte, internal_id, others, tables, t).kind is Column,
{
    let scope = cte_scope(cte, cte.name@, internal_id);
    resolved_is_column(scope, t.kind);
    aliases_keep_columns(
        cte,
        internal_id,
        others,
        tables,
        bound(others_scope(others), bound(scope, t)),
    );
}

/// In a recursive member, a name that the expression itself has no column for, but another table
/// under its own name, is bound to the column of that table, whatever the aliases are.
pub proof fn own_names_win_over_aliases(
    cte: RecursiveCte,
    internal_id: TableInternalId,
    others: Seq<OtherTable>,
    tables: Seq<SelectTable>,
    t: ExprTree,
)
    requires
        resolved(cte_scope(cte, cte.name@, internal_id), t.kind) is None,
        resolved(others_scope(others), t.kind) is Some,
    ensures
        Some(bound_in_member(cte, internal_id, others, tables, t).kind) == resolved(
            others_scope(others),
            t.kind,
        ),
{
    let scope = cte_scope(cte, cte.name@, internal_id);
    resolved_is_column(others_scope(others), t.kind);
    aliases_keep_columns(
        cte,
        internal_id,
        others,
        tables,
        bound(others_scope(others), bound(scope, t)),
    );
}

} // verus!
