//! Which column a name stands for.
use crate::ast::{Child, ExprKind, ExprTree, TableInternalId};
use crate::bind::{
    bound, bound_child, column_position, looked_up, name_position, resolved, table_column,
    table_scopes, texts, NamedTable, Scope, TableScope,
};
use crate::cte_code::OtherTable;
use crate::plan::{FromClause, RecursiveCte, SelectTable};
use crate::recursive_cte::{
    alias_scope, bound_by_aliases, bound_in_member, cte_scope, first_other, from_tables,
    others_scope, OtherTables,
};
use crate::schema::Column;
use crate::text::{ascii_lower, ascii_lower_char, lowercase, same_name};
use vstd::prelude::*;

verus! {

/// Two texts are the same but for the case of ASCII letters: each letter is the same, or one is the
/// upper-case form of the other.
pub proof fn names_differ_in_case_only(a: Seq<char>, b: Seq<char>)
    ensures
        same_name(a, b) <==> a.len() == b.len() && forall|i: int|
            0 <= i < a.len() ==> {
                ||| #[trigger] a[i] == b[i]
                ||| 'A' <= a[i] && a[i] <= 'Z' && b[i] as int == a[i] as int + 32
                ||| 'A' <= b[i] && b[i] <= 'Z' && a[i] as int == b[i] as int + 32
            },
{
    let x = ascii_lower(a);
    let y = ascii_lower(b);
    assert(x.len() == a.len() && y.len() == b.len());
    if a.len() == b.len() {
        if x == y {
            assert forall|i: int| 0 <= i < a.len() implies ({
                ||| #[trigger] a[i] == b[i]
                ||| 'A' <= a[i] && a[i] <= 'Z' && b[i] as int == a[i] as int + 32
                ||| 'A' <= b[i] && b[i] <= 'Z' && a[i] as int == b[i] as int + 32
            }) by {
                assert(x[i] == ascii_lower_char(a[i]));
                assert(y[i] == ascii_lower_char(b[i]));
            }
        }
        if forall|i: int|
            0 <= i < a.len() ==> {
                ||| #[trigger] a[i] == b[i]
                ||| 'A' <= a[i] && a[i] <= 'Z' && b[i] as int == a[i] as int + 32
                ||| 'A' <= b[i] && b[i] <= 'Z' && a[i] as int == b[i] as int + 32
            } {
            assert forall|i: int| 0 <= i < x.len() implies #[trigger] x[i] == y[i] by {
                assert(x[i] == ascii_lower_char(a[i]));
                assert(y[i] == ascii_lower_char(b[i]));
                assert(a[i] == b[i] || a[i] != b[i]);
            }
            assert(x =~= y);
        }
    }
}

// ---------------------------------------------------------------------------------------------
// Looking a name up.

/// The name at a position is the first that is wanted.
pub open spec fn is_first_name(names: Seq<Seq<char>>, wanted: Seq<char>, i: int) -> bool {
    &&& 0 <= i < names.len()
    &&& same_name(names[i], wanted)
    &&& forall|j: int| 0 <= j < i ==> !same_name(#[trigger] names[j], wanted)
}

/// A column has a name, and it is the wanted one.
pub open spec fn is_named(column: Column, wanted: Seq<char>) -> bool {
    column.name matches Some(name) && same_name(name@, wanted)
}

/// The column at a position is the first with the wanted name.
pub open spec fn is_first_column(columns: Seq<Column>, wanted: Seq<char>, i: int) -> bool {
    &&& 0 <= i < columns.len()
    &&& is_named(columns[i], wanted)
    &&& forall|j: int| 0 <= j < i ==> !is_named(#[trigger] columns[j], wanted)
}

/// A table has a column with the wanted name, and goes by the qualifier if there is one.
pub open spec fn has_column(
    t: TableScope,
    qualifier: Option<Seq<char>>,
    wanted: Seq<char>,
) -> bool {
    &&& qualifier matches Some(q) ==> same_name(t.name, q)
    &&& exists|i: int| 0 <= i < t.columns.len() && is_named(#[trigger] t.columns[i], wanted)
}

/// The table at a position is the first with such a column.
pub open spec fn is_first_table(
    tables: Seq<TableScope>,
    qualifier: Option<Seq<char>>,
    wanted: Seq<char>,
    k: int,
) -> bool {
    &&& 0 <= k < tables.len()
    &&& has_column(tables[k], qualifier, wanted)
    &&& forall|j: int| 0 <= j < k ==> !has_column(#[trigger] tables[j], qualifier, wanted)
}

/// A name stands for a column: among the columns of a recursive expression, for the first of that
/// name, which is no rowid; among tables, for the first of that name in the first table that has
/// one. With a qualifier, only what goes by that name counts.
pub open spec fn stands_for(
    scope: Scope,
    qualifier: Option<Seq<char>>,
    wanted: Seq<char>,
    found: ExprKind,
) -> bool {
    match scope {
        Scope::Cte { name, columns, internal_id } => {
            &&& qualifier matches Some(q) ==> same_name(q, name)
            &&& exists|i: int| #[trigger]
                is_first_name(columns, wanted, i) && found == (ExprKind::Column {
                    database: None,
                    table: internal_id,
                    column: i as usize,
                    is_rowid_alias: false,
                })
        },
        Scope::Tables(tables) => exists|k: int, i: int| #[trigger]
            is_first_table(tables, qualifier, wanted, k) && #[trigger] is_first_column(
                tables[k].columns,
                wanted,
                i,
            ) && found == (ExprKind::Column {
                database: None,
                table: tables[k].internal_id,
                column: i as usize,
                is_rowid_alias: tables[k].columns[i].is_rowid_alias,
            }),
    }
}

proof fn first_name(names: Seq<Seq<char>>, wanted: Seq<char>, start: nat)
    requires
        forall|j: int|
            0 <= j < start && j < names.len() ==> !same_name(#[trigger] names[j], wanted),
    ensures
        match name_position(names, wanted, start) {
            Some(i) => is_first_name(names, wanted, i as int),
            None => forall|j: int| 0 <= j < names.len() ==> !same_name(#[trigger] names[j], wanted),
        },
    decreases names.len() - start,
{
    if start < names.len() && !same_name(names[start as int], wanted) {
        first_name(names, wanted, start + 1);
    }
}

proof fn first_column(columns: Seq<Column>, wanted: Seq<char>, start: nat)
    requires
        forall|j: int|
            0 <= j < start && j < columns.len() ==> !is_named(#[trigger] columns[j], wanted),
    ensures
        match column_position(columns, wanted, start) {
            Some(i) => is_first_column(columns, wanted, i as int),
            None => forall|j: int|
                0 <= j < columns.len() ==> !is_named(#[trigger] columns[j], wanted),
        },
    decreases columns.len() - start,
{
    if start < columns.len() && !is_named(columns[start as int], wanted) {
        first_column(columns, wanted, start + 1);
    }
}

proof fn first_table(
    tables: Seq<TableScope>,
    qualifier: Option<Seq<char>>,
    wanted: Seq<char>,
    start: nat,
)
    requires
        forall|j: int|
            0 <= j < start && j < tables.len() ==> !has_column(
                #[trigger] tables[j],
                qualifier,
                wanted,
            ),
    ensures
        match table_column(tables, qualifier, wanted, start) {
            Some(found) => stands_for(Scope::Tables(tables), qualifier, wanted, found),
            None => forall|j: int|
                0 <= j < tables.len() ==> !has_column(#[trigger] tables[j], qualifier, wanted),
        },
    decreases tables.len() - start,
{
    if start < tables.len() {
        let t = tables[start as int];
        first_column(t.columns, wanted, 0);
        let eligible = qualifier matches Some(q) ==> same_name(t.name, q);
        match column_position(t.columns, wanted, 0) {
            Some(i) if eligible => {
                assert(is_named(t.columns[i as int], wanted));
                assert(is_first_table(tables, qualifier, wanted, start as int));
                assert(is_first_column(tables[start as int].columns, wanted, i as int));
            },
            _ => {
                assert(!has_column(t, qualifier, wanted));
                first_table(tables, qualifier, wanted, start + 1);
            },
        }
    }
}

/// What a name is found to be is what it stands for, and it is found if it stands for anything.
pub proof fn name_is_looked_up(scope: Scope, qualifier: Option<Seq<char>>, wanted: Seq<char>)
    ensures
        forall|found: ExprKind|
            looked_up(scope, qualifier, wanted) == Some(found) <==> #[trigger] stands_for(
                scope,
                qualifier,
                wanted,
                found,
            ),
{
    match scope {
        Scope::Cte { name, columns, internal_id } => {
            first_name(columns, wanted, 0);
            assert forall|found: ExprKind| #[trigger]
                stands_for(scope, qualifier, wanted, found) implies looked_up(
                scope,
                qualifier,
                wanted,
            ) == Some(found) by {
                let i = choose|i: int| #[trigger]
                    is_first_name(columns, wanted, i) && found == (ExprKind::Column {
                        database: None,
                        table: internal_id,
                        column: i as usize,
                        is_rowid_alias: false,
                    });
                let p = name_position(columns, wanted, 0)->0 as int;
                assert(same_name(columns[i], wanted));
                assert(is_first_name(columns, wanted, p));
                assert(i == p);
            }
            if let Some(p) = name_position(columns, wanted, 0) {
                assert(is_first_name(columns, wanted, p as int));
            }
        },
        Scope::Tables(tables) => {
            first_table(tables, qualifier, wanted, 0);
            assert forall|found: ExprKind| #[trigger]
                stands_for(scope, qualifier, wanted, found) implies looked_up(
                scope,
                qualifier,
                wanted,
            ) == Some(found) by {
                one_column(tables, qualifier, wanted, found);
            }
        },
    }
}

proof fn one_column(
    tables: Seq<TableScope>,
    qualifier: Option<Seq<char>>,
    wanted: Seq<char>,
    found: ExprKind,
)
    requires
        stands_for(Scope::Tables(tables), qualifier, wanted, found),
    ensures
        table_column(tables, qualifier, wanted, 0) == Some(found),
{
    first_table(tables, qualifier, wanted, 0);
    let (k, i): (int, int) = choose|k: int, i: int| #[trigger]
        is_first_table(tables, qualifier, wanted, k) && #[trigger] is_first_column(
            tables[k].columns,
            wanted,
            i,
        ) && found == (ExprKind::Column {
            database: None,
            table: tables[k].internal_id,
            column: i as usize,
            is_rowid_alias: tables[k].columns[i].is_rowid_alias,
        });
    assert(has_column(tables[k], qualifier, wanted));
    let other = table_column(tables, qualifier, wanted, 0)->0;
    let (m, n): (int, int) = choose|k: int, i: int| #[trigger]
        is_first_table(tables, qualifier, wanted, k) && #[trigger] is_first_column(
            tables[k].columns,
            wanted,
            i,
        ) && other == (ExprKind::Column {
            database: None,
            table: tables[k].internal_id,
            column: i as usize,
            is_rowid_alias: tables[k].columns[i].is_rowid_alias,
        });
    assert(has_column(tables[m], qualifier, wanted));
    assert(k == m);
    assert(is_named(tables[k].columns[i], wanted));
    assert(is_named(tables[k].columns[n], wanted));
    assert(i == n);
}

// ---------------------------------------------------------------------------------------------
// Binding an expression.

/// A node is a column name, alone or qualified, and stands for a column.
pub open spec fn node_stands_for(scope: Scope, kind: ExprKind, found: ExprKind) -> bool {
    match kind {
        ExprKind::Id(name) => stands_for(scope, None, lowercase(name.value@), found),
        ExprKind::Qualified(table, name) => stands_for(
            scope,
            Some(lowercase(table.value@)),
            lowercase(name.value@),
            found,
        ),
        _ => false,
    }
}

/// A node is a column name that a scope knows.
pub open spec fn is_known(scope: Scope, kind: ExprKind) -> bool {
    exists|found: ExprKind| #[trigger] node_stands_for(scope, kind, found)
}

/// Every column name of an expression that the scope knows is replaced by the column that it stands
/// for, at any depth, and nothing else is changed.
pub open spec fn names_are_bound(scope: Scope, before: ExprTree, after: ExprTree) -> bool
    decreases before,
{
    &&& if is_known(scope, before.kind) {
        node_stands_for(scope, before.kind, after.kind)
    } else {
        after.kind == before.kind
    }
    &&& after.children.len() == before.children.len()
    &&& forall|i: int|
        0 <= i < before.children.len() ==> {
            &&& (#[trigger] after.children[i]).role == before.children[i].role
            &&& names_are_bound(scope, before.children[i].tree, after.children[i].tree)
        }
}

proof fn node_is_resolved(scope: Scope, kind: ExprKind)
    ensures
        forall|found: ExprKind|
            resolved(scope, kind) == Some(found) <==> #[trigger] node_stands_for(
                scope,
                kind,
                found,
            ),
        is_known(scope, kind) <==> resolved(scope, kind) is Some,
{
    match kind {
        ExprKind::Id(name) => {
            name_is_looked_up(scope, None, lowercase(name.value@));
            assert forall|found: ExprKind|
                resolved(scope, kind) == Some(found) <==> #[trigger] node_stands_for(
                    scope,
                    kind,
                    found,
                ) by {
                assert(stands_for(scope, None, lowercase(name.value@), found) == node_stands_for(
                    scope,
                    kind,
                    found,
                ));
            }
        },
        ExprKind::Qualified(table, name) => {
            let q = Some(lowercase(table.value@));
            name_is_looked_up(scope, q, lowercase(name.value@));
            assert forall|found: ExprKind|
                resolved(scope, kind) == Some(found) <==> #[trigger] node_stands_for(
                    scope,
                    kind,
                    found,
                ) by {
                assert(stands_for(scope, q, lowercase(name.value@), found) == node_stands_for(
                    scope,
                    kind,
                    found,
                ));
            }
        },
        _ => {},
    }
    if let Some(found) = resolved(scope, kind) {
        assert(node_stands_for(scope, kind, found));
    }
}

/// Binding an expression binds its names.
pub proof fn binding_binds_the_names(scope: Scope, t: ExprTree)
    ensures
        names_are_bound(scope, t, bound(scope, t)),
    decreases t,
{
    let b = bound(scope, t);
    node_is_resolved(scope, t.kind);
    assert forall|i: int| 0 <= i < t.children.len() implies (
    #[trigger] b.children[i]).role == t.children[i].role && names_are_bound(
        scope,
        t.children[i].tree,
        b.children[i].tree,
    ) by {
        assert(b.children[i] == bound_child(scope, t.children[i]));
        binding_binds_the_names(scope, t.children[i].tree);
    }
}

// ---------------------------------------------------------------------------------------------
// Binding an expression of a recursive member.

/// The columns of a recursive expression under a name; one without a name has the empty one.
pub open spec fn own_columns(
    cte: RecursiveCte,
    name: Seq<char>,
    internal_id: TableInternalId,
) -> Scope {
    Scope::Cte {
        name,
        columns: Seq::new(
            cte.columns@.len(),
            |i: int|
                match cte.columns@[i].name {
                    Some(name) => name@,
                    None => Seq::<char>::empty(),
                },
        ),
        internal_id,
    }
}

/// The columns of the other tables, each under its own name.
pub open spec fn other_columns(others: Seq<OtherTable>) -> Scope {
    Scope::Tables(
        Seq::new(
            others.len(),
            |i: int|
                TableScope {
                    name: others[i].name,
                    internal_id: others[i].internal_id,
                    columns: others[i].table.columns@,
                },
        ),
    )
}

/// A node stands for a column of a table of the `FROM` clause under its alias. What goes by the
/// name of the expression is the expression itself, anything else is the first other table.
pub open spec fn stands_for_by_alias(
    cte: RecursiveCte,
    internal_id: TableInternalId,
    others: Seq<OtherTable>,
    table: SelectTable,
    kind: ExprKind,
    found: ExprKind,
) -> bool {
    match table {
        SelectTable::Table { name, alias: Some(alias), .. } => {
            let known_as = lowercase(alias.value@);
            if same_name(lowercase(name.value@), cte.name@) {
                node_stands_for(own_columns(cte, known_as, internal_id), kind, found)
            } else {
                others.len() > 0 && node_stands_for(
                    Scope::Tables(
                        seq![
                            TableScope {
                                name: known_as,
                                internal_id: others[0].internal_id,
                                columns: others[0].table.columns@,
                            },
                        ],
                    ),
                    kind,
                    found,
                )
            }
        },
        _ => false,
    }
}

/// A node stands for a column by the alias of a table.
pub open spec fn is_known_by_alias(
    cte: RecursiveCte,
    internal_id: TableInternalId,
    others: Seq<OtherTable>,
    table: SelectTable,
    kind: ExprKind,
) -> bool {
    exists|found: ExprKind| #[trigger]
        stands_for_by_alias(cte, internal_id, others, table, kind, found)
}

/// The table at a position is the first of the `FROM` clause by whose alias a node is known.
pub open spec fn is_first_alias(
    cte: RecursiveCte,
    internal_id: TableInternalId,
    others: Seq<OtherTable>,
    tables: Seq<SelectTable>,
    kind: ExprKind,
    j: int,
) -> bool {
    &&& 0 <= j < tables.len()
    &&& is_known_by_alias(cte, internal_id, others, tables[j], kind)
    &&& forall|i: int|
        0 <= i < j ==> !is_known_by_alias(cte, internal_id, others, #[trigger] tables[i], kind)
}

/// What a node of a recursive member becomes. A name that the expression itself has a column for
/// becomes that column. Else one that another table has a column for becomes that. Else the aliases
/// of the `FROM` clause count, from left to right. Anything else stays what it is.
pub open spec fn becomes_in_member(
    cte: RecursiveCte,
    internal_id: TableInternalId,
    others: Seq<OtherTable>,
    tables: Seq<SelectTable>,
    kind: ExprKind,
    after: ExprKind,
) -> bool {
    let own = own_columns(cte, cte.name@, internal_id);
    let other = other_columns(others);
    if is_known(own, kind) {
        node_stands_for(own, kind, after)
    } else if is_known(other, kind) {
        node_stands_for(other, kind, after)
    } else if exists|j: int| #[trigger]
        is_first_alias(cte, internal_id, others, tables, kind, j) {
        exists|j: int| #[trigger]
            is_first_alias(cte, internal_id, others, tables, kind, j) && stands_for_by_alias(
                cte,
                internal_id,
                others,
                tables[j],
                kind,
                after,
            )
    } else {
        after == kind
    }
}

/// Every node of an expression of a recursive member becomes what it should, at any depth, and the
/// shape of the expression stays.
pub open spec fn is_bound_in_member(
    cte: RecursiveCte,
    internal_id: TableInternalId,
    others: Seq<OtherTable>,
    tables: Seq<SelectTable>,
    before: ExprTree,
    after: ExprTree,
) -> bool
    decreases before,
{
    &&& becomes_in_member(cte, internal_id, others, tables, before.kind, after.kind)
    &&& after.children.len() == before.children.len()
    &&& forall|i: int|
        0 <= i < before.children.len() ==> {
            &&& (#[trigger] after.children[i]).role == before.children[i].role
            &&& is_bound_in_member(
                cte,
                internal_id,
                others,
                tables,
                before.children[i].tree,
                after.children[i].tree,
            )
        }
}

proof fn scopes_agree(
    cte: RecursiveCte,
    name: Seq<char>,
    internal_id: TableInternalId,
    others: Seq<OtherTable>,
)
    ensures
        cte_scope(cte, name, internal_id) == own_columns(cte, name, internal_id),
        others_scope(others) == other_columns(others),
{
    let a = cte_scope(cte, name, internal_id)->Cte_columns;
    let b = own_columns(cte, name, internal_id)->Cte_columns;
    assert(a =~= b);
    assert(others_scope(others)->Tables_0 =~= other_columns(others)->Tables_0);
}

proof fn alias_resolves(
    cte: RecursiveCte,
    internal_id: TableInternalId,
    others: Seq<OtherTable>,
    table: SelectTable,
    kind: ExprKind,
)
    ensures
        match alias_scope(cte, internal_id, others, table) {
            Some(scope) => {
                &&& is_known_by_alias(cte, internal_id, others, table, kind) <==> resolved(
                    scope,
                    kind,
                ) is Some
                &&& resolved(scope, kind) matches Some(found) ==> stands_for_by_alias(
                    cte,
                    internal_id,
                    others,
                    table,
                    kind,
                    found,
                )
            },
            None => !is_known_by_alias(cte, internal_id, others, table, kind),
        },
{
    if let SelectTable::Table { name, alias: Some(alias), .. } = table {
        let known_as = lowercase(alias.value@);
        if same_name(lowercase(name.value@), cte.name@) {
            scopes_agree(cte, known_as, internal_id, others);
            node_is_resolved(own_columns(cte, known_as, internal_id), kind);
        } else if others.len() > 0 {
            let renamed = seq![OtherTable { name: known_as, ..others[0] }];
            scopes_agree(cte, known_as, internal_id, renamed);
            let one = seq![
                TableScope {
                    name: known_as,
                    internal_id: others[0].internal_id,
                    columns: others[0].table.columns@,
                },
            ];
            assert(other_columns(renamed)->Tables_0 =~= one);
            node_is_resolved(Scope::Tables(one), kind);
        }
        if let Some(scope) = alias_scope(cte, internal_id, others, table) {
            if let Some(found) = resolved(scope, kind) {
                assert(node_stands_for(scope, kind, found));
                assert(stands_for_by_alias(cte, internal_id, others, table, kind, found));
            }
            if is_known_by_alias(cte, internal_id, others, table, kind) {
                let found = choose|found: ExprKind| #[trigger]
                    stands_for_by_alias(cte, internal_id, others, table, kind, found);
                assert(node_stands_for(scope, kind, found));
            }
        }
    }
}

proof fn alias_kind(
    cte: RecursiveCte,
    internal_id: TableInternalId,
    others: Seq<OtherTable>,
    tables: Seq<SelectTable>,
    t: ExprTree,
)
    ensures
        ({
            let after = bound_by_aliases(cte, internal_id, others, tables, t).kind;
            if exists|j: int| #[trigger]
                is_first_alias(cte, internal_id, others, tables, t.kind, j) {
                exists|j: int| #[trigger]
                    is_first_alias(cte, internal_id, others, tables, t.kind, j)
                        && stands_for_by_alias(
                        cte,
                        internal_id,
                        others,
                        tables[j],
                        t.kind,
                        after,
                    )
            } else {
                &&& after == t.kind
                &&& forall|j: int|
                    0 <= j < tables.len() ==> !is_known_by_alias(
                        cte,
                        internal_id,
                        others,
                        #[trigger] tables[j],
                        t.kind,
                    )
            }
        }),
    decreases tables.len(),
{
    if tables.len() > 0 {
        let earlier = tables.drop_last();
        let n = tables.len() - 1;
        alias_kind(cte, internal_id, others, earlier, t);
        let so_far = bound_by_aliases(cte, internal_id, others, earlier, t);
        let after = bound_by_aliases(cte, internal_id, others, tables, t).kind;
        alias_resolves(cte, internal_id, others, tables.last(), t.kind);
        if exists|j: int| #[trigger]
            is_first_alias(cte, internal_id, others, earlier, t.kind, j) {
            let j = choose|j: int| #[trigger]
                is_first_alias(cte, internal_id, others, earlier, t.kind, j)
                    && stands_for_by_alias(
                    cte,
                    internal_id,
                    others,
                    earlier[j],
                    t.kind,
                    so_far.kind,
                );
            found_is_column(cte, internal_id, others, earlier[j], t.kind, so_far.kind);
            assert(after == so_far.kind);
            assert(tables[j] == earlier[j]);
            assert forall|i: int| 0 <= i < j implies !is_known_by_alias(
                cte,
                internal_id,
                others,
                #[trigger] tables[i],
                t.kind,
            ) by {
                assert(tables[i] == earlier[i]);
            }
            assert(is_first_alias(cte, internal_id, others, tables, t.kind, j));
        } else {
            assert forall|i: int| 0 <= i < n implies !is_known_by_alias(
                cte,
                internal_id,
                others,
                #[trigger] tables[i],
                t.kind,
            ) by {
                assert(tables[i] == earlier[i]);
            }
            if is_known_by_alias(cte, internal_id, others, tables.last(), t.kind) {
                assert(is_first_alias(cte, internal_id, others, tables, t.kind, n));
                assert(stands_for_by_alias(
                    cte,
                    internal_id,
                    others,
                    tables[n],
                    t.kind,
                    after,
                ));
            } else {
                assert(after == t.kind);
                assert forall|j: int| !(#[trigger] is_first_alias(
                    cte,
                    internal_id,
                    others,
                    tables,
                    t.kind,
                    j,
                )) by {
                    if 0 <= j < tables.len() {
                        assert(tables[j] == if j < n {
                            earlier[j]
                        } else {
                            tables.last()
                        });
                    }
                }
            }
        }
    }
}

proof fn found_is_column(
    cte: RecursiveCte,
    internal_id: TableInternalId,
    others: Seq<OtherTable>,
    table: SelectTable,
    kind: ExprKind,
    found: ExprKind,
)
    requires
        stands_for_by_alias(cte, internal_id, others, table, kind, found),
    ensures
        found is Column,
{
}

proof fn alias_children(
    cte: RecursiveCte,
    internal_id: TableInternalId,
    others: Seq<OtherTable>,
    tables: Seq<SelectTable>,
    t: ExprTree,
    i: int,
)
    requires
        0 <= i < t.children.len(),
    ensures
        bound_by_aliases(cte, internal_id, others, tables, t).children.len() == t.children.len(),
        bound_by_aliases(cte, internal_id, others, tables, t).children[i] == (Child {
            role: t.children[i].role,
            tree: bound_by_aliases(cte, internal_id, others, tables, t.children[i].tree),
        }),
    decreases tables.len(),
{
    if tables.len() > 0 {
        alias_children(cte, internal_id, others, tables.drop_last(), t, i);
        let so_far = bound_by_aliases(cte, internal_id, others, tables.drop_last(), t);
        if let Some(scope) = alias_scope(cte, internal_id, others, tables.last()) {
            assert(bound(scope, so_far).children[i] == bound_child(scope, so_far.children[i]));
        }
    }
}

proof fn alias_count(
    cte: RecursiveCte,
    internal_id: TableInternalId,
    others: Seq<OtherTable>,
    tables: Seq<SelectTable>,
    t: ExprTree,
)
    ensures
        bound_by_aliases(cte, internal_id, others, tables, t).children.len() == t.children.len(),
    decreases tables.len(),
{
    if tables.len() > 0 {
        alias_count(cte, internal_id, others, tables.drop_last(), t);
    }
}

proof fn member_node(
    cte: RecursiveCte,
    internal_id: TableInternalId,
    others: Seq<OtherTable>,
    tables: Seq<SelectTable>,
    t: ExprTree,
)
    ensures
        becomes_in_member(
            cte,
            internal_id,
            others,
            tables,
            t.kind,
            bound_in_member(cte, internal_id, others, tables, t).kind,
        ),
{
    let own = own_columns(cte, cte.name@, internal_id);
    let other = other_columns(others);
    scopes_agree(cte, cte.name@, internal_id, others);
    node_is_resolved(own, t.kind);
    let first = bound(own, t);
    node_is_resolved(other, first.kind);
    let second = bound(other, first);
    alias_kind(cte, internal_id, others, tables, second);
    if is_known(own, t.kind) {
        assert(first.kind is Column);
        no_alias_for_columns(cte, internal_id, others, tables, first.kind);
    } else if is_known(other, t.kind) {
        assert(second.kind is Column);
        no_alias_for_columns(cte, internal_id, others, tables, second.kind);
    }
}

proof fn no_alias_for_columns(
    cte: RecursiveCte,
    internal_id: TableInternalId,
    others: Seq<OtherTable>,
    tables: Seq<SelectTable>,
    kind: ExprKind,
)
    requires
        kind is Column,
    ensures
        forall|j: int| !(#[trigger] is_first_alias(cte, internal_id, others, tables, kind, j)),
{
}

/// Binding an expression of a recursive member makes every node what it should become.
pub proof fn binding_in_member(
    cte: RecursiveCte,
    internal_id: TableInternalId,
    others: Seq<OtherTable>,
    tables: Seq<SelectTable>,
    t: ExprTree,
)
    ensures
        is_bound_in_member(
            cte,
            internal_id,
            others,
            tables,
            t,
            bound_in_member(cte, internal_id, others, tables, t),
        ),
    decreases t,
{
    let own = own_columns(cte, cte.name@, internal_id);
    let other = other_columns(others);
    scopes_agree(cte, cte.name@, internal_id, others);
    let first = bound(own, t);
    let second = bound(other, first);
    let last = bound_in_member(cte, internal_id, others, tables, t);
    member_node(cte, internal_id, others, tables, t);
    alias_count(cte, internal_id, others, tables, second);
    assert forall|i: int| 0 <= i < t.children.len() implies (
    #[trigger] last.children[i]).role == t.children[i].role && is_bound_in_member(
        cte,
        internal_id,
        others,
        tables,
        t.children[i].tree,
        last.children[i].tree,
    ) by {
        assert(first.children[i] == bound_child(own, t.children[i]));
        assert(second.children[i] == bound_child(other, first.children[i]));
        alias_children(cte, internal_id, others, tables, second, i);
        binding_in_member(cte, internal_id, others, tables, t.children[i].tree);
    }
}

// ---------------------------------------------------------------------------------------------
// The tables whose columns can be named.

/// The tables of a `FROM` clause are the one behind the word and those of the joins, from left to
/// right.
pub proof fn from_clause_lists_its_tables(from: Option<FromClause>)
    ensures
        from is None ==> from_tables(from).len() == 0,
        from matches Some(clause) ==> {
            &&& from_tables(from).len() == 1 + clause.joins@.len()
            &&& from_tables(from)[0] == clause.select
            &&& forall|i: int|
                0 <= i < clause.joins@.len() ==> from_tables(from)[i + 1] == (
                #[trigger] clause.joins@[i]).table
        },
{
}

/// A table can be named by the name that it is known by, and so can all its columns.
pub proof fn named_tables_can_be_named(tables: Seq<NamedTable>, names: Seq<String>)
    ensures
        table_scopes(tables).len() == tables.len(),
        forall|i: int|
            0 <= i < tables.len() ==> {
                &&& (#[trigger] table_scopes(tables)[i]).name == tables[i].name@
                &&& table_scopes(tables)[i].internal_id == tables[i].internal_id
                &&& table_scopes(tables)[i].columns == tables[i].table.columns@
            },
        texts(names).len() == names.len(),
        forall|i: int| 0 <= i < names.len() ==> #[trigger] texts(names)[i] == names[i]@,
{
}

/// Each of the other tables of a recursive member goes with its own cursor, and the first of them,
/// if there is one, is the one that is read.
pub proof fn other_tables_have_their_cursors(others: OtherTables)
    ensures
        others@.len() == others.tables@.len(),
        forall|i: int|
            0 <= i < others.tables@.len() ==> {
                let o = #[trigger] others@[i];
                &&& o.name == others.tables@[i].name@
                &&& o.table == *others.tables@[i].table
                &&& o.internal_id == others.tables@[i].internal_id
                &&& o.cursor_id == others.cursors@[i]
            },
        first_other(others@) is Some <==> others.tables@.len() > 0,
        first_other(others@) matches Some(first) ==> first == others@[0],
{
}

} // verus!
