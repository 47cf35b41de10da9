//! Binding the column names of an expression to the columns they stand for.
use crate::ast::{expr_kind, Child, Expr, ExprKind, ExprTree, TableInternalId};
use crate::schema::{BTreeTable, Column};
use crate::text::{lowercase, normalize_ident, same_name};
use std::sync::Arc;
use vstd::prelude::*;

verus! {

// ---------------------------------------------------------------------------------------------
// What binding means.

/// A table whose columns can be named: the name it goes by, its number, and its columns.
pub struct TableScope {
    pub name: Seq<char>,
    pub internal_id: TableInternalId,
    pub columns: Seq<Column>,
}

/// Where a column name is looked up.
pub enum Scope {
    /// The columns of a recursive common table expression.
    Cte { name: Seq<char>, columns: Seq<Seq<char>>, internal_id: TableInternalId },
    /// The columns of ordinary tables, the first table that has the name winning.
    Tables(Seq<TableScope>),
}

/// The first position from `start` on whose name is `wanted`, but for the case of ASCII letters.
pub open spec fn name_position(names: Seq<Seq<char>>, wanted: Seq<char>, start: nat) -> Option<nat>
    decreases names.len() - start,
{
    if start >= names.len() {
        None
    } else if same_name(names[start as int], wanted) {
        Some(start)
    } else {
        name_position(names, wanted, start + 1)
    }
}

/// The first position from `start` on of a column that has a name, and it is `wanted`.
pub open spec fn column_position(columns: Seq<Column>, wanted: Seq<char>, start: nat) -> Option<nat>
    decreases columns.len() - start,
{
    if start >= columns.len() {
        None
    } else if columns[start as int].name matches Some(name) && same_name(name@, wanted) {
        Some(start)
    } else {
        column_position(columns, wanted, start + 1)
    }
}

/// The node for a bound column.
pub open spec fn column_kind(table: TableInternalId, column: nat, is_rowid_alias: bool) -> ExprKind {
    ExprKind::Column { database: None, table, column: column as usize, is_rowid_alias }
}

/// The column `wanted` of the first table from `start` on that has one. With `qualifier`, only
/// tables of that name count.
pub open spec fn table_column(
    tables: Seq<TableScope>,
    qualifier: Option<Seq<char>>,
    wanted: Seq<char>,
    start: nat,
) -> Option<ExprKind>
    decreases tables.len() - start,
{
    if start >= tables.len() {
        None
    } else {
        let t = tables[start as int];
        let eligible = qualifier matches Some(q) ==> same_name(t.name, q);
        match column_position(t.columns, wanted, 0) {
            Some(i) if eligible => Some(
                column_kind(t.internal_id, i, t.columns[i as int].is_rowid_alias),
            ),
            _ => table_column(tables, qualifier, wanted, start + 1),
        }
    }
}

/// What the name `wanted`, already normalized, stands for in a scope, if anything.
pub open spec fn looked_up(
    scope: Scope,
    qualifier: Option<Seq<char>>,
    wanted: Seq<char>,
) -> Option<ExprKind> {
    match scope {
        Scope::Cte { name, columns, internal_id } => {
            let eligible = qualifier matches Some(q) ==> same_name(q, name);
            match name_position(columns, wanted, 0) {
                Some(i) if eligible => Some(column_kind(internal_id, i, false)),
                _ => None,
            }
        },
        Scope::Tables(tables) => table_column(tables, qualifier, wanted, 0),
    }
}

/// What a node stands for in a scope, if it is a column name that the scope knows.
pub open spec fn resolved(scope: Scope, kind: ExprKind) -> Option<ExprKind> {
    match kind {
        ExprKind::Id(name) => looked_up(scope, None, lowercase(name.value@)),
        ExprKind::Qualified(table, name) => looked_up(
            scope,
            Some(lowercase(table.value@)),
            lowercase(name.value@),
        ),
        _ => None,
    }
}

/// The expression with every column name in it that the scope knows replaced by the column.
pub open spec fn bound(scope: Scope, t: ExprTree) -> ExprTree
    decreases t,
{
    ExprTree {
        kind: match resolved(scope, t.kind) {
            Some(kind) => kind,
            None => t.kind,
        },
        children: Seq::new(
            t.children.len(),
            |i: int|
                if 0 <= i < t.children.len() {
                    bound_child(scope, t.children[i])
                } else {
                    arbitrary()
                },
        ),
    }
}

/// A subexpression, bound.
pub open spec fn bound_child(scope: Scope, c: Child) -> Child
    decreases c,
{
    Child { role: c.role, tree: bound(scope, c.tree) }
}

// ---------------------------------------------------------------------------------------------
// Looking names up.

/// The texts of a list of strings.
pub open spec fn texts(names: Seq<String>) -> Seq<Seq<char>> {
    names.map_values(|s: String| s@)
}

/// The first of `names` that is `wanted`, but for the case of ASCII letters.
pub fn find_name(names: &Vec<String>, wanted: &str) -> (r: Option<usize>)
    ensures
        match name_position(texts(names@), wanted@, 0) {
            Some(i) => r matches Some(k) && k == i && i < names@.len(),
            None => r is None,
        },
{
    let mut i: usize = 0;
    while i < names.len()
        invariant
            i <= names@.len(),
            name_position(texts(names@), wanted@, 0) == name_position(
                texts(names@),
                wanted@,
                i as nat,
            ),
        decreases names@.len() - i,
    {
        if names[i].as_str().eq_ignore_ascii_case(wanted) {
            return Some(i);
        }
        i += 1;
    }
    None
}

/// The first column that has a name, and it is `wanted`, but for the case of ASCII letters.
pub fn find_column(columns: &Vec<Column>, wanted: &str) -> (r: Option<usize>)
    ensures
        match column_position(columns@, wanted@, 0) {
            Some(i) => r matches Some(k) && k == i && i < columns@.len(),
            None => r is None,
        },
{
    let mut i: usize = 0;
    while i < columns.len()
        invariant
            i <= columns@.len(),
            column_position(columns@, wanted@, 0) == column_position(columns@, wanted@, i as nat),
        decreases columns@.len() - i,
    {
        if let Some(name) = &columns[i].name {
            if name.as_str().eq_ignore_ascii_case(wanted) {
                return Some(i);
            }
        }
        i += 1;
    }
    None
}

/// A table under the name it is known by in an expression.
#[derive(Debug, PartialEq, Eq)]
pub struct NamedTable {
    pub name: String,
    pub internal_id: TableInternalId,
    pub table: Arc<BTreeTable>,
}

/// What an expression can name of a table.
pub open spec fn table_scope(t: NamedTable) -> TableScope {
    TableScope { name: t.name@, internal_id: t.internal_id, columns: t.table.columns@ }
}

/// What an expression can name of some tables.
pub open spec fn table_scopes(tables: Seq<NamedTable>) -> Seq<TableScope> {
    tables.map_values(|t: NamedTable| table_scope(t))
}

/// The node that a found column is replaced by, if one was found.
pub open spec fn is_found(r: Option<Expr>, found: Option<ExprKind>) -> bool {
    match found {
        Some(kind) => r matches Some(e) && expr_kind(e) == kind && e is Column,
        None => r is None,
    }
}

/// The column `wanted` of the first table that has one; with `qualifier`, among the tables of
/// that name.
pub fn find_table_column(
    tables: &Vec<NamedTable>,
    qualifier: Option<&str>,
    wanted: &str,
) -> (r: Option<Expr>)
    ensures
        is_found(
            r,
            table_column(
                table_scopes(tables@),
                match qualifier {
                    Some(q) => Some(q@),
                    None => None,
                },
                wanted@,
                0,
            ),
        ),
{
    let ghost q = match qualifier {
        Some(q) => Some(q@),
        None => None,
    };
    let mut i: usize = 0;
    while i < tables.len()
        invariant
            i <= tables@.len(),
            q == (match qualifier {
                Some(q) => Some(q@),
                None => None,
            }),
            table_column(table_scopes(tables@), q, wanted@, 0) == table_column(
                table_scopes(tables@),
                q,
                wanted@,
                i as nat,
            ),
        decreases tables@.len() - i,
    {
        let t = &tables[i];
        let eligible = match qualifier {
            Some(name) => t.name.as_str().eq_ignore_ascii_case(name),
            None => true,
        };
        if eligible {
            if let Some(column) = find_column(&t.table.columns, wanted) {
                let is_rowid_alias = t.table.columns[column].is_rowid_alias;
                return Some(
                    Expr::Column { database: None, table: t.internal_id, column, is_rowid_alias },
                );
            }
        }
        i += 1;
    }
    None
}

/// Where the names of an expression are looked up.
pub enum Binder<'a> {
    /// The columns of a recursive common table expression.
    Cte { name: &'a str, columns: &'a Vec<String>, internal_id: TableInternalId },
    /// The columns of ordinary tables.
    Tables(&'a Vec<NamedTable>),
}

impl<'a> Binder<'a> {
    /// The scope that the names are looked up in.
    pub open spec fn scope(&self) -> Scope {
        match self {
            Binder::Cte { name, columns, internal_id } => Scope::Cte {
                name: name@,
                columns: texts(columns@),
                internal_id: *internal_id,
            },
            Binder::Tables(tables) => Scope::Tables(table_scopes(tables@)),
        }
    }

    /// The column that a normalized name stands for, if any.
    pub fn look_up(&self, qualifier: Option<&str>, wanted: &str) -> (r: Option<Expr>)
        ensures
            is_found(
                r,
                looked_up(
                    self.scope(),
                    match qualifier {
                        Some(q) => Some(q@),
                        None => None,
                    },
                    wanted@,
                ),
            ),
    {
        match self {
            Binder::Cte { name, columns, internal_id } => {
                let eligible = match qualifier {
                    Some(q) => q.eq_ignore_ascii_case(name),
                    None => true,
                };
                if !eligible {
                    return None;
                }
                match find_name(columns, wanted) {
                    Some(column) => Some(
                        Expr::Column {
                            database: None,
                            table: *internal_id,
                            column,
                            is_rowid_alias: false,
                        },
                    ),
                    None => None,
                }
            },
            Binder::Tables(tables) => find_table_column(tables, qualifier, wanted),
        }
    }

    /// The column that an expression stands for, if it is a column name that the scope knows.
    fn resolve(&self, expr: &Expr) -> (r: Option<Expr>)
        ensures
            is_found(r, resolved(self.scope(), expr@.kind)),
            r is Some ==> expr@.children.len() == 0,
    {
        match expr {
            Expr::Id(name) => {
                let wanted = normalize_ident(name.as_str());
                self.look_up(None, wanted.as_str())
            },
            Expr::Qualified(table, name) => {
                let qualifier = normalize_ident(table.as_str());
                let wanted = normalize_ident(name.as_str());
                self.look_up(Some(qualifier.as_str()), wanted.as_str())
            },
            _ => None,
        }
    }
}

/// Replaces every column name that the binder knows by the column.
fn bind_columns_in_expr(expr: &mut Expr, binder: &Binder)
    ensures
        final(expr)@ == bound(binder.scope(), old(expr)@),
    decreases old(expr)@,
{
    let ghost scope = binder.scope();
    let ghost before = expr@;
    match binder.resolve(expr) {
        Some(column) => {
            *expr = column;
            assert(expr@.children =~= bound(scope, before).children);
        },
        None => {
            let n = expr.child_count();
            let mut i: u128 = 0;
            while i < n
                invariant
                    before == old(expr)@,
                    scope == binder.scope(),
                    resolved(scope, before.kind) is None,
                    i <= n == before.children.len(),
                    expr@.kind == before.kind,
                    expr@.children.len() == n,
                    forall|j: int|
                        0 <= j < i ==> #[trigger] expr@.children[j] == bound_child(
                            scope,
                            before.children[j],
                        ),
                    forall|j: int|
                        i <= j < n ==> #[trigger] expr@.children[j] == before.children[j],
                decreases n - i,
            {
                assert(decreases_to!(before => before.children[i as int].tree));
                bind_columns_in_expr(expr.child_mut(i), binder);
                i += 1;
            }
            assert(expr@.children =~= bound(scope, before).children);
        },
    }
}

/// Binds the references to columns of a common table expression, wherever in the expression they
/// stand: a column name, alone or qualified by the name of the expression, becomes the column of
/// the table `internal_id`.
pub fn bind_cte_columns_in_expr(
    expr: &mut Expr,
    cte_name: &str,
    column_names: &Vec<String>,
    internal_id: TableInternalId,
)
    ensures
        final(expr)@ == bound(
            Scope::Cte { name: cte_name@, columns: texts(column_names@), internal_id },
            old(expr)@,
        ),
{
    let binder = Binder::Cte { name: cte_name, columns: column_names, internal_id };
    bind_columns_in_expr(expr, &binder);
}

/// Binds the references to columns of ordinary tables, wherever in the expression they stand: a
/// column name, alone or qualified by the name of a table, becomes the column of the first table
/// that has it.
pub fn bind_table_columns_in_expr(expr: &mut Expr, tables: &Vec<NamedTable>)
    ensures
        final(expr)@ == bound(Scope::Tables(table_scopes(tables@)), old(expr)@),
{
    let binder = Binder::Tables(tables);
    bind_columns_in_expr(expr, &binder);
}

} // verus!
