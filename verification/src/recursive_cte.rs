//! Recursive common table expressions.
//!
//! The anchor gives the first rows. Then, round after round, the recursive member makes new rows
//! out of those of the last round, until there are none or the limit is reached.
use crate::ast::{leaf, Expr, ExprTree, Name, TableInternalId};
use crate::bind::{
    bind_cte_columns_in_expr, bind_table_columns_in_expr, bound, column_kind, table_scopes, texts,
    NamedTable, Scope, TableScope,
};
use crate::compiler::{
    emits_query, schema_table, translates_condition, translates_expr, ConditionMetadata,
    JoinedTableView, Resolver, ResolverView, Schema, SchemaTable, SelectCompiler,
    TableReferencesView, TranslateCtx,
};
use crate::copy::copy_expr;
use crate::cte_code::{
    anchor_closed, anchor_destination, anchor_here, anchor_opened, close_anchor, cte_layout,
    cte_loop, enter_loop, ephemeral_table, finish_loop, loop_entered, loop_finished,
    loop_label_count, open_anchor, open_tables, other_columns, other_of, tables_opened, Anchor,
    CteLayout, CteLoop, OtherTable,
};
use crate::plan::{
    default_scan, ColumnUsedMask, FromClause, JoinConstraint, JoinedSelectTable, JoinedTable,
    OneSelect, Operation, QueryDestination, RecursiveCte, ResultColumn, SelectPlan, SelectTable,
    Table, TableReferences,
};
use crate::plan_copy::{copy_plan, directed, directed_plan, trees_of};
use crate::program::{
    capacity_error, out_of_capacity, outcome, parse_error, BranchOffset, CursorType, CursorTypeView,
    ErrorView, LimboError, ProgramBuilder, ProgramView,
};
use crate::schema::{copy_columns, share, BTreeTable, Column};
use crate::text::{joined, lowercase, normalize_ident, same_name};
use std::sync::Arc;
use vstd::prelude::*;

verus! {

// ---------------------------------------------------------------------------------------------
// The tables of the recursive member.

/// The tables of a `FROM` clause, from left to right.
pub open spec fn from_tables(from: Option<FromClause>) -> Seq<SelectTable> {
    match from {
        Some(from) => seq![from.select] + from.joins@.map_values(
            |join: JoinedSelectTable| join.table,
        ),
        None => seq![],
    }
}

/// How far the tables of a recursive member are looked up.
pub struct Lookup {
    pub program: ProgramView,
    pub others: Seq<OtherTable>,
    pub error: Option<ErrorView>,
}

/// The message for a table that cannot be read in a recursive member.
pub open spec fn not_a_regular_table(name: Seq<char>) -> ErrorView {
    ErrorView::ParseError("Table '"@ + name + "' in recursive member must be a regular table"@)
}

/// The message for a table that there is not.
pub open spec fn no_such_table(name: Seq<char>) -> ErrorView {
    ErrorView::ParseError("no such table: "@ + name)
}

/// A table goes by the name of the expression itself.
pub open spec fn is_itself(name: Name, cte_name: Seq<char>) -> bool {
    same_name(lowercase(name.value@), cte_name)
}

/// One more table is looked up. The expression itself needs no looking up, and what is not named
/// has nothing to look up; any other table takes a number and a cursor.
pub open spec fn table_looked_up(
    schema: Schema,
    cte_name: Seq<char>,
    so_far: Lookup,
    table: SelectTable,
) -> Lookup {
    match table {
        SelectTable::Other => so_far,
        SelectTable::Table { name, .. } => {
            if is_itself(name, cte_name) {
                so_far
            } else {
                let name = lowercase(name.value@);
                match schema_table(schema.tables@, name, 0) {
                    None => Lookup { error: Some(no_such_table(name)), ..so_far },
                    Some(SchemaTable::Other) => Lookup {
                        error: Some(not_a_regular_table(name)),
                        ..so_far
                    },
                    Some(SchemaTable::BTree(table)) => {
                        if !so_far.program.has_room(0, 0, 1) {
                            Lookup { error: Some(out_of_capacity()), ..so_far }
                        } else {
                            Lookup {
                                program: so_far.program.with_table_id().with_cursor(
                                    None,
                                    CursorTypeView::BTreeTable((*table)@),
                                ),
                                others: so_far.others.push(
                                    OtherTable {
                                        name,
                                        table: *table,
                                        internal_id: so_far.program.table_id(),
                                        cursor_id: so_far.program.cursor(),
                                    },
                                ),
                                ..so_far
                            }
                        }
                    },
                }
            }
        },
    }
}

/// The tables are looked up from left to right, until one fails.
pub open spec fn tables_looked_up(
    schema: Schema,
    cte_name: Seq<char>,
    p: ProgramView,
    tables: Seq<SelectTable>,
) -> Lookup
    decreases tables.len(),
{
    if tables.len() == 0 {
        Lookup { program: p, others: seq![], error: None }
    } else {
        let so_far = tables_looked_up(schema, cte_name, p, tables.drop_last());
        if so_far.error is Some {
            so_far
        } else {
            table_looked_up(schema, cte_name, so_far, tables.last())
        }
    }
}

/// A failure stays.
pub proof fn lookup_failed(
    schema: Schema,
    cte_name: Seq<char>,
    p: ProgramView,
    tables: Seq<SelectTable>,
    n: int,
)
    requires
        0 <= n <= tables.len(),
        tables_looked_up(schema, cte_name, p, tables.take(n)).error is Some,
    ensures
        tables_looked_up(schema, cte_name, p, tables) == tables_looked_up(
            schema,
            cte_name,
            p,
            tables.take(n),
        ),
    decreases tables.len() - n,
{
    if n == tables.len() {
        assert(tables.take(n) =~= tables);
    } else {
        assert(tables.take(n + 1).drop_last() =~= tables.take(n));
        lookup_failed(schema, cte_name, p, tables, n + 1);
    }
}

/// The tables of a recursive member other than the expression itself, with their cursors.
#[derive(Debug, PartialEq, Eq)]
pub struct OtherTables {
    pub tables: Vec<NamedTable>,
    pub cursors: Vec<usize>,
}

/// A table with its cursor.
pub open spec fn other_table(t: NamedTable, cursor_id: usize) -> OtherTable {
    OtherTable { name: t.name@, table: *t.table, internal_id: t.internal_id, cursor_id }
}

impl View for OtherTables {
    type V = Seq<OtherTable>;

    open spec fn view(&self) -> Seq<OtherTable> {
        Seq::new(self.tables@.len(), |i: int| other_table(self.tables@[i], self.cursors@[i]))
    }
}

impl OtherTables {
    /// There is a cursor for each table.
    pub open spec fn is_valid(self) -> bool {
        self.cursors@.len() == self.tables@.len()
    }

    /// The first table.
    pub fn first(&self) -> (r: Option<(&NamedTable, usize)>)
        requires
            self.is_valid(),
        ensures
            other_of(r) == first_other(self@),
            r is Some == (self@.len() > 0),
            r matches Some((t, _)) ==> *t == self.tables@[0],
    {
        if self.tables.len() > 0 {
            Some((&self.tables[0], self.cursors[0]))
        } else {
            None
        }
    }
}

/// The first of the other tables.
pub open spec fn first_other(others: Seq<OtherTable>) -> Option<OtherTable> {
    if others.len() > 0 {
        Some(others[0])
    } else {
        None
    }
}

/// Looks up one more table of a recursive member.
fn look_up_table(
    program: &mut ProgramBuilder,
    schema: &Schema,
    cte_name: &str,
    table: &SelectTable,
    others: &mut OtherTables,
) -> (r: Result<(), LimboError>)
    requires
        old(others).is_valid(),
    ensures
        final(others).is_valid(),
        table_looked_up(
            *schema,
            cte_name@,
            (Lookup { program: old(program)@, others: old(others)@, error: None }),
            *table,
        ) == (Lookup {
            program: final(program)@,
            others: final(others)@,
            error: match r {
                Ok(_) => None,
                Err(e) => Some(e@),
            },
        }),
{
    match table {
        SelectTable::Other => Ok(()),
        SelectTable::Table { name, .. } => {
            let name = normalize_ident(name.as_str());
            if name.as_str().eq_ignore_ascii_case(cte_name) {
                return Ok(());
            }
            match schema.get_table(&name) {
                None => Err(parse_error(joined("no such table: ", name.as_str()).as_str())),
                Some(SchemaTable::Other) => {
                    let mut message = joined("Table '", name.as_str());
                    message.append("' in recursive member must be a regular table");
                    Err(parse_error(message.as_str()))
                },
                Some(SchemaTable::BTree(table)) => {
                    if !program.has_room(0, 0, 1) {
                        return Err(capacity_error());
                    }
                    let internal_id = program.next_table_reference();
                    let cursor_id = program.alloc_cursor_id(CursorType::BTreeTable(share(table)));
                    let ghost own_name = name@;
                    others.tables.push(NamedTable { name, internal_id, table: share(table) });
                    others.cursors.push(cursor_id);
                    assert(others@ =~= old(others)@.push(
                        OtherTable { name: own_name, table: **table, internal_id, cursor_id },
                    ));
                    Ok(())
                },
            }
        },
    }
}

/// Looks up the tables of a recursive member other than the expression itself.
pub fn look_up_tables(
    program: &mut ProgramBuilder,
    schema: &Schema,
    cte_name: &str,
    from: &Option<FromClause>,
) -> (r: Result<OtherTables, LimboError>)
    ensures
        ({
            let found = tables_looked_up(*schema, cte_name@, old(program)@, from_tables(*from));
            &&& final(program)@ == found.program
            &&& match r {
                Ok(others) => {
                    &&& others.is_valid()
                    &&& others@ == found.others
                    &&& found.error is None
                },
                Err(e) => found.error == Some(e@),
            }
        }),
{
    let mut others = OtherTables { tables: Vec::new(), cursors: Vec::new() };
    assert(others@ =~= seq![]);
    let ghost first = program@;
    if let Some(clause) = from {
        let ghost tables = from_tables(*from);
        let found = look_up_table(program, schema, cte_name, &clause.select, &mut others);
        proof {
            assert(tables.take(1).drop_last() =~= seq![]);
            assert(tables_looked_up(*schema, cte_name@, first, seq![]).others =~= seq![]);
        }
        match found {
            Ok(_) => {},
            Err(e) => {
                proof {
                    lookup_failed(*schema, cte_name@, first, tables, 1);
                }
                return Err(e);
            },
        }
        let mut i: usize = 0;
        while i < clause.joins.len()
            invariant
                i <= clause.joins@.len(),
                *from == Some(*clause),
                first == old(program)@,
                tables == from_tables(*from),
                others.is_valid(),
                tables_looked_up(*schema, cte_name@, first, tables.take(i + 1)) == (Lookup {
                    program: program@,
                    others: others@,
                    error: None,
                }),
            decreases clause.joins@.len() - i,
        {
            proof {
                assert(tables.take(i + 2).drop_last() =~= tables.take(i + 1));
            }
            let found = look_up_table(
                program,
                schema,
                cte_name,
                &clause.joins[i].table,
                &mut others,
            );
            match found {
                Ok(_) => {},
                Err(e) => {
                    proof {
                        lookup_failed(*schema, cte_name@, first, tables, i + 2);
                    }
                    return Err(e);
                },
            }
            i += 1;
        }
        assert(tables.take(i + 1) =~= tables);
    }
    Ok(others)
}

// ---------------------------------------------------------------------------------------------
// The expressions of the recursive member.

/// The names of the columns; a column without a name has the empty one.
pub open spec fn column_names(columns: Seq<Column>) -> Seq<Seq<char>> {
    columns.map_values(
        |c: Column|
            match c.name {
                Some(name) => name@,
                None => seq![],
            },
    )
}

fn get_column_names(columns: &Vec<Column>) -> (r: Vec<String>)
    ensures
        texts(r@) == column_names(columns@),
{
    let mut r: Vec<String> = Vec::new();
    let mut i: usize = 0;
    while i < columns.len()
        invariant
            i <= columns@.len(),
            r@.len() == i,
            forall|j: int| 0 <= j < i ==> (#[trigger] r@[j])@ == column_names(columns@)[j],
        decreases columns@.len() - i,
    {
        let name = match &columns[i].name {
            Some(name) => name.clone(),
            None => String::new(),
        };
        assert(name@ =~= column_names(columns@)[i as int]);
        r.push(name);
        i += 1;
    }
    assert(texts(r@) =~= column_names(columns@));
    r
}

/// The columns of the expression itself, under a name it goes by.
pub open spec fn cte_scope(
    cte: RecursiveCte,
    name: Seq<char>,
    internal_id: TableInternalId,
) -> Scope {
    Scope::Cte { name, columns: column_names(cte.columns@), internal_id }
}

/// The columns of the other tables.
pub open spec fn others_scope(others: Seq<OtherTable>) -> Scope {
    Scope::Tables(
        others.map_values(
            |o: OtherTable|
                TableScope {
                    name: o.name,
                    internal_id: o.internal_id,
                    columns: o.table.columns@,
                },
        ),
    )
}

/// The columns of a table of the recursive member under its alias, if it has one. There is at
/// most one other table, so that a named table is either that or the expression itself.
pub open spec fn alias_scope(
    cte: RecursiveCte,
    internal_id: TableInternalId,
    others: Seq<OtherTable>,
    table: SelectTable,
) -> Option<Scope> {
    match table {
        SelectTable::Table { name, alias: Some(alias), .. } => {
            let known_as = lowercase(alias.value@);
            if is_itself(name, cte.name@) {
                Some(cte_scope(cte, known_as, internal_id))
            } else if others.len() > 0 {
                Some(others_scope(seq![OtherTable { name: known_as, ..others[0] }]))
            } else {
                None
            }
        },
        _ => None,
    }
}

/// An expression of the recursive member, bound under the aliases of the tables, from left to
/// right.
pub open spec fn bound_by_aliases(
    cte: RecursiveCte,
    internal_id: TableInternalId,
    others: Seq<OtherTable>,
    tables: Seq<SelectTable>,
    t: ExprTree,
) -> ExprTree
    decreases tables.len(),
{
    if tables.len() == 0 {
        t
    } else {
        let so_far = bound_by_aliases(cte, internal_id, others, tables.drop_last(), t);
        match alias_scope(cte, internal_id, others, tables.last()) {
            Some(scope) => bound(scope, so_far),
            None => so_far,
        }
    }
}

/// An expression of the recursive member, bound to the columns of the expression itself first,
/// then to those of the other tables, each under its own name. What is left may go by an alias.
pub open spec fn bound_in_member(
    cte: RecursiveCte,
    internal_id: TableInternalId,
    others: Seq<OtherTable>,
    tables: Seq<SelectTable>,
    t: ExprTree,
) -> ExprTree {
    bound_by_aliases(
        cte,
        internal_id,
        others,
        tables,
        bound(others_scope(others), bound(cte_scope(cte, cte.name@, internal_id), t)),
    )
}

/// Binds an expression of the recursive member under the alias of a table.
fn bind_by_alias(
    expr: &mut Expr,
    cte: &RecursiveCte,
    names: &Vec<String>,
    internal_id: TableInternalId,
    others: &OtherTables,
    table: &SelectTable,
)
    requires
        texts(names@) == column_names(cte.columns@),
        others.is_valid(),
    ensures
        final(expr)@ == match alias_scope(*cte, internal_id, others@, *table) {
            Some(scope) => bound(scope, old(expr)@),
            None => old(expr)@,
        },
{
    if let SelectTable::Table { name, alias: Some(alias), .. } = table {
        let known_as = normalize_ident(alias.as_str());
        if normalize_ident(name.as_str()).as_str().eq_ignore_ascii_case(cte.name.as_str()) {
            bind_cte_columns_in_expr(expr, known_as.as_str(), names, internal_id);
        } else if let Some((other, _)) = others.first() {
            let ghost renamed = OtherTable { name: known_as@, ..others@[0] };
            let mut tables: Vec<NamedTable> = Vec::new();
            tables.push(
                NamedTable {
                    name: known_as,
                    internal_id: other.internal_id,
                    table: share(&other.table),
                },
            );
            bind_table_columns_in_expr(expr, &tables);
            proof {
                let scope = others_scope(seq![renamed]);
                assert(scope->Tables_0 =~= table_scopes(tables@));
            }
        }
    }
}

fn bind_in_member(
    expr: &Expr,
    cte: &RecursiveCte,
    names: &Vec<String>,
    internal_id: TableInternalId,
    others: &OtherTables,
    from: &Option<FromClause>,
) -> (r: Expr)
    requires
        texts(names@) == column_names(cte.columns@),
        others.is_valid(),
    ensures
        r@ == bound_in_member(*cte, internal_id, others@, from_tables(*from), expr@),
{
    let mut r = copy_expr(expr);
    bind_cte_columns_in_expr(&mut r, cte.name.as_str(), names, internal_id);
    bind_table_columns_in_expr(&mut r, &others.tables);
    proof {
        let scope = others_scope(others@);
        assert(scope->Tables_0 =~= table_scopes(others.tables@));
    }
    if let Some(clause) = from {
        let ghost tables = from_tables(*from);
        let ghost plain = r@;
        proof {
            assert(tables.take(1).drop_last() =~= seq![]);
            assert(bound_by_aliases(*cte, internal_id, others@, seq![], plain) == plain);
        }
        bind_by_alias(&mut r, cte, names, internal_id, others, &clause.select);
        let mut i: usize = 0;
        while i < clause.joins.len()
            invariant
                i <= clause.joins@.len(),
                *from == Some(*clause),
                tables == from_tables(*from),
                texts(names@) == column_names(cte.columns@),
                others.is_valid(),
                r@ == bound_by_aliases(*cte, internal_id, others@, tables.take(i + 1), plain),
            decreases clause.joins@.len() - i,
        {
            proof {
                assert(tables.take(i + 2).drop_last() =~= tables.take(i + 1));
            }
            bind_by_alias(&mut r, cte, names, internal_id, others, &clause.joins[i].table);
            i += 1;
        }
        assert(tables.take(i + 1) =~= tables);
    }
    r
}

/// A result column of the recursive member is `*`.
pub open spec fn has_star(columns: Seq<ResultColumn>) -> bool {
    exists|i: int| 0 <= i < columns.len() && !(#[trigger] columns[i] is Expr)
}

/// The result columns of the recursive member, bound.
pub open spec fn bound_columns(
    cte: RecursiveCte,
    internal_id: TableInternalId,
    others: Seq<OtherTable>,
    tables: Seq<SelectTable>,
    columns: Seq<ResultColumn>,
) -> Seq<ExprTree> {
    Seq::new(
        columns.len(),
        |i: int| bound_in_member(cte, internal_id, others, tables, (*columns[i]->Expr_0)@),
    )
}

/// The message for a recursive member with a `*`.
pub open spec fn star_in_member() -> ErrorView {
    ErrorView::ParseError("Recursive member cannot use *"@)
}

/// Binds the result columns of the recursive member.
pub fn bind_result_columns(
    columns: &Vec<ResultColumn>,
    cte: &RecursiveCte,
    names: &Vec<String>,
    internal_id: TableInternalId,
    others: &OtherTables,
    from: &Option<FromClause>,
) -> (r: Result<Vec<Expr>, LimboError>)
    requires
        texts(names@) == column_names(cte.columns@),
        others.is_valid(),
    ensures
        match r {
            Ok(exprs) => !has_star(columns@) && trees_of(exprs@) == bound_columns(
                *cte,
                internal_id,
                others@,
                from_tables(*from),
                columns@,
            ),
            Err(e) => has_star(columns@) && e@ == star_in_member(),
        },
{
    let mut exprs: Vec<Expr> = Vec::new();
    let mut i: usize = 0;
    while i < columns.len()
        invariant
            i <= columns@.len(),
            exprs@.len() == i,
            texts(names@) == column_names(cte.columns@),
            others.is_valid(),
            forall|j: int| 0 <= j < i ==> #[trigger] columns@[j] is Expr,
            forall|j: int|
                0 <= j < i ==> (#[trigger] exprs@[j])@ == bound_columns(
                    *cte,
                    internal_id,
                    others@,
                    from_tables(*from),
                    columns@,
                )[j],
        decreases columns@.len() - i,
    {
        match &columns[i] {
            ResultColumn::Expr(expr) => {
                exprs.push(bind_in_member(expr, cte, names, internal_id, others, from));
            },
            _ => {
                return Err(parse_error("Recursive member cannot use *"));
            },
        }
        i += 1;
    }
    assert(trees_of(exprs@) =~= bound_columns(
        *cte,
        internal_id,
        others@,
        from_tables(*from),
        columns@,
    ));
    Ok(exprs)
}

/// The `ON` conditions of joins, from left to right.
pub open spec fn on_conditions(joins: Seq<JoinedSelectTable>) -> Seq<ExprTree>
    decreases joins.len(),
{
    if joins.len() == 0 {
        seq![]
    } else {
        let earlier = on_conditions(joins.drop_last());
        match joins.last().constraint {
            Some(JoinConstraint::On(condition)) => earlier.push((*condition)@),
            _ => earlier,
        }
    }
}

/// What has to hold of the rows that a new row is made of: the `ON` conditions, then the `WHERE`
/// condition.
pub open spec fn member_conditions(
    from: Option<FromClause>,
    where_clause: Option<Box<Expr>>,
) -> Seq<ExprTree> {
    let joined = match from {
        Some(from) => on_conditions(from.joins@),
        None => seq![],
    };
    match where_clause {
        Some(condition) => joined.push((*condition)@),
        None => joined,
    }
}

/// The conditions of the recursive member, bound.
pub open spec fn bound_conditions(
    cte: RecursiveCte,
    internal_id: TableInternalId,
    others: Seq<OtherTable>,
    tables: Seq<SelectTable>,
    conditions: Seq<ExprTree>,
) -> Seq<ExprTree> {
    conditions.map_values(|t: ExprTree| bound_in_member(cte, internal_id, others, tables, t))
}

/// Binds one more condition of the recursive member.
fn bind_condition(
    condition: &Expr,
    cte: &RecursiveCte,
    names: &Vec<String>,
    internal_id: TableInternalId,
    others: &OtherTables,
    from: &Option<FromClause>,
    r: &mut Vec<Expr>,
    Ghost(so_far): Ghost<Seq<ExprTree>>,
)
    requires
        texts(names@) == column_names(cte.columns@),
        others.is_valid(),
        trees_of(old(r)@) == bound_conditions(
            *cte,
            internal_id,
            others@,
            from_tables(*from),
            so_far,
        ),
    ensures
        trees_of(final(r)@) == bound_conditions(
            *cte,
            internal_id,
            others@,
            from_tables(*from),
            so_far.push(condition@),
        ),
{
    let ghost before = r@;
    let expr = bind_in_member(condition, cte, names, internal_id, others, from);
    r.push(expr);
    proof {
        let tables = from_tables(*from);
        let bound_so_far = bound_conditions(*cte, internal_id, others@, tables, so_far);
        assert(trees_of(r@) =~= trees_of(before).push(expr@));
        assert(bound_conditions(*cte, internal_id, others@, tables, so_far.push(condition@))
            =~= bound_so_far.push(expr@));
    }
}

/// Binds the conditions of the recursive member.
pub fn bind_conditions(
    from: &Option<FromClause>,
    where_clause: &Option<Box<Expr>>,
    cte: &RecursiveCte,
    names: &Vec<String>,
    internal_id: TableInternalId,
    others: &OtherTables,
) -> (r: Vec<Expr>)
    requires
        texts(names@) == column_names(cte.columns@),
        others.is_valid(),
    ensures
        trees_of(r@) == bound_conditions(
            *cte,
            internal_id,
            others@,
            from_tables(*from),
            member_conditions(*from, *where_clause),
        ),
{
    let mut r: Vec<Expr> = Vec::new();
    let ghost tables = from_tables(*from);
    let ghost mut so_far: Seq<ExprTree> = seq![];
    assert(trees_of(r@) =~= bound_conditions(*cte, internal_id, others@, tables, so_far));
    if let Some(clause) = from {
        let joins = &clause.joins;
        let mut i: usize = 0;
        assert(joins@.take(0) =~= seq![]);
        while i < joins.len()
            invariant
                i <= joins@.len(),
                texts(names@) == column_names(cte.columns@),
                others.is_valid(),
                so_far == on_conditions(joins@.take(i as int)),
                tables == from_tables(*from),
                trees_of(r@) == bound_conditions(*cte, internal_id, others@, tables, so_far),
            decreases joins@.len() - i,
        {
            assert(joins@.take(i + 1).drop_last() =~= joins@.take(i as int));
            if let Some(JoinConstraint::On(condition)) = &joins[i].constraint {
                bind_condition(
                    condition,
                    cte,
                    names,
                    internal_id,
                    others,
                    from,
                    &mut r,
                    Ghost(so_far),
                );
            }
            i += 1;
            proof {
                so_far = on_conditions(joins@.take(i as int));
            }
        }
        assert(joins@.take(i as int) =~= joins@);
    }
    if let Some(condition) = where_clause {
        bind_condition(
            condition,
            cte,
            names,
            internal_id,
            others,
            from,
            &mut r,
            Ghost(so_far),
        );
    }
    r
}

/// A table of the recursive member, read as a whole.
pub open spec fn scanned(
    table: Table,
    identifier: Seq<char>,
    internal_id: TableInternalId,
) -> JoinedTableView {
    JoinedTableView {
        op: default_scan(table),
        table,
        identifier,
        internal_id,
        col_used_mask: Set::empty(),
        utilizes_covering_index: false,
        database_id: 0,
    }
}

fn scan(table: Table, identifier: String, internal_id: TableInternalId) -> (r: JoinedTable)
    ensures
        r@ == scanned(table, identifier@, internal_id),
{
    JoinedTable {
        op: Operation::default_scan_for(&table),
        table,
        identifier,
        internal_id,
        col_used_mask: ColumnUsedMask::default(),
        utilizes_covering_index: false,
        database_id: 0,
    }
}

/// The tables that the conditions of the recursive member can refer to: the expression itself,
/// without the plan of its anchor, and the other tables.
pub open spec fn member_tables(
    cte: RecursiveCte,
    internal_id: TableInternalId,
    others: Seq<OtherTable>,
) -> TableReferencesView {
    let expression = scanned(
        Table::RecursiveCte(Arc::new(RecursiveCte { anchor_plan: None, ..cte })),
        cte.name@,
        internal_id,
    );
    TableReferencesView {
        joined_tables: seq![expression] + others.map_values(
            |o: OtherTable| scanned(Table::BTree(Arc::new(o.table)), o.name, o.internal_id),
        ),
        outer_query_refs: seq![],
    }
}

/// The tables that the conditions of the recursive member can refer to.
pub fn get_member_tables(
    cte: &RecursiveCte,
    internal_id: TableInternalId,
    others: &OtherTables,
) -> (r: TableReferences)
    requires
        others.is_valid(),
    ensures
        r@ == member_tables(*cte, internal_id, others@),
{
    let mut joined_tables: Vec<JoinedTable> = Vec::new();
    joined_tables.push(
        scan(
            Table::RecursiveCte(
                Arc::new(
                    RecursiveCte {
                        name: cte.name.clone(),
                        columns: share(&cte.columns),
                        recursive_member: share(&cte.recursive_member),
                        anchor_plan: None,
                    },
                ),
            ),
            cte.name.clone(),
            internal_id,
        ),
    );
    let ghost wanted = member_tables(*cte, internal_id, others@);
    let mut i: usize = 0;
    while i < others.tables.len()
        invariant
            i <= others.tables@.len(),
            others.is_valid(),
            wanted == member_tables(*cte, internal_id, others@),
            joined_tables@.len() == i + 1,
            forall|j: int|
                0 <= j <= i ==> (#[trigger] joined_tables@[j])@ == wanted.joined_tables[j],
        decreases others.tables@.len() - i,
    {
        let t = &others.tables[i];
        joined_tables.push(scan(Table::BTree(share(&t.table)), t.name.clone(), t.internal_id));
        i += 1;
    }
    let r = TableReferences { joined_tables, outer_query_refs: Vec::new() };
    assert(r@.joined_tables =~= wanted.joined_tables);
    assert(r@.outer_query_refs =~= seq![]);
    r
}

// ---------------------------------------------------------------------------------------------
// Columns that are in registers.

/// The first `n` columns of the row at hand, with their registers.
pub open spec fn row_cache(
    internal_id: TableInternalId,
    first: usize,
    n: nat,
) -> Seq<(ExprTree, usize)> {
    Seq::new(
        n,
        |i: int| (leaf(column_kind(internal_id, i as nat, false)), (first + i) as usize),
    )
}

/// The first `n` columns of an ordinary table, with their registers.
pub open spec fn table_cache(
    internal_id: TableInternalId,
    columns: Seq<Column>,
    first: usize,
    n: nat,
) -> Seq<(ExprTree, usize)> {
    Seq::new(
        n,
        |i: int|
            (
                leaf(column_kind(internal_id, i as nat, columns[i].is_rowid_alias)),
                (first + i) as usize,
            ),
    )
}

/// The resolver that finds the columns of the row at hand, and those of the other table, in
/// their registers.
pub open spec fn member_resolver(
    resolver: ResolverView,
    internal_id: TableInternalId,
    l: CteLayout,
    k: CteLoop,
    other: Option<OtherTable>,
) -> ResolverView {
    ResolverView {
        schema: resolver.schema,
        expr_to_reg_cache_enabled: true,
        expr_to_reg_cache: resolver.expr_to_reg_cache + row_cache(
            internal_id,
            l.row,
            l.columns as nat,
        ) + match (other, k.other) {
            (Some(other), Some(other_loop)) => table_cache(
                other.internal_id,
                other.table.columns@,
                other_loop.columns,
                other.table.columns@.len(),
            ),
            _ => seq![],
        },
    }
}

/// A column that is already bound.
fn bound_column(table: TableInternalId, column: usize, is_rowid_alias: bool) -> (r: Expr)
    ensures
        r@ == leaf(column_kind(table, column as nat, is_rowid_alias)),
{
    let r = Expr::Column { database: None, table, column, is_rowid_alias };
    assert(r@.children =~= leaf(column_kind(table, column as nat, is_rowid_alias)).children);
    r
}

/// The resolver that finds columns in their registers.
pub fn get_member_resolver(
    resolver: &Resolver,
    internal_id: TableInternalId,
    l: CteLayout,
    k: CteLoop,
    other: Option<(&NamedTable, usize)>,
) -> (r: Resolver)
    requires
        l.is_valid(),
        match (other, k.other) {
            (Some((t, _)), Some(other_loop)) => other_loop.columns + t.table.columns@.len()
                <= usize::MAX,
            _ => true,
        },
    ensures
        r@ == member_resolver(resolver@, internal_id, l, k, other_of(other)),
{
    let mut r = resolver.clone();
    r.enable_expr_to_reg_cache();
    let ghost first = resolver@.expr_to_reg_cache;
    assert(r@.expr_to_reg_cache =~= first + row_cache(internal_id, l.row, 0));
    let mut i: usize = 0;
    while i < l.columns
        invariant
            l.is_valid(),
            i <= l.columns,
            r@.schema == resolver@.schema,
            r@.expr_to_reg_cache_enabled,
            r@.expr_to_reg_cache == first + row_cache(internal_id, l.row, i as nat),
        decreases l.columns - i,
    {
        r.cache_expr_reg(bound_column(internal_id, i, false), l.row + i);
        i += 1;
        assert(r@.expr_to_reg_cache =~= first + row_cache(internal_id, l.row, i as nat));
    }
    let ghost second = r@.expr_to_reg_cache;
    if let (Some((t, _)), Some(other_loop)) = (other, k.other) {
        let columns = &t.table.columns;
        assert(r@.expr_to_reg_cache =~= second + table_cache(
            t.internal_id,
            columns@,
            other_loop.columns,
            0,
        ));
        let mut j: usize = 0;
        while j < columns.len()
            invariant
                j <= columns@.len(),
                other_loop.columns + columns@.len() <= usize::MAX,
                r@.schema == resolver@.schema,
                r@.expr_to_reg_cache_enabled,
                r@.expr_to_reg_cache == second + table_cache(
                    t.internal_id,
                    columns@,
                    other_loop.columns,
                    j as nat,
                ),
            decreases columns@.len() - j,
        {
            r.cache_expr_reg(
                bound_column(t.internal_id, j, columns[j].is_rowid_alias),
                other_loop.columns + j,
            );
            j += 1;
            assert(r@.expr_to_reg_cache =~= second + table_cache(
                t.internal_id,
                columns@,
                other_loop.columns,
                j as nat,
            ));
        }
    }
    assert(r@.expr_to_reg_cache =~= member_resolver(
        resolver@,
        internal_id,
        l,
        k,
        other_of(other),
    ).expr_to_reg_cache);
    r
}

// ---------------------------------------------------------------------------------------------
// The recursive member.

/// A point between two steps of the translation.
pub open spec fn reached(p: ProgramView, so_far: Result<(), ErrorView>) -> bool {
    true
}

/// Where the condition of the recursive member leads: on to the next rows unless it holds.
pub open spec fn unless_it_holds(next: BranchOffset) -> ConditionMetadata {
    ConditionMetadata {
        jump_if_condition_is_true: false,
        jump_target_when_true: next,
        jump_target_when_false: next,
        jump_target_when_null: next,
    }
}

/// The conditions of the recursive member are translated one after the other, until one fails.
pub open spec fn conditions_translated<C: SelectCompiler>(
    c: C,
    before: ProgramView,
    tables: TableReferencesView,
    conditions: Seq<ExprTree>,
    next: BranchOffset,
    resolver: ResolverView,
    after: ProgramView,
    result: Result<(), ErrorView>,
) -> bool
    decreases conditions.len(),
{
    if conditions.len() == 0 {
        after == before && result == Ok::<(), ErrorView>(())
    } else {
        exists|mid: ProgramView, r: Result<(), ErrorView>|
            {
                &&& #[trigger] reached(mid, r)
                &&& conditions_translated(
                    c,
                    before,
                    tables,
                    conditions.drop_last(),
                    next,
                    resolver,
                    mid,
                    r,
                )
                &&& match r {
                    Err(_) => after == mid && result == r,
                    Ok(_) => exists|reply: Result<(), LimboError>| #[trigger]
                        translates_condition(
                            c,
                            mid,
                            tables,
                            conditions.last(),
                            unless_it_holds(next),
                            resolver,
                            after,
                            reply,
                        ) && result == outcome(reply),
                }
            }
    }
}

/// What comes after a failure does not matter.
proof fn condition_failed<C: SelectCompiler>(
    c: C,
    before: ProgramView,
    tables: TableReferencesView,
    conditions: Seq<ExprTree>,
    next: BranchOffset,
    resolver: ResolverView,
    after: ProgramView,
    error: ErrorView,
    n: int,
)
    requires
        0 <= n <= conditions.len(),
        conditions_translated(
            c,
            before,
            tables,
            conditions.take(n),
            next,
            resolver,
            after,
            Err(error),
        ),
    ensures
        conditions_translated(
            c,
            before,
            tables,
            conditions,
            next,
            resolver,
            after,
            Err(error),
        ),
    decreases conditions.len() - n,
{
    if n == conditions.len() {
        assert(conditions.take(n) =~= conditions);
    } else {
        assert(conditions.take(n + 1).drop_last() =~= conditions.take(n));
        assert(reached(after, Err(error)));
        condition_failed(c, before, tables, conditions, next, resolver, after, error, n + 1);
    }
}

/// Whether a translation succeeded.
pub open spec fn success_of(reply: Result<usize, LimboError>) -> Result<(), ErrorView> {
    match reply {
        Ok(_) => Ok(()),
        Err(e) => Err(e@),
    }
}

/// Expressions are translated into registers that follow each other, until one fails.
pub open spec fn exprs_translated<C: SelectCompiler>(
    c: C,
    before: ProgramView,
    exprs: Seq<ExprTree>,
    first: usize,
    resolver: ResolverView,
    after: ProgramView,
    result: Result<(), ErrorView>,
) -> bool
    decreases exprs.len(),
{
    if exprs.len() == 0 {
        after == before && result == Ok::<(), ErrorView>(())
    } else {
        exists|mid: ProgramView, r: Result<(), ErrorView>|
            {
                &&& #[trigger] reached(mid, r)
                &&& exprs_translated(c, before, exprs.drop_last(), first, resolver, mid, r)
                &&& match r {
                    Err(_) => after == mid && result == r,
                    Ok(_) => exists|reply: Result<usize, LimboError>|
                        {
                            &&& #[trigger] translates_expr(
                                c,
                                mid,
                                exprs.last(),
                                (first + exprs.len() - 1) as usize,
                                resolver,
                                after,
                                reply,
                            )
                            &&& result == success_of(reply)
                        },
                }
            }
    }
}

/// What comes after a failure does not matter.
proof fn translation_failed<C: SelectCompiler>(
    c: C,
    before: ProgramView,
    exprs: Seq<ExprTree>,
    first: usize,
    resolver: ResolverView,
    after: ProgramView,
    error: ErrorView,
    n: int,
)
    requires
        0 <= n <= exprs.len(),
        exprs_translated(c, before, exprs.take(n), first, resolver, after, Err(error)),
    ensures
        exprs_translated(c, before, exprs, first, resolver, after, Err(error)),
    decreases exprs.len() - n,
{
    if n == exprs.len() {
        assert(exprs.take(n) =~= exprs);
    } else {
        assert(exprs.take(n + 1).drop_last() =~= exprs.take(n));
        assert(reached(after, Err(error)));
        translation_failed(c, before, exprs, first, resolver, after, error, n + 1);
    }
}

/// The steps of translating several expressions: those before the last, and then the last.
pub proof fn exprs_steps<C: SelectCompiler>(
    c: C,
    before: ProgramView,
    exprs: Seq<ExprTree>,
    first: usize,
    resolver: ResolverView,
    after: ProgramView,
    result: Result<(), ErrorView>,
) -> (steps: (ProgramView, Result<(), ErrorView>))
    requires
        exprs_translated(c, before, exprs, first, resolver, after, result),
        exprs.len() > 0,
    ensures
        exprs_translated(c, before, exprs.drop_last(), first, resolver, steps.0, steps.1),
        steps.1 is Err ==> after == steps.0 && result == steps.1,
        steps.1 is Ok ==> exists|reply: Result<usize, LimboError>|
            {
                &&& #[trigger] translates_expr(
                    c,
                    steps.0,
                    exprs.last(),
                    (first + exprs.len() - 1) as usize,
                    resolver,
                    after,
                    reply,
                )
                &&& result == success_of(reply)
            },
{
    let steps: (ProgramView, Result<(), ErrorView>) = choose|
        mid: ProgramView,
        r: Result<(), ErrorView>,
    |
        {
            &&& #[trigger] reached(mid, r)
            &&& exprs_translated(c, before, exprs.drop_last(), first, resolver, mid, r)
            &&& match r {
                Err(_) => after == mid && result == r,
                Ok(_) => exists|reply: Result<usize, LimboError>|
                    {
                        &&& #[trigger] translates_expr(
                            c,
                            mid,
                            exprs.last(),
                            (first + exprs.len() - 1) as usize,
                            resolver,
                            after,
                            reply,
                        )
                        &&& result == success_of(reply)
                    },
            }
        };
    steps
}

/// Translates expressions into registers that follow each other.
fn translate_exprs<C: SelectCompiler>(
    program: &mut ProgramBuilder,
    exprs: &Vec<Expr>,
    first: usize,
    resolver: &Resolver,
    compiler: &C,
) -> (r: Result<(), LimboError>)
    requires
        first + exprs@.len() <= usize::MAX,
    ensures
        exprs_translated(
            *compiler,
            old(program)@,
            trees_of(exprs@),
            first,
            resolver@,
            final(program)@,
            outcome(r),
        ),
{
    let ghost c = *compiler;
    let ghost before = program@;
    let ghost trees = trees_of(exprs@);
    let mut i: usize = 0;
    while i < exprs.len()
        invariant
            i <= exprs@.len(),
            first + exprs@.len() <= usize::MAX,
            c == *compiler,
            before == old(program)@,
            trees == trees_of(exprs@),
            exprs_translated(
                c,
                before,
                trees.take(i as int),
                first,
                resolver@,
                program@,
                Ok(()),
            ),
        decreases exprs@.len() - i,
    {
        let ghost mid = program@;
        let (after, reply) = compiler.translate_expr(
            program.take(),
            &exprs[i],
            first + i,
            resolver,
        );
        *program = after;
        proof {
            let done = trees.take(i + 1);
            assert(done.drop_last() =~= trees.take(i as int));
            assert(reached(mid, Ok(())));
            assert(translates_expr(
                c,
                mid,
                done.last(),
                (first + done.len() - 1) as usize,
                resolver@,
                program@,
                reply,
            ));
        }
        match reply {
            Ok(_) => {},
            Err(e) => {
                proof {
                    translation_failed(
                        c,
                        before,
                        trees,
                        first,
                        resolver@,
                        program@,
                        e@,
                        i + 1,
                    );
                }
                return Err(e);
            },
        }
        i += 1;
    }
    assert(trees.take(i as int) =~= trees);
    Ok(())
}

/// The steps of translating several conditions: those before the last, and then the last.
pub proof fn conditions_steps<C: SelectCompiler>(
    c: C,
    before: ProgramView,
    tables: TableReferencesView,
    conditions: Seq<ExprTree>,
    next: BranchOffset,
    resolver: ResolverView,
    after: ProgramView,
    result: Result<(), ErrorView>,
) -> (steps: (ProgramView, Result<(), ErrorView>))
    requires
        conditions_translated(c, before, tables, conditions, next, resolver, after, result),
        conditions.len() > 0,
    ensures
        conditions_translated(
            c,
            before,
            tables,
            conditions.drop_last(),
            next,
            resolver,
            steps.0,
            steps.1,
        ),
        steps.1 is Err ==> after == steps.0 && result == steps.1,
        steps.1 is Ok ==> exists|reply: Result<(), LimboError>| #[trigger]
            translates_condition(
                c,
                steps.0,
                tables,
                conditions.last(),
                unless_it_holds(next),
                resolver,
                after,
                reply,
            ) && result == outcome(reply),
{
    let steps: (ProgramView, Result<(), ErrorView>) = choose|
        mid: ProgramView,
        r: Result<(), ErrorView>,
    |
        {
            &&& #[trigger] reached(mid, r)
            &&& conditions_translated(
                c,
                before,
                tables,
                conditions.drop_last(),
                next,
                resolver,
                mid,
                r,
            )
            &&& match r {
                Err(_) => after == mid && result == r,
                Ok(_) => exists|reply: Result<(), LimboError>| #[trigger]
                    translates_condition(
                        c,
                        mid,
                        tables,
                        conditions.last(),
                        unless_it_holds(next),
                        resolver,
                        after,
                        reply,
                    ) && result == outcome(reply),
            }
        };
    steps
}

/// Translates the conditions of the recursive member.
fn translate_conditions<C: SelectCompiler>(
    program: &mut ProgramBuilder,
    tables: &TableReferences,
    conditions: &Vec<Expr>,
    next: BranchOffset,
    resolver: &Resolver,
    compiler: &C,
) -> (r: Result<(), LimboError>)
    ensures
        conditions_translated(
            *compiler,
            old(program)@,
            tables@,
            trees_of(conditions@),
            next,
            resolver@,
            final(program)@,
            outcome(r),
        ),
{
    let ghost c = *compiler;
    let ghost before = program@;
    let ghost trees = trees_of(conditions@);
    let mut i: usize = 0;
    while i < conditions.len()
        invariant
            i <= conditions@.len(),
            c == *compiler,
            before == old(program)@,
            trees == trees_of(conditions@),
            conditions_translated(
                c,
                before,
                tables@,
                trees.take(i as int),
                next,
                resolver@,
                program@,
                Ok(()),
            ),
        decreases conditions@.len() - i,
    {
        let ghost mid = program@;
        let (after, reply) = compiler.translate_condition_expr(
            program.take(),
            tables,
            &conditions[i],
            ConditionMetadata {
                jump_if_condition_is_true: false,
                jump_target_when_true: next,
                jump_target_when_false: next,
                jump_target_when_null: next,
            },
            resolver,
        );
        *program = after;
        proof {
            let done = trees.take(i + 1);
            assert(done.drop_last() =~= trees.take(i as int));
            assert(reached(mid, Ok(())));
            assert(translates_condition(
                c,
                mid,
                tables@,
                done.last(),
                unless_it_holds(next),
                resolver@,
                program@,
                reply,
            ));
        }
        match reply {
            Ok(_) => {},
            Err(e) => {
                proof {
                    condition_failed(
                        c,
                        before,
                        tables@,
                        trees,
                        next,
                        resolver@,
                        program@,
                        e@,
                        i + 1,
                    );
                }
                return Err(e);
            },
        }
        i += 1;
    }
    assert(trees.take(i as int) =~= trees);
    Ok(())
}

/// There are registers and labels for the loops, and a register for each new column.
pub open spec fn loop_fits(
    p: ProgramView,
    l: CteLayout,
    other: Option<OtherTable>,
    new_columns: nat,
) -> bool {
    &&& p.has_room(2 + other_columns(other), loop_label_count(other), 0)
    &&& l.result + new_columns <= usize::MAX
}

fn check_loop(
    program: &ProgramBuilder,
    l: CteLayout,
    other: Option<(&NamedTable, usize)>,
    new_columns: usize,
) -> (r: bool)
    ensures
        r == loop_fits(program@, l, other_of(other), new_columns as nat),
{
    let (columns, labels): (usize, usize) = match other {
        Some((t, _)) => (t.table.columns.len(), 6),
        None => (0, 4),
    };
    columns <= usize::MAX - 2 && program.has_room(2 + columns, labels, 0) && new_columns
        <= usize::MAX - l.result
}

/// The columns of the new row are computed, and then the loops of the recursive member end.
pub open spec fn loops_computed<C: SelectCompiler>(
    c: C,
    before: ProgramView,
    l: CteLayout,
    k: CteLoop,
    exprs: Seq<ExprTree>,
    resolver: ResolverView,
    computed: ProgramView,
    r: Result<(), ErrorView>,
    after: ProgramView,
    result: Result<(), ErrorView>,
) -> bool {
    &&& exprs_translated(c, before, exprs, l.result, resolver, computed, r)
    &&& if r is Err {
        after == computed && result == r
    } else if !computed.has_room(0, 2, 0) {
        after == computed && result == Err::<(), ErrorView>(out_of_capacity())
    } else {
        after == loop_finished(computed, l, k) && result == Ok::<(), ErrorView>(())
    }
}

/// The columns of the new row are computed, and the loops of the recursive member end.
pub open spec fn loops_ended<C: SelectCompiler>(
    c: C,
    before: ProgramView,
    l: CteLayout,
    k: CteLoop,
    exprs: Seq<ExprTree>,
    resolver: ResolverView,
    after: ProgramView,
    result: Result<(), ErrorView>,
) -> bool {
    exists|computed: ProgramView, r: Result<(), ErrorView>| #[trigger]
        loops_computed(c, before, l, k, exprs, resolver, computed, r, after, result)
}

/// Computes the columns of the new row, and ends the loops of the recursive member.
fn finish_row<C: SelectCompiler>(
    program: &mut ProgramBuilder,
    l: CteLayout,
    k: CteLoop,
    exprs: &Vec<Expr>,
    resolver: &Resolver,
    compiler: &C,
) -> (r: Result<(), LimboError>)
    requires
        l.is_valid(),
        l.result + exprs@.len() <= usize::MAX,
    ensures
        loops_ended(
            *compiler,
            old(program)@,
            l,
            k,
            trees_of(exprs@),
            resolver@,
            final(program)@,
            outcome(r),
        ),
{
    let ghost before = program@;
    let computing = translate_exprs(program, exprs, l.result, resolver, compiler);
    let ghost computed = program@;
    let ghost computation = outcome(computing);
    let r = match computing {
        Err(e) => Err(e),
        Ok(_) => {
            if !program.has_room(0, 2, 0) {
                Err(capacity_error())
            } else {
                finish_loop(program, l, k);
                Ok(())
            }
        },
    };
    assert(loops_computed(
        *compiler,
        before,
        l,
        k,
        trees_of(exprs@),
        resolver@,
        computed,
        computation,
        program@,
        outcome(r),
    ));
    r
}

/// The conditions of the recursive member are translated.
pub open spec fn tests_emitted<C: SelectCompiler>(
    c: C,
    before: ProgramView,
    tables: TableReferencesView,
    conditions: Seq<ExprTree>,
    next: BranchOffset,
    resolver: ResolverView,
    after: ProgramView,
    result: Result<(), ErrorView>,
) -> bool {
    conditions_translated(c, before, tables, conditions, next, resolver, after, result)
}

/// The loops of the recursive member are emitted, once its tables are known and its expressions
/// are bound.
pub open spec fn loops_emitted<C: SelectCompiler>(
    c: C,
    before: ProgramView,
    l: CteLayout,
    internal_id: TableInternalId,
    tables: TableReferencesView,
    other: Option<OtherTable>,
    exprs: Seq<ExprTree>,
    conditions: Seq<ExprTree>,
    resolver: ResolverView,
    after: ProgramView,
    result: Result<(), ErrorView>,
) -> bool {
    if !loop_fits(before, l, other, exprs.len()) {
        after == before && result == Err::<(), ErrorView>(out_of_capacity())
    } else {
        let k = cte_loop(before, other);
        let local = member_resolver(resolver, internal_id, l, k, other);
        exists|tested: ProgramView, test: Result<(), ErrorView>|
            {
                &&& #[trigger] tests_emitted(
                    c,
                    loop_entered(before, l, other),
                    tables,
                    conditions,
                    k.innermost_next(),
                    local,
                    tested,
                    test,
                )
                &&& match test {
                    Err(_) => after == tested && result == test,
                    Ok(_) => loops_ended(c, tested, l, k, exprs, local, after, result),
                }
            }
    }
}

/// The steps of emitting the loops of the recursive member: the program once the conditions are
/// translated, and once the new row is computed if they were.
pub proof fn loops_steps<C: SelectCompiler>(
    c: C,
    before: ProgramView,
    l: CteLayout,
    internal_id: TableInternalId,
    tables: TableReferencesView,
    other: Option<OtherTable>,
    exprs: Seq<ExprTree>,
    conditions: Seq<ExprTree>,
    resolver: ResolverView,
    after: ProgramView,
    result: Result<(), ErrorView>,
) -> (steps: (ProgramView, Result<(), ErrorView>, ProgramView, Result<(), ErrorView>))
    requires
        loops_emitted(
            c,
            before,
            l,
            internal_id,
            tables,
            other,
            exprs,
            conditions,
            resolver,
            after,
            result,
        ),
        loop_fits(before, l, other, exprs.len()),
    ensures
        ({
            let (tested, test, computed, r) = steps;
            let k = cte_loop(before, other);
            let local = member_resolver(resolver, internal_id, l, k, other);
            &&& conditions_translated(
                c,
                loop_entered(before, l, other),
                tables,
                conditions,
                k.innermost_next(),
                local,
                tested,
                test,
            )
            &&& test is Err ==> after == tested && result == test
            &&& test is Ok ==> loops_computed(
                c,
                tested,
                l,
                k,
                exprs,
                local,
                computed,
                r,
                after,
                result,
            )
        }),
{
    let k = cte_loop(before, other);
    let local = member_resolver(resolver, internal_id, l, k, other);
    let (tested, test): (ProgramView, Result<(), ErrorView>) = choose|
        tested: ProgramView,
        test: Result<(), ErrorView>,
    |
        {
            &&& #[trigger] tests_emitted(
                c,
                loop_entered(before, l, other),
                tables,
                conditions,
                k.innermost_next(),
                local,
                tested,
                test,
            )
            &&& match test {
                Err(_) => after == tested && result == test,
                Ok(_) => loops_ended(c, tested, l, k, exprs, local, after, result),
            }
        };
    let (computed, r): (ProgramView, Result<(), ErrorView>) = choose|
        computed: ProgramView,
        r: Result<(), ErrorView>,
    | #[trigger]
        loops_computed(c, tested, l, k, exprs, local, computed, r, after, result);
    (tested, test, computed, r)
}

/// Emits the loops of the recursive member.
pub fn emit_loops<C: SelectCompiler>(
    program: &mut ProgramBuilder,
    l: CteLayout,
    internal_id: TableInternalId,
    tables: &TableReferences,
    other: Option<(&NamedTable, usize)>,
    exprs: &Vec<Expr>,
    conditions: &Vec<Expr>,
    resolver: &Resolver,
    compiler: &C,
) -> (r: Result<(), LimboError>)
    requires
        l.is_valid(),
    ensures
        loops_emitted(
            *compiler,
            old(program)@,
            l,
            internal_id,
            tables@,
            other_of(other),
            trees_of(exprs@),
            trees_of(conditions@),
            resolver@,
            final(program)@,
            outcome(r),
        ),
{
    if !check_loop(program, l, other, exprs.len()) {
        return Err(capacity_error());
    }
    let k = enter_loop(program, l, other);
    let local = get_member_resolver(resolver, internal_id, l, k, other);
    let ghost entered = program@;
    let test = translate_conditions(
        program,
        tables,
        conditions,
        k.get_innermost_next(),
        &local,
        compiler,
    );
    assert(tests_emitted(
        *compiler,
        entered,
        tables@,
        trees_of(conditions@),
        k.innermost_next(),
        local@,
        program@,
        outcome(test),
    ));
    match test {
        Ok(_) => {},
        Err(e) => {
            return Err(e);
        },
    }
    finish_row(program, l, k, exprs, &local, compiler)
}

/// The message for a recursive member that is `VALUES`.
pub open spec fn values_as_member() -> ErrorView {
    ErrorView::ParseError("Recursive member cannot be VALUES"@)
}

/// The message for a recursive member with more than one other table.
pub open spec fn too_many_tables() -> ErrorView {
    ErrorView::ParseError(
        "Recursive CTEs with multiple external tables are not yet supported"@,
    )
}

/// The recursive member is emitted: its tables are looked up, at most one beside the expression
/// itself, its expressions are bound, and the loops follow.
pub open spec fn member_emitted<C: SelectCompiler>(
    c: C,
    before: ProgramView,
    cte: RecursiveCte,
    l: CteLayout,
    internal_id: TableInternalId,
    resolver: ResolverView,
    after: ProgramView,
    result: Result<(), ErrorView>,
) -> bool {
    match *cte.recursive_member {
        OneSelect::Values => after == before && result == Err::<(), ErrorView>(
            values_as_member(),
        ),
        OneSelect::Select { columns, from, where_clause, .. } => {
            let tables = from_tables(from);
            let found = tables_looked_up(resolver.schema, cte.name@, before, tables);
            if found.error is Some {
                after == found.program && result == Err::<(), ErrorView>(found.error->0)
            } else if found.others.len() > 1 {
                after == found.program && result == Err::<(), ErrorView>(too_many_tables())
            } else if has_star(columns@) {
                after == found.program && result == Err::<(), ErrorView>(star_in_member())
            } else {
                loops_emitted(
                    c,
                    found.program,
                    l,
                    internal_id,
                    member_tables(cte, internal_id, found.others),
                    first_other(found.others),
                    bound_columns(cte, internal_id, found.others, tables, columns@),
                    bound_conditions(
                        cte,
                        internal_id,
                        found.others,
                        tables,
                        member_conditions(from, where_clause),
                    ),
                    resolver,
                    after,
                    result,
                )
            }
        },
    }
}

/// Emits the recursive member.
pub fn emit_recursive_member<C: SelectCompiler>(
    program: &mut ProgramBuilder,
    cte: &RecursiveCte,
    l: CteLayout,
    internal_id: TableInternalId,
    resolver: &Resolver,
    compiler: &C,
) -> (r: Result<(), LimboError>)
    requires
        l.is_valid(),
    ensures
        member_emitted(
            *compiler,
            old(program)@,
            *cte,
            l,
            internal_id,
            resolver@,
            final(program)@,
            outcome(r),
        ),
{
    match &*cte.recursive_member {
        OneSelect::Values => Err(parse_error("Recursive member cannot be VALUES")),
        OneSelect::Select { columns, from, where_clause, .. } => {
            let found = look_up_tables(program, &resolver.schema, cte.name.as_str(), from);
            let others = match found {
                Ok(others) => others,
                Err(e) => {
                    return Err(e);
                },
            };
            if others.tables.len() > 1 {
                return Err(
                    parse_error(
                        "Recursive CTEs with multiple external tables are not yet supported",
                    ),
                );
            }
            let tables = get_member_tables(cte, internal_id, &others);
            let names = get_column_names(&cte.columns);
            let bound_exprs = bind_result_columns(
                columns,
                cte,
                &names,
                internal_id,
                &others,
                from,
            );
            let exprs = match bound_exprs {
                Ok(exprs) => exprs,
                Err(e) => {
                    return Err(e);
                },
            };
            let conditions = bind_conditions(
                from,
                where_clause,
                cte,
                &names,
                internal_id,
                &others,
            );
            emit_loops(
                program,
                l,
                internal_id,
                &tables,
                others.first(),
                &exprs,
                &conditions,
                resolver,
                compiler,
            )
        },
    }
}

// ---------------------------------------------------------------------------------------------
// The whole.

/// The message for an expression whose anchor was not planned.
pub open spec fn anchor_missing() -> ErrorView {
    ErrorView::ParseError("Recursive CTE anchor_plan is missing"@)
}

/// The code of the anchor is there, or not, and the rest of the expression follows.
pub open spec fn anchor_answered<C: SelectCompiler>(
    c: C,
    before: ProgramView,
    reply: Result<usize, LimboError>,
    cte: RecursiveCte,
    l: CteLayout,
    a: Anchor,
    internal_id: TableInternalId,
    resolver: ResolverView,
    after: ProgramView,
    result: Result<(), ErrorView>,
) -> bool {
    match reply {
        Err(e) => after == before && result == Err::<(), ErrorView>(e@),
        Ok(result_reg) => {
            if result_reg + l.columns > usize::MAX {
                after == before && result == Err::<(), ErrorView>(out_of_capacity())
            } else {
                member_emitted(
                    c,
                    anchor_closed(before, l, a, result_reg),
                    cte,
                    l,
                    internal_id,
                    resolver,
                    after,
                    result,
                )
            }
        },
    }
}

/// Goes on once the code of the anchor is there: its rows are stored and the recursive member is
/// emitted.
pub fn finish_recursive_cte<C: SelectCompiler>(
    program: &mut ProgramBuilder,
    reply: Result<usize, LimboError>,
    cte: &RecursiveCte,
    l: CteLayout,
    a: Anchor,
    internal_id: TableInternalId,
    resolver: &Resolver,
    compiler: &C,
) -> (r: Result<(), LimboError>)
    requires
        l.is_valid(),
    ensures
        anchor_answered(
            *compiler,
            old(program)@,
            reply,
            *cte,
            l,
            a,
            internal_id,
            resolver@,
            final(program)@,
            outcome(r),
        ),
{
    match reply {
        Err(e) => Err(e),
        Ok(result_reg) => {
            if result_reg > usize::MAX - l.columns {
                return Err(capacity_error());
            }
            close_anchor(program, l, a, result_reg);
            emit_recursive_member(program, cte, l, internal_id, resolver, compiler)
        },
    }
}

/// A recursive common table expression is emitted: the temporary tables are opened, the anchor
/// runs as a coroutine whose rows are stored, and the recursive member follows.
pub open spec fn cte_emitted<C: SelectCompiler>(
    c: C,
    before: ProgramView,
    cte: RecursiveCte,
    output: usize,
    internal_id: TableInternalId,
    resolver: ResolverView,
    after: ProgramView,
    result: Result<(), ErrorView>,
) -> bool {
    let columns = cte.columns@;
    if !before.has_room(2 * columns.len() + 2, 0, 0) {
        after == before && result == Err::<(), ErrorView>(out_of_capacity())
    } else {
        let l = cte_layout(before, columns.len() as usize, output);
        let opened = tables_opened(before, l, ephemeral_table(cte.name@, columns));
        match cte.anchor_plan {
            None => after == opened && result == Err::<(), ErrorView>(anchor_missing()),
            Some(plan) => {
                let tables = plan.table_references.joined_tables@.len();
                if !opened.has_room(1, 3 + 3 * tables, 0) {
                    after == opened && result == Err::<(), ErrorView>(out_of_capacity())
                } else {
                    let a = anchor_here(opened);
                    exists|
                        q: ProgramView,
                        plan_after: SelectPlan,
                        reply: Result<usize, LimboError>,
                    |
                        {
                            &&& #[trigger] emits_query(
                                c,
                                anchor_opened(opened).with_labels(3 * tables),
                                directed((*plan)@, anchor_destination(a)),
                                anchor_opened(opened),
                                resolver.schema,
                                q,
                                plan_after,
                                reply,
                            )
                            &&& anchor_answered(
                                c,
                                q,
                                reply,
                                cte,
                                l,
                                a,
                                internal_id,
                                resolver,
                                after,
                                result,
                            )
                        }
                }
            },
        }
    }
}

/// The anchor is planned, and there are registers and labels for it.
pub open spec fn anchor_fits(before: ProgramView, cte: RecursiveCte, output: usize) -> bool {
    let l = cte_layout(before, cte.columns@.len() as usize, output);
    let opened = tables_opened(before, l, ephemeral_table(cte.name@, cte.columns@));
    &&& before.has_room(2 * cte.columns@.len() + 2, 0, 0)
    &&& cte.anchor_plan matches Some(plan) && opened.has_room(
        1,
        3 + 3 * plan.table_references.joined_tables@.len(),
        0,
    )
}

/// What the compiler answers when it is asked for the code of the anchor: the program then, and
/// its reply.
pub proof fn cte_steps<C: SelectCompiler>(
    c: C,
    before: ProgramView,
    cte: RecursiveCte,
    output: usize,
    internal_id: TableInternalId,
    resolver: ResolverView,
    after: ProgramView,
    result: Result<(), ErrorView>,
) -> (steps: (ProgramView, SelectPlan, Result<usize, LimboError>))
    requires
        cte_emitted(c, before, cte, output, internal_id, resolver, after, result),
        anchor_fits(before, cte, output),
    ensures
        ({
            let (q, plan_after, reply) = steps;
            let l = cte_layout(before, cte.columns@.len() as usize, output);
            let opened = tables_opened(before, l, ephemeral_table(cte.name@, cte.columns@));
            let a = anchor_here(opened);
            let plan = cte.anchor_plan->0;
            &&& emits_query(
                c,
                anchor_opened(opened).with_labels(
                    3 * plan.table_references.joined_tables@.len(),
                ),
                directed((*plan)@, anchor_destination(a)),
                anchor_opened(opened),
                resolver.schema,
                q,
                plan_after,
                reply,
            )
            &&& anchor_answered(c, q, reply, cte, l, a, internal_id, resolver, after, result)
        }),
{
    let l = cte_layout(before, cte.columns@.len() as usize, output);
    let opened = tables_opened(before, l, ephemeral_table(cte.name@, cte.columns@));
    let a = anchor_here(opened);
    let plan = cte.anchor_plan->0;
    let steps: (ProgramView, SelectPlan, Result<usize, LimboError>) = choose|
        q: ProgramView,
        plan_after: SelectPlan,
        reply: Result<usize, LimboError>,
    |
        {
            &&& #[trigger] emits_query(
                c,
                anchor_opened(opened).with_labels(
                    3 * plan.table_references.joined_tables@.len(),
                ),
                directed((*plan)@, anchor_destination(a)),
                anchor_opened(opened),
                resolver.schema,
                q,
                plan_after,
                reply,
            )
            &&& anchor_answered(c, q, reply, cte, l, a, internal_id, resolver, after, result)
        };
    steps
}

/// The temporary table that holds the rows of an expression.
pub fn make_ephemeral_table(cte: &RecursiveCte) -> (r: Arc<BTreeTable>)
    ensures
        (*r)@ == ephemeral_table(cte.name@, cte.columns@),
{
    Arc::new(
        BTreeTable {
            root_page: 0,
            name: joined("cte_", cte.name.as_str()),
            columns: copy_columns(&cte.columns),
            has_rowid: true,
            is_strict: false,
            has_autoincrement: false,
        },
    )
}

/// Emits a recursive common table expression, whose rows end up in the temporary table of the
/// output cursor.
///
/// The rows of the anchor go to the output and to a working table. Then, in each round, the
/// recursive member reads the working table and writes to a third one; its rows are copied to
/// the output and become the working table of the next round. The last round is the one without
/// new rows, or the one at the limit.
pub fn emit_recursive_cte<C: SelectCompiler>(
    program: &mut ProgramBuilder,
    recursive_cte: &RecursiveCte,
    output_cursor_id: usize,
    internal_id: TableInternalId,
    t_ctx: &TranslateCtx,
    compiler: &C,
) -> (r: Result<(), LimboError>)
    ensures
        cte_emitted(
            *compiler,
            old(program)@,
            *recursive_cte,
            output_cursor_id,
            internal_id,
            t_ctx.resolver@,
            final(program)@,
            outcome(r),
        ),
{
    let resolver = &t_ctx.resolver;
    let columns = recursive_cte.columns.len();
    if columns > (usize::MAX - 2) / 2 || !program.has_room(2 * columns + 2, 0, 0) {
        return Err(capacity_error());
    }
    let table = make_ephemeral_table(recursive_cte);
    let l = open_tables(program, &table, output_cursor_id);
    let ghost opened = program@;
    match &recursive_cte.anchor_plan {
        None => Err(parse_error("Recursive CTE anchor_plan is missing")),
        Some(plan) => {
            let tables = plan.table_references.joined_tables.len();
            if tables > (usize::MAX - 3) / 3 || !program.has_room(1, 3 + 3 * tables, 0) {
                return Err(capacity_error());
            }
            let a = open_anchor(program);
            let ctx = TranslateCtx::new(program, share(&resolver.schema), tables);
            let mut anchor_plan = copy_plan(plan);
            proof {
                directed_plan(anchor_plan, anchor_destination(a));
            }
            anchor_plan.query_destination = QueryDestination::CoroutineYield {
                yield_reg: a.yield_reg,
                coroutine_implementation_start: a.start,
            };
            let (after, plan_after, reply) = compiler.emit_query(
                program.take(),
                anchor_plan,
                ctx,
            );
            *program = after;
            assert(emits_query(
                *compiler,
                anchor_opened(opened).with_labels(3 * plan.table_references.joined_tables@.len()),
                directed((**plan)@, anchor_destination(a)),
                anchor_opened(opened),
                t_ctx.resolver@.schema,
                program@,
                plan_after,
                reply,
            ));
            finish_recursive_cte(
                program,
                reply,
                recursive_cte,
                l,
                a,
                internal_id,
                resolver,
                compiler,
            )
        },
    }
}

} // verus!
