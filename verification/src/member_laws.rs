//! Which tables a recursive member may have.
use crate::ast::TableInternalId;
use crate::compiler::{schema_table, ResolverView, Schema, SchemaTable, SelectCompiler};
use crate::cte_code::CteLayout;
use crate::plan::{OneSelect, RecursiveCte, SelectTable};
use crate::program::{CursorTypeView, CursorView, ErrorView, ProgramView};
use crate::recursive_cte::{
    cte_emitted, from_tables, lookup_failed, member_emitted, tables_looked_up,
};
use crate::schema::BTreeTable;
use crate::text::{lowercase, same_name};
use vstd::prelude::*;

verus! {

/// The tables of the recursive member.
pub open spec fn tables_of_member(cte: RecursiveCte) -> Seq<SelectTable> {
    match *cte.recursive_member {
        OneSelect::Select { from, .. } => from_tables(from),
        OneSelect::Values => seq![],
    }
}

/// A table with a name other than that of the expression itself.
pub open spec fn is_external(table: SelectTable, cte_name: Seq<char>) -> bool {
    table matches SelectTable::Table { name, .. } && !same_name(lowercase(name.value@), cte_name)
}

/// How many external tables there are, a table as often as it stands there.
pub open spec fn external_count(tables: Seq<SelectTable>, cte_name: Seq<char>) -> nat
    decreases tables.len(),
{
    if tables.len() == 0 {
        0
    } else {
        external_count(tables.drop_last(), cte_name) + if is_external(tables.last(), cte_name) {
            1nat
        } else {
            0nat
        }
    }
}

/// Why a table cannot be read in a recursive member, if it cannot.
pub open spec fn unreadable(schema: Schema, table: SelectTable) -> Option<ErrorView> {
    match table {
        SelectTable::Other => None,
        SelectTable::Table { name, .. } => {
            match schema_table(schema.tables@, lowercase(name.value@), 0) {
                None => Some(ErrorView::ParseError("no such table: "@ + lowercase(name.value@))),
                Some(SchemaTable::Other) => Some(
                    ErrorView::ParseError(
                        "Table '"@ + lowercase(name.value@)
                            + "' in recursive member must be a regular table"@,
                    ),
                ),
                Some(SchemaTable::BTree(_)) => None,
            }
        },
    }
}

proof fn found_tables_are_counted(
    schema: Schema,
    cte_name: Seq<char>,
    p: ProgramView,
    tables: Seq<SelectTable>,
)
    requires
        tables_looked_up(schema, cte_name, p, tables).error is None,
    ensures
        tables_looked_up(schema, cte_name, p, tables).others.len() == external_count(
            tables,
            cte_name,
        ),
    decreases tables.len(),
{
    if tables.len() > 0 {
        found_tables_are_counted(schema, cte_name, p, tables.drop_last());
    }
}

proof fn readable_tables_are_found(
    schema: Schema,
    cte_name: Seq<char>,
    p: ProgramView,
    tables: Seq<SelectTable>,
)
    requires
        p.has_room(0, 0, tables.len()),
        forall|i: int|
            0 <= i < tables.len() && is_external(#[trigger] tables[i], cte_name) ==> unreadable(
                schema,
                tables[i],
            ) is None,
    ensures
        ({
            let found = tables_looked_up(schema, cte_name, p, tables);
            &&& found.error is None
            &&& found.program.next_free_register == p.next_free_register
            &&& found.program.next_label == p.next_label
            &&& found.program.next_table_id <= p.next_table_id + tables.len()
        }),
    decreases tables.len(),
{
    if tables.len() > 0 {
        assert forall|i: int|
            0 <= i < tables.drop_last().len() && is_external(
                #[trigger] tables.drop_last()[i],
                cte_name,
            ) implies unreadable(schema, tables.drop_last()[i]) is None by {
            assert(tables.drop_last()[i] == tables[i]);
        }
        readable_tables_are_found(schema, cte_name, p, tables.drop_last());
        assert(tables.last() == tables[tables.len() - 1]);
    }
}

/// The first external table of a recursive member that cannot be read is the error, whatever else
/// there is to say against the member. There have to be numbers left for the tables.
pub proof fn first_unreadable_table_is_reported<C: SelectCompiler>(
    c: C,
    before: ProgramView,
    cte: RecursiveCte,
    l: CteLayout,
    internal_id: TableInternalId,
    resolver: ResolverView,
    after: ProgramView,
    result: Result<(), ErrorView>,
    n: int,
)
    requires
        member_emitted(c, before, cte, l, internal_id, resolver, after, result),
        before.has_room(0, 0, tables_of_member(cte).len()),
        0 <= n < tables_of_member(cte).len(),
        is_external(tables_of_member(cte)[n], cte.name@),
        unreadable(resolver.schema, tables_of_member(cte)[n]) is Some,
        forall|i: int|
            0 <= i < n && is_external(#[trigger] tables_of_member(cte)[i], cte.name@)
                ==> unreadable(resolver.schema, tables_of_member(cte)[i]) is None,
    ensures
        result == Err::<(), ErrorView>(
            unreadable(resolver.schema, tables_of_member(cte)[n])->0,
        ),
{
    let tables = tables_of_member(cte);
    let schema = resolver.schema;
    let earlier = tables.take(n);
    assert forall|i: int|
        0 <= i < earlier.len() && is_external(
            #[trigger] earlier[i],
            cte.name@,
        ) implies unreadable(schema, earlier[i]) is None by {
        assert(earlier[i] == tables[i]);
    }
    readable_tables_are_found(schema, cte.name@, before, earlier);
    assert(tables.take(n + 1).drop_last() =~= earlier);
    lookup_failed(schema, cte.name@, before, tables, n + 1);
}

/// If every external table of a recursive member can be read, the member is refused for its number
/// of external tables where there is more than one. There have to be numbers left for the tables.
pub proof fn several_external_tables_are_refused<C: SelectCompiler>(
    c: C,
    before: ProgramView,
    cte: RecursiveCte,
    l: CteLayout,
    internal_id: TableInternalId,
    resolver: ResolverView,
    after: ProgramView,
    result: Result<(), ErrorView>,
)
    requires
        member_emitted(c, before, cte, l, internal_id, resolver, after, result),
        *cte.recursive_member is Select,
        before.has_room(0, 0, tables_of_member(cte).len()),
        forall|i: int|
            0 <= i < tables_of_member(cte).len() && is_external(
                #[trigger] tables_of_member(cte)[i],
                cte.name@,
            ) ==> unreadable(resolver.schema, tables_of_member(cte)[i]) is None,
        external_count(tables_of_member(cte), cte.name@) > 1,
    ensures
        result == Err::<(), ErrorView>(
            ErrorView::ParseError(
                "Recursive CTEs with multiple external tables are not yet supported"@,
            ),
        ),
{
    let tables = tables_of_member(cte);
    readable_tables_are_found(resolver.schema, cte.name@, before, tables);
    found_tables_are_counted(resolver.schema, cte.name@, before, tables);
}

/// Of all that a recursive member can be refused for, this is what comes after its tables: a `*`
/// among the result columns. A member that is `VALUES` is refused at once, and an expression
/// without a planned anchor before its member is looked at.
pub proof fn other_refusals<C: SelectCompiler>(
    c: C,
    before: ProgramView,
    cte: RecursiveCte,
    l: CteLayout,
    internal_id: TableInternalId,
    resolver: ResolverView,
    after: ProgramView,
    result: Result<(), ErrorView>,
)
    requires
        member_emitted(c, before, cte, l, internal_id, resolver, after, result),
        before.has_room(0, 0, tables_of_member(cte).len()),
        forall|i: int|
            0 <= i < tables_of_member(cte).len() && is_external(
                #[trigger] tables_of_member(cte)[i],
                cte.name@,
            ) ==> unreadable(resolver.schema, tables_of_member(cte)[i]) is None,
        external_count(tables_of_member(cte), cte.name@) <= 1,
    ensures
        *cte.recursive_member is Values ==> after == before && result == Err::<(), ErrorView>(
            ErrorView::ParseError("Recursive member cannot be VALUES"@),
        ),
        *cte.recursive_member matches OneSelect::Select { columns, .. } ==> (exists|i: int|
            0 <= i < columns@.len() && !(#[trigger] columns@[i] is Expr)) ==> result == Err::<
            (),
            ErrorView,
        >(ErrorView::ParseError("Recursive member cannot use *"@)),
{
    let tables = tables_of_member(cte);
    readable_tables_are_found(resolver.schema, cte.name@, before, tables);
    found_tables_are_counted(resolver.schema, cte.name@, before, tables);
}

/// An expression whose anchor was not planned is refused, if there is room for what comes before.
pub proof fn missing_anchor_is_refused<C: SelectCompiler>(
    c: C,
    before: ProgramView,
    cte: RecursiveCte,
    output: usize,
    internal_id: TableInternalId,
    resolver: ResolverView,
    after: ProgramView,
    result: Result<(), ErrorView>,
)
    requires
        cte_emitted(c, before, cte, output, internal_id, resolver, after, result),
        cte.anchor_plan is None,
        before.has_room(2 * cte.columns@.len() + 2, 0, 0),
    ensures
        result == Err::<(), ErrorView>(
            ErrorView::ParseError("Recursive CTE anchor_plan is missing"@),
        ),
{
}

/// A table is found in the schema: it is the first with exactly its name.
pub open spec fn is_in_schema(schema: Schema, name: Seq<char>, table: BTreeTable) -> bool {
    exists|i: int|
        {
            &&& 0 <= i < schema.tables@.len()
            &&& (#[trigger] schema.tables@[i]).0@ == name
            &&& schema.tables@[i].1 matches SchemaTable::BTree(found) && *found == table
            &&& forall|j: int| 0 <= j < i ==> (#[trigger] schema.tables@[j]).0@ != name
        }
}

proof fn found_in_schema(
    tables: Seq<(String, SchemaTable)>,
    name: Seq<char>,
    start: nat,
)
    ensures
        match schema_table(tables, name, start) {
            Some(t) => exists|i: int|
                {
                    &&& start <= i < tables.len()
                    &&& (#[trigger] tables[i]).0@ == name
                    &&& tables[i].1 == t
                    &&& forall|j: int| start <= j < i ==> (#[trigger] tables[j]).0@ != name
                },
            None => forall|j: int| start <= j < tables.len() ==> (#[trigger] tables[j]).0@ != name,
        },
    decreases tables.len() - start,
{
    if start < tables.len() && tables[start as int].0@ != name {
        found_in_schema(tables, name, start + 1);
        if schema_table(tables, name, start) is Some {
            let i = choose|i: int|
                {
                    &&& start + 1 <= i < tables.len()
                    &&& (#[trigger] tables[i]).0@ == name
                    &&& tables[i].1 == schema_table(tables, name, start)->0
                    &&& forall|j: int| start + 1 <= j < i ==> (#[trigger] tables[j]).0@ != name
                };
            assert(tables[i].0@ == name);
        }
    } else if start < tables.len() {
        assert(tables[start as int].0@ == name);
    }
}

/// Looking up a name in the schema gives the first table with exactly that name, or nothing if
/// there is none.
pub proof fn lookup_finds_the_first(schema: Schema, name: Seq<char>)
    ensures
        schema_table(schema.tables@, name, 0) is None <==> forall|j: int|
            0 <= j < schema.tables@.len() ==> (#[trigger] schema.tables@[j]).0@ != name,
        schema_table(schema.tables@, name, 0) matches Some(SchemaTable::BTree(t)) ==> is_in_schema(
            schema,
            name,
            *t,
        ),
        schema_table(schema.tables@, name, 0) is Some ==> exists|i: int|
            {
                &&& 0 <= i < schema.tables@.len()
                &&& (#[trigger] schema.tables@[i]).0@ == name
                &&& schema.tables@[i].1 == schema_table(schema.tables@, name, 0)->0
                &&& forall|j: int| 0 <= j < i ==> (#[trigger] schema.tables@[j]).0@ != name
            },
{
    found_in_schema(schema.tables@, name, 0);
}

/// What looking up the external tables of a recursive member gives: each is the table of its name
/// in the schema, and has a number and a cursor of its own that were free, in the order in which
/// they stand there. Nothing else is taken or emitted.
pub proof fn external_tables_are_found(
    schema: Schema,
    cte_name: Seq<char>,
    p: ProgramView,
    tables: Seq<SelectTable>,
)
    requires
        tables_looked_up(schema, cte_name, p, tables).error is None,
        p.cursors.len() + tables.len() <= usize::MAX,
        p.next_table_id + tables.len() <= usize::MAX,
    ensures
        ({
            let found = tables_looked_up(schema, cte_name, p, tables);
            let after = found.program;
            &&& found.others.len() == external_count(tables, cte_name)
            &&& found.others.len() <= tables.len()
            &&& after.next_table_id == p.next_table_id + found.others.len()
            &&& after.cursors.len() == p.cursors.len() + found.others.len()
            &&& after.insns == p.insns
            &&& after.labels == p.labels
            &&& after.next_free_register == p.next_free_register
            &&& after.next_label == p.next_label
            &&& forall|k: int|
                0 <= k < p.cursors.len() ==> #[trigger] after.cursors[k] == p.cursors[k]
            &&& forall|k: int|
                0 <= k < found.others.len() ==> {
                    let other = #[trigger] found.others[k];
                    &&& is_in_schema(schema, other.name, other.table)
                    &&& other.internal_id.0 == p.next_table_id + k
                    &&& other.cursor_id == p.cursors.len() + k
                    &&& after.cursors[p.cursors.len() + k] == (CursorView {
                        key: None,
                        cursor_type: CursorTypeView::BTreeTable(other.table@),
                    })
                }
            &&& forall|i: int|
                0 <= i < tables.len() && is_external(#[trigger] tables[i], cte_name) ==> {
                    let k = external_count(tables.take(i), cte_name) as int;
                    &&& k < found.others.len()
                    &&& tables[i] matches SelectTable::Table { name, .. } && found.others[k].name
                        == lowercase(name.value@)
                }
        }),
    decreases tables.len(),
{
    found_tables_are_counted(schema, cte_name, p, tables);
    if tables.len() > 0 {
        let earlier = tables.drop_last();
        external_tables_are_found(schema, cte_name, p, earlier);
        let so_far = tables_looked_up(schema, cte_name, p, earlier);
        let found = tables_looked_up(schema, cte_name, p, tables);
        if let SelectTable::Table { name, .. } = tables.last() {
            lookup_finds_the_first(schema, lowercase(name.value@));
        }
        assert forall|i: int|
            0 <= i < tables.len() && is_external(#[trigger] tables[i], cte_name) implies {
            let k = external_count(tables.take(i), cte_name) as int;
            &&& k < found.others.len()
            &&& tables[i] matches SelectTable::Table { name, .. } && found.others[k].name
                == lowercase(name.value@)
        } by {
            if i < earlier.len() {
                assert(earlier[i] == tables[i]);
                assert(earlier.take(i) =~= tables.take(i));
            } else {
                assert(tables.take(i) =~= earlier);
                assert(tables.last() == tables[i]);
            }
        }
    }
}

} // verus!
