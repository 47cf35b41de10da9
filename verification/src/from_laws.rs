//! What becomes of each table of a `FROM` clause.
use crate::compiler::{ResolverView, SelectCompiler};
use crate::cte_code::ephemeral_table;
use crate::cte_laws::has;
use crate::extension_laws::{
    cte_extends, extends, extends_on, only_extends, table_extends, tables_extend,
};
use crate::from_clause::{
    constant_row_noted, coroutine_emitted, cte_table_emitted, plan_line, table_emitted, table_steps,
    tables_emitted, tables_steps, with_plan,
};
use crate::member_code_laws::temporary_tables_are_opened;
use crate::plan::{
    FromClauseSubquery, JoinedTable, Operation, RecursiveCte, Scan, Search, SelectPlan, Table,
};
use crate::plan_copy::PlanTree;
use crate::program::{
    keyed_cursor, CursorKey, CursorTypeView, CursorView, ErrorView, Insn, InsnView, ProgramView,
};
use crate::recursive_cte::cte_emitted;
use crate::schema::BTreeTableView;
use crate::subquery_laws::{from_clause_subquery_is_a_coroutine, is_coroutine};
use vstd::prelude::*;

verus! {

// ---------------------------------------------------------------------------------------------
// Cursors of tables.

/// The cursor that is looked for by a key is the first one that belongs to it.
pub proof fn keyed_cursor_belongs_to_its_key(
    cursors: Seq<CursorView>,
    key: CursorKey,
    start: nat,
)
    ensures
        match keyed_cursor(cursors, key, start) {
            Some(i) => {
                &&& start <= i < cursors.len()
                &&& cursors[i as int].key == Some(key)
                &&& forall|j: int| start <= j < i ==> (#[trigger] cursors[j]).key != Some(key)
            },
            None => forall|j: int|
                start <= j < cursors.len() ==> (#[trigger] cursors[j]).key != Some(key),
        },
    decreases cursors.len() - start,
{
    if start < cursors.len() && cursors[start as int].key != Some(key) {
        keyed_cursor_belongs_to_its_key(cursors, key, start + 1);
    }
}

/// How many lines a table has in the query plan.
pub open spec fn line_count(p: ProgramView) -> int {
    if p.query_mode is ExplainQueryPlan {
        1
    } else {
        0
    }
}

/// The recursive expression that a table is.
pub open spec fn cte_of(t: JoinedTable) -> RecursiveCte {
    *t.table->RecursiveCte_0
}

/// The rows of a recursive expression go to the cursor that belongs to its table: one that does is
/// kept, and else a new one is opened. Its code, which begins behind the plan line, writes to it.
pub open spec fn writes_to_own_cursor<C: SelectCompiler>(
    c: C,
    resolver: ResolverView,
    before: ProgramView,
    t: JoinedTable,
    after: ProgramView,
    output: int,
    begun: ProgramView,
    emitted: ProgramView,
) -> bool {
    let key = CursorKey { table: t.internal_id };
    let b = before.insns.len() + line_count(before);
    let cte = cte_of(t);
    &&& 0 <= output < begun.cursors.len() <= after.cursors.len()
    &&& after.cursors[output].key == Some(key)
    &&& has(after, b, Insn::OpenEphemeral { cursor_id: output as usize, is_table: true })
    &&& if exists|i: int|
        0 <= i < before.cursors.len() && (#[trigger] before.cursors[i]).key == Some(key) {
        &&& output < before.cursors.len()
        &&& begun.cursors == before.cursors
        &&& forall|i: int| 0 <= i < output ==> (#[trigger] before.cursors[i]).key != Some(key)
    } else {
        &&& output == before.cursors.len()
        &&& begun.cursors == before.cursors.push(after.cursors[output])
        &&& after.cursors[output].cursor_type == CursorTypeView::BTreeTable(
            BTreeTableView {
                root_page: 0,
                name: "cte_"@ + cte.name@,
                columns: cte.columns@,
                has_rowid: true,
                is_strict: false,
                has_autoincrement: false,
            },
        )
    }
    &&& begun.insns.len() == b
    &&& cte_emitted(
        c,
        begun,
        cte,
        output as usize,
        t.internal_id,
        resolver,
        emitted,
        Ok(()),
    )
    &&& after.insns == emitted.insns
    &&& after.cursors == emitted.cursors
    &&& after.labels == emitted.labels
}

proof fn unit_result(r: Result<(), ErrorView>)
    requires
        r is Ok,
    ensures
        r == Ok::<(), ErrorView>(()),
{
    match r {
        Ok(unit) => {
            assert(unit == ());
        },
        Err(_) => {},
    }
}

/// The rows of a recursive expression in a `FROM` clause go to a cursor that belongs to its own
/// table and to no other. The rest of the compiler has to add to the program only.
#[verifier::spinoff_prover]
#[verifier::rlimit(60)]
pub proof fn cte_writes_to_own_cursor<C: SelectCompiler>(
    c: C,
    resolver: ResolverView,
    before: ProgramView,
    t: JoinedTable,
    after: ProgramView,
    t_after: JoinedTable,
    result: Result<(), ErrorView>,
) -> (places: (int, ProgramView, ProgramView))
    requires
        only_extends(c),
        table_emitted(c, resolver, before, t, after, t_after, result),
        result is Ok,
        t.table is RecursiveCte,
        before.cursors.len() + 1 < usize::MAX,
    ensures
        writes_to_own_cursor(c, resolver, before, t, after, places.0, places.1, places.2),
        t_after == t,
{
    let p = before.explain(true, plan_line(t));
    let key = CursorKey { table: t.internal_id };
    let (q, _, _) = table_steps(c, resolver, before, t, after, t_after, result);
    unit_result(result);
    keyed_cursor_belongs_to_its_key(before.cursors, key, 0);
    let cte = cte_of(t);
    let found = keyed_cursor(before.cursors, key, 0);
    let begun = match found {
        Some(_) => p,
        None => p.with_cursor(
            Some(key),
            CursorTypeView::BTreeTable(ephemeral_table(cte.name@, cte.columns@)),
        ),
    };
    let output = match found {
        Some(i) => i as int,
        None => before.cursors.len() as int,
    };
    temporary_tables_are_opened(
        c,
        begun,
        cte,
        output as usize,
        t.internal_id,
        resolver,
        q,
        result,
    );
    cte_extends(c, begun, cte, output as usize, t.internal_id, resolver, q, result);
    assert(q.cursors[output] == begun.cursors[output]);
    if let Some(i) = found {
        assert(before.cursors[i as int].key == Some(key));
    }
    (output, begun, q)
}

/// A subquery of a `FROM` clause is emitted as a coroutine behind its plan line, and its table says
/// where its result columns are: where the compiler says that they are. The plan is the one that
/// the compiler gave back. The rest of the compiler has to add to the program only.
pub proof fn subquery_is_readable<C: SelectCompiler>(
    c: C,
    resolver: ResolverView,
    before: ProgramView,
    t: JoinedTable,
    after: ProgramView,
    t_after: JoinedTable,
    result: Result<(), ErrorView>,
) -> (code: (ProgramView, ProgramView, usize))
    requires
        only_extends(c),
        table_emitted(c, resolver, before, t, after, t_after, result),
        result is Ok,
        t.table is FromClauseSubquery,
    ensures
        ({
            let (begun, emitted, start) = code;
            let subquery = t.table->FromClauseSubquery_0;
            &&& begun.insns.len() == before.insns.len() + line_count(before)
            &&& begun.next_free_register == before.next_free_register
            &&& begun.next_label == before.next_label
            &&& after.insns == emitted.insns
            &&& after.labels == emitted.labels
            &&& t_after.table matches Table::FromClauseSubquery(done)
                && done.result_columns_start_reg == Some(start) && done.name == subquery.name
                && done.columns == subquery.columns && coroutine_emitted(
                c,
                begun,
                *subquery.plan,
                resolver.schema,
                emitted,
                *done.plan,
                Ok(start),
            ) && exists|asked: ProgramView, given: PlanTree, program: ProgramView| #[trigger]
                is_coroutine(
                    c,
                    begun,
                    *subquery.plan,
                    resolver.schema,
                    emitted,
                    *done.plan,
                    Ok(start),
                    asked,
                    given,
                    program,
                )
            &&& t_after == (JoinedTable { table: t_after.table, ..t })
        }),
{
    let p = before.explain(true, plan_line(t));
    let subquery = t.table->FromClauseSubquery_0;
    let (q, plan, r): (ProgramView, SelectPlan, Result<usize, ErrorView>) = choose|
        q: ProgramView,
        plan: SelectPlan,
        r: Result<usize, ErrorView>,
    |
        {
            &&& #[trigger] coroutine_emitted(c, p, *subquery.plan, resolver.schema, q, plan, r)
            &&& r is Ok
            &&& after == q.pop_explain()
            &&& t_after == with_plan(t, subquery, plan, Some(r->Ok_0))
        };
    let start = r->Ok_0;
    assert(r == Ok::<usize, ErrorView>(start));
    let (asked, given, program) = from_clause_subquery_is_a_coroutine(
        c,
        p,
        *subquery.plan,
        resolver.schema,
        q,
        plan,
        r,
    );
    assert(is_coroutine(
        c,
        p,
        *subquery.plan,
        resolver.schema,
        q,
        plan,
        r,
        asked,
        given,
        program,
    ));
    (p, q, start)
}

/// A table has an output cursor that belongs to it, and the instructions from a position on open it
/// as a temporary table.
pub open spec fn has_own_cursor(
    from: int,
    after: ProgramView,
    t: JoinedTable,
    output: int,
) -> bool {
    &&& 0 <= output < after.cursors.len()
    &&& after.cursors[output].key == Some(CursorKey { table: t.internal_id })
    &&& exists|at: int|
        from <= at < after.insns.len() && #[trigger] after.insns[at] == InsnView::Plain(
            Insn::OpenEphemeral { cursor_id: output as usize, is_table: true },
        )
}

proof fn own_cursor_stays(
    from: int,
    mid: ProgramView,
    after: ProgramView,
    t: JoinedTable,
    output: int,
)
    requires
        0 <= from,
        has_own_cursor(from, mid, t, output),
        extends(mid, after),
    ensures
        has_own_cursor(from, after, t, output),
{
    let at = choose|at: int|
        from <= at < mid.insns.len() && #[trigger] mid.insns[at] == InsnView::Plain(
            Insn::OpenEphemeral { cursor_id: output as usize, is_table: true },
        );
    assert(after.insns[at] == mid.insns[at]);
    assert(after.cursors[output] == mid.cursors[output]);
}

proof fn own_cursor_of<C: SelectCompiler>(
    c: C,
    resolver: ResolverView,
    before: ProgramView,
    t: JoinedTable,
    after: ProgramView,
    t_after: JoinedTable,
    result: Result<(), ErrorView>,
    from: int,
) -> (output: int)
    requires
        only_extends(c),
        table_emitted(c, resolver, before, t, after, t_after, result),
        result is Ok,
        t.table is RecursiveCte,
        before.cursors.len() + 1 < usize::MAX,
        0 <= from <= before.insns.len(),
    ensures
        has_own_cursor(from, after, t, output),
{
    let (output, _, _) = cte_writes_to_own_cursor(
        c,
        resolver,
        before,
        t,
        after,
        t_after,
        result,
    );
    assert(after.insns[before.insns.len() + line_count(before)] == InsnView::Plain(
        Insn::OpenEphemeral { cursor_id: output as usize, is_table: true },
    ));
    output
}

/// One more table, which may be a recursive expression.
proof fn one_more_cursor<C: SelectCompiler>(
    c: C,
    resolver: ResolverView,
    before: ProgramView,
    t: JoinedTable,
    after: ProgramView,
    t_after: JoinedTable,
    result: Result<(), ErrorView>,
    from: int,
) -> (output: int)
    requires
        only_extends(c),
        table_emitted(c, resolver, before, t, after, t_after, result),
        result is Ok,
        after.cursors.len() + 1 < usize::MAX,
        0 <= from <= before.insns.len(),
    ensures
        extends(before, after),
        t.table is RecursiveCte ==> has_own_cursor(from, after, t, output),
{
    table_extends(c, resolver, before, t, after, t_after, result);
    if t.table is RecursiveCte {
        own_cursor_of(c, resolver, before, t, after, t_after, result, from)
    } else {
        0
    }
}

#[verifier::rlimit(40)]
proof fn own_cursors<C: SelectCompiler>(
    c: C,
    resolver: ResolverView,
    before: ProgramView,
    tables: Seq<JoinedTable>,
    after: ProgramView,
    tables_after: Seq<JoinedTable>,
    result: Result<(), ErrorView>,
) -> (outputs: Seq<int>)
    requires
        only_extends(c),
        tables_emitted(c, resolver, before, tables, after, tables_after, result),
        result is Ok,
        after.cursors.len() + 1 < usize::MAX,
    ensures
        outputs.len() == tables.len(),
        extends(before, after),
        forall|i: int|
            0 <= i < tables.len() && (#[trigger] tables[i]).table is RecursiveCte
                ==> has_own_cursor(before.insns.len() as int, after, tables[i], outputs[i]),
    decreases tables.len(),
{
    if tables.len() == 0 {
        Seq::empty()
    } else {
        let n = tables.len() - 1;
        let from = before.insns.len() as int;
        let (mid, r) = tables_steps(c, resolver, before, tables, after, tables_after, result);
        let earlier_tables = tables.drop_last();
        let t = tables.last();
        let t_after = tables_after.last();
        tables_extend(
            c,
            resolver,
            before,
            earlier_tables,
            mid,
            tables_after.drop_last(),
            r,
        );
        let last = one_more_cursor(c, resolver, mid, t, after, t_after, result, from);
        extends_on(before, mid, after);
        let earlier = own_cursors(
            c,
            resolver,
            before,
            earlier_tables,
            mid,
            tables_after.drop_last(),
            r,
        );
        let outputs = earlier.push(last);
        assert forall|i: int|
            0 <= i < tables.len() && (
            #[trigger] tables[i]).table is RecursiveCte implies has_own_cursor(
            from,
            after,
            tables[i],
            outputs[i],
        ) by {
            if i < n {
                assert(earlier_tables[i] == tables[i]);
                own_cursor_stays(from, mid, after, tables[i], outputs[i]);
            }
        }
        outputs
    }
}

/// Every recursive expression of a `FROM` clause has an output cursor that belongs to its table, so
/// that two with different numbers have different cursors. The rest of the compiler has to add to
/// the program only.
pub proof fn ctes_have_cursors_of_their_own<C: SelectCompiler>(
    c: C,
    resolver: ResolverView,
    before: ProgramView,
    tables: Seq<JoinedTable>,
    after: ProgramView,
    tables_after: Seq<JoinedTable>,
    result: Result<(), ErrorView>,
) -> (outputs: Seq<int>)
    requires
        only_extends(c),
        tables_emitted(c, resolver, before, tables, after, tables_after, result),
        result is Ok,
        after.cursors.len() + 1 < usize::MAX,
    ensures
        outputs.len() == tables.len(),
        forall|i: int|
            0 <= i < tables.len() && (#[trigger] tables[i]).table is RecursiveCte
                ==> has_own_cursor(before.insns.len() as int, after, tables[i], outputs[i]),
        forall|i: int, j: int|
            0 <= i < tables.len() && 0 <= j < tables.len() && (
            #[trigger] tables[i]).table is RecursiveCte && (
            #[trigger] tables[j]).table is RecursiveCte && tables[i].internal_id
                != tables[j].internal_id ==> outputs[i] != outputs[j],
{
    own_cursors(c, resolver, before, tables, after, tables_after, result)
}

// ---------------------------------------------------------------------------------------------
// The query plan.

/// A table in the query plan: its name, with the alias if that is another one.
pub open spec fn says_name(t: JoinedTable) -> Seq<char> {
    let name = match t.table {
        Table::BTree(table) => table.name@,
        Table::Virtual(table) => table.name@,
        Table::FromClauseSubquery(table) => table.name@,
        Table::RecursiveCte(table) => table.name@,
    };
    if name == t.identifier@ {
        name
    } else {
        name + " AS "@ + t.identifier@
    }
}

/// What the query plan says of a table: a scan, with the index that it goes through; a search, by
/// the index or by the rowid; the method of an index; or a hash join.
pub proof fn query_plan_says_how_a_table_is_read(t: JoinedTable)
    ensures
        match t.op {
            Operation::Scan(Scan::BTreeTable { index: Some(index) }) => plan_line(t) == "SCAN "@
                + says_name(t) + (if t.utilizes_covering_index {
                " USING COVERING INDEX "@
            } else {
                " USING INDEX "@
            }) + index.name@,
            Operation::Scan(Scan::BTreeTable { index: None }) => plan_line(t) == "SCAN "@
                + says_name(t),
            Operation::Scan(Scan::VirtualTable) => plan_line(t) == "SCAN "@ + says_name(t),
            Operation::Scan(Scan::Subquery) => plan_line(t) == "SCAN "@ + says_name(t),
            Operation::Scan(Scan::RecursiveCte) => plan_line(t) == "SCAN "@ + says_name(t),
            Operation::Search(Search::RowidEq) => plan_line(t) == "SEARCH "@ + t.identifier@
                + " USING INTEGER PRIMARY KEY (rowid=?)"@,
            Operation::Search(Search::Seek { index: None }) => plan_line(t) == "SEARCH "@
                + t.identifier@ + " USING INTEGER PRIMARY KEY (rowid=?)"@,
            Operation::Search(Search::Seek { index: Some(index) }) => plan_line(t) == "SEARCH "@
                + t.identifier@ + " USING INDEX "@ + index.name@,
            Operation::IndexMethodQuery { method_name } => plan_line(t) == "QUERY INDEX METHOD "@
                + method_name@,
            Operation::HashJoin => plan_line(t) == "HASH JOIN"@,
        },
{
}

/// Where the query plan is asked for, each table has a line of its own, under the line that
/// enclosed it, in front of its code; and the code that follows is under that line. Elsewhere there
/// are no lines. The line is taken back at the end.
pub proof fn each_table_has_a_line(before: ProgramView, t: JoinedTable)
    requires
        before.insns.len() <= usize::MAX,
    ensures
        ({
            let p = before.explain(true, plan_line(t));
            let b = before.insns.len();
            if before.query_mode is ExplainQueryPlan {
                &&& p.insns.len() == b + 1
                &&& p.insns.take(b as int) == before.insns
                &&& p.insns[b as int] == (InsnView::Explain {
                    p1: b,
                    p2: if before.explain_parents.len() == 0 {
                        None
                    } else {
                        Some(before.explain_parents[before.explain_parents.len() - 1])
                    },
                    detail: plan_line(t),
                })
                &&& p.explain_parents.len() == before.explain_parents.len() + 1
                &&& p.explain_parents.last() == b
                &&& p.explain_parents.take(before.explain_parents.len() as int)
                    == before.explain_parents
            } else {
                p == before
            }
        }),
{
    let p = before.explain(true, plan_line(t));
    if before.query_mode is ExplainQueryPlan {
        assert(p.insns.take(before.insns.len() as int) =~= before.insns);
        assert(p.explain_parents.take(before.explain_parents.len() as int)
            =~= before.explain_parents);
    }
}

/// A program stands behind the line of a table, and what is added to it is under that line.
pub open spec fn is_under_line(before: ProgramView, t: JoinedTable, begun: ProgramView) -> bool {
    if before.query_mode is ExplainQueryPlan {
        &&& begun.insns == before.insns.push(
            InsnView::Explain {
                p1: before.insns.len(),
                p2: if before.explain_parents.len() == 0 {
                    None
                } else {
                    Some(before.explain_parents[before.explain_parents.len() - 1])
                },
                detail: plan_line(t),
            },
        )
        &&& begun.explain_parents == before.explain_parents.push(before.insns.len() as usize)
    } else {
        &&& begun.insns == before.insns
        &&& begun.explain_parents == before.explain_parents
    }
}

/// The line above the last instructions ends, and nothing else changes.
pub open spec fn line_ends(emitted: ProgramView, after: ProgramView) -> bool {
    &&& after == (ProgramView { explain_parents: after.explain_parents, ..emitted })
    &&& after.explain_parents == if emitted.query_mode is ExplainQueryPlan
        && emitted.explain_parents.len() > 0 {
        emitted.explain_parents.take(emitted.explain_parents.len() - 1)
    } else {
        emitted.explain_parents
    }
}

/// The code of a table, from a program to another: that of a subquery, that of a recursive
/// expression, or none.
pub open spec fn is_code_of<C: SelectCompiler>(
    c: C,
    resolver: ResolverView,
    t: JoinedTable,
    begun: ProgramView,
    emitted: ProgramView,
) -> bool {
    match t.table {
        Table::BTree(_) => emitted == begun,
        Table::Virtual(_) => emitted == begun,
        Table::FromClauseSubquery(subquery) => exists|plan: SelectPlan, start: usize| #[trigger]
            coroutine_emitted(
                c,
                begun,
                *subquery.plan,
                resolver.schema,
                emitted,
                plan,
                Ok(start),
            ),
        Table::RecursiveCte(cte) => exists|output: usize| #[trigger]
            cte_emitted(
                c,
                begun,
                *cte,
                output,
                t.internal_id,
                resolver,
                emitted,
                Ok(()),
            ),
    }
}

/// The code of a table stands under a line of the query plan that says how the table is read, and
/// the line ends behind it.
pub proof fn table_code_is_under_its_line<C: SelectCompiler>(
    c: C,
    resolver: ResolverView,
    before: ProgramView,
    t: JoinedTable,
    after: ProgramView,
    t_after: JoinedTable,
    result: Result<(), ErrorView>,
) -> (code: (ProgramView, ProgramView))
    requires
        table_emitted(c, resolver, before, t, after, t_after, result),
        result is Ok,
    ensures
        is_under_line(before, t, code.0),
        is_code_of(c, resolver, t, code.0, code.1),
        line_ends(code.1, after),
{
    let p = before.explain(true, plan_line(t));
    unit_result(result);
    assert(is_under_line(before, t, p));
    match t.table {
        Table::FromClauseSubquery(subquery) => {
            let (q, plan, r): (ProgramView, SelectPlan, Result<usize, ErrorView>) = choose|
                q: ProgramView,
                plan: SelectPlan,
                r: Result<usize, ErrorView>,
            |
                {
                    &&& #[trigger] coroutine_emitted(
                        c,
                        p,
                        *subquery.plan,
                        resolver.schema,
                        q,
                        plan,
                        r,
                    )
                    &&& r is Ok
                    &&& after == q.pop_explain()
                    &&& t_after == with_plan(t, subquery, plan, Some(r->Ok_0))
                };
            assert(r == Ok::<usize, ErrorView>(r->Ok_0));
            (p, q)
        },
        Table::RecursiveCte(cte) => {
            let key = CursorKey { table: t.internal_id };
            let q = choose|q: ProgramView|
                {
                    &&& #[trigger] cte_table_emitted(
                        c,
                        resolver,
                        p,
                        *cte,
                        t.internal_id,
                        q,
                        result,
                    )
                    &&& after == q.pop_explain()
                };
            let begun = match keyed_cursor(p.cursors, key, 0) {
                Some(_) => p,
                None => p.with_cursor(
                    Some(key),
                    CursorTypeView::BTreeTable(ephemeral_table(cte.name@, cte.columns@)),
                ),
            };
            (begun, q)
        },
        _ => (p, p),
    }
}

/// A query without tables has one line in the query plan, which encloses nothing; one with tables
/// has no such line.
pub proof fn constant_row_has_a_line(before: ProgramView, tables: nat)
    ensures
        ({
            let p = constant_row_noted(before, tables);
            if tables == 0 && before.query_mode is ExplainQueryPlan {
                &&& p.insns.len() == before.insns.len() + 1
                &&& p.insns.last() matches InsnView::Explain { p1, p2, detail } && p1
                    == before.insns.len() && detail == "SCAN CONSTANT ROW"@ && p2 == (
                if before.explain_parents.len() == 0 {
                    None
                } else {
                    Some(before.explain_parents[before.explain_parents.len() - 1])
                })
                &&& p.insns.take(before.insns.len() as int) == before.insns
                &&& p.explain_parents == before.explain_parents
            } else {
                p == before
            }
        }),
{
    let p = constant_row_noted(before, tables);
    assert(p.insns.take(before.insns.len() as int) =~= before.insns);
}

/// A table that is neither a subquery nor a recursive expression has its line in the query plan
/// and nothing else.
pub proof fn ordinary_table_has_only_a_line<C: SelectCompiler>(
    c: C,
    resolver: ResolverView,
    before: ProgramView,
    t: JoinedTable,
    after: ProgramView,
    t_after: JoinedTable,
    result: Result<(), ErrorView>,
)
    requires
        table_emitted(c, resolver, before, t, after, t_after, result),
        t.table is BTree || t.table is Virtual,
    ensures
        result is Ok,
        t_after == t,
        after.insns.len() == before.insns.len() + line_count(before),
        after.explain_parents == before.explain_parents,
        after.labels == before.labels,
        after.cursors == before.cursors,
        after.next_free_register == before.next_free_register,
        after.next_label == before.next_label,
{
    assert(before.explain_parents.push(before.insns.len() as usize).drop_last()
        =~= before.explain_parents);
}

} // verus!
