//! What the compiler is asked for the code of a recursive member, and against what.
use crate::ast::{Expr, ExprKind, ExprTree, TableInternalId};
use crate::compiler::{
    translates_condition, translates_expr, ConditionMetadata, ResolverView, SelectCompiler,
    TableReferencesView,
};
use crate::cte_code::{
    anchor_opened, cte_loop, loop_entered, loop_finished, loop_label_count, other_columns,
    CteLayout, OtherTable,
};
use crate::cte_laws::{has, to};
use crate::cte_stages::{
    cte_stages, layout_of, member_stage, opened_for, stages_are_kept, stages_go_on, stages_hold,
    CteStages,
};
use crate::extension_laws::{extends, only_extends};
use crate::machine::Machine;
use crate::plan::{
    FromClause, JoinConstraint, JoinedSelectTable, OneSelect, Operation, RecursiveCte, Scan, Table,
};
use crate::program::{CursorTypeView, CursorView, ErrorView, Insn, LimboError, ProgramView};
use crate::recursive_cte::{
    bound_columns, bound_conditions, bound_in_member, conditions_steps, conditions_translated,
    cte_emitted, exprs_steps, exprs_translated, first_other, from_tables, member_conditions,
    member_resolver, member_tables, on_conditions,
};
use crate::round_laws::{
    begins_inner_loop, begins_rounds, ends_loops, ends_rounds, entering_code, finishing_code,
    RoundCode,
};
use crate::schema::{BTreeTable, BTreeTableView, Column};
use vstd::prelude::*;

verus! {

// ---------------------------------------------------------------------------------------------
// The temporary tables.

/// The three temporary tables of an expression are opened in front of everything else: the one for
/// the output, the one that a round goes over, and the one for new rows. The two that this library
/// takes cursors for have the columns of the expression, and belong to no table of the query.
pub proof fn temporary_tables_are_opened<C: SelectCompiler>(
    c: C,
    before: ProgramView,
    cte: RecursiveCte,
    output: usize,
    internal_id: TableInternalId,
    resolver: ResolverView,
    after: ProgramView,
    result: Result<(), ErrorView>,
)
    requires
        only_extends(c),
        cte_emitted(c, before, cte, output, internal_id, resolver, after, result),
        result is Ok,
        before.cursors.len() < usize::MAX,
    ensures
        ({
            let b = before.insns.len() as int;
            let working = before.cursors.len() as int;
            let cursor = CursorView {
                key: None,
                cursor_type: CursorTypeView::BTreeTable(
                    BTreeTableView {
                        root_page: 0,
                        name: "cte_"@ + cte.name@,
                        columns: cte.columns@,
                        has_rowid: true,
                        is_strict: false,
                        has_autoincrement: false,
                    },
                ),
            };
            &&& has(after, b, Insn::OpenEphemeral { cursor_id: output, is_table: true })
            &&& has(
                after,
                b + 1,
                Insn::OpenEphemeral { cursor_id: working as usize, is_table: true },
            )
            &&& has(
                after,
                b + 2,
                Insn::OpenEphemeral { cursor_id: (working + 1) as usize, is_table: true },
            )
            &&& working + 1 < after.cursors.len()
            &&& after.cursors[working] == cursor
            &&& after.cursors[working + 1] == cursor
        }),
{
    let s = cte_stages(c, before, cte, output, internal_id, resolver, after, result);
    stages_go_on(c, before, cte, output, internal_id, resolver, after, s);
    stages_are_kept(before, cte, output, after, s);
    opening_code(before, cte, output, after);
}

proof fn opening_code(before: ProgramView, cte: RecursiveCte, output: usize, after: ProgramView)
    requires
        extends(anchor_opened(opened_for(before, cte, output)), after),
        before.cursors.len() < usize::MAX,
    ensures
        ({
            let b = before.insns.len() as int;
            let working = before.cursors.len() as int;
            let cursor = CursorView {
                key: None,
                cursor_type: CursorTypeView::BTreeTable(
                    BTreeTableView {
                        root_page: 0,
                        name: "cte_"@ + cte.name@,
                        columns: cte.columns@,
                        has_rowid: true,
                        is_strict: false,
                        has_autoincrement: false,
                    },
                ),
            };
            &&& has(after, b, Insn::OpenEphemeral { cursor_id: output, is_table: true })
            &&& has(
                after,
                b + 1,
                Insn::OpenEphemeral { cursor_id: working as usize, is_table: true },
            )
            &&& has(
                after,
                b + 2,
                Insn::OpenEphemeral { cursor_id: (working + 1) as usize, is_table: true },
            )
            &&& working + 1 < after.cursors.len()
            &&& after.cursors[working] == cursor
            &&& after.cursors[working + 1] == cursor
        }),
{
    let z = anchor_opened(opened_for(before, cte, output));
    let b = before.insns.len() as int;
    let working = before.cursors.len() as int;
    assert(after.insns[b] == z.insns[b]);
    assert(after.insns[b + 1] == z.insns[b + 1]);
    assert(after.insns[b + 2] == z.insns[b + 2]);
    assert(after.cursors[working] == z.cursors[working]);
    assert(after.cursors[working + 1] == z.cursors[working + 1]);
}

// ---------------------------------------------------------------------------------------------
// Expressions and conditions, one after the other.

/// The compiler translates an expression into a register.
pub open spec fn is_translated<C: SelectCompiler>(
    c: C,
    before: ProgramView,
    expr: ExprTree,
    register: int,
    resolver: ResolverView,
    after: ProgramView,
) -> bool {
    exists|reply: Result<usize, LimboError>| #[trigger]
        translates_expr(c, before, expr, register as usize, resolver, after, reply) && reply is Ok
}

/// The compiler translates a condition that, unless it holds, leads to the label with a number.
pub open spec fn is_tested<C: SelectCompiler>(
    c: C,
    before: ProgramView,
    tables: TableReferencesView,
    condition: ExprTree,
    otherwise: nat,
    resolver: ResolverView,
    after: ProgramView,
) -> bool {
    exists|reply: Result<(), LimboError>| #[trigger]
        translates_condition(
            c,
            before,
            tables,
            condition,
            (ConditionMetadata {
                jump_if_condition_is_true: false,
                jump_target_when_true: to(otherwise),
                jump_target_when_false: to(otherwise),
                jump_target_when_null: to(otherwise),
            }),
            resolver,
            after,
            reply,
        ) && reply is Ok
}

proof fn exprs_in_turn<C: SelectCompiler>(
    c: C,
    before: ProgramView,
    exprs: Seq<ExprTree>,
    first: usize,
    resolver: ResolverView,
    after: ProgramView,
    result: Result<(), ErrorView>,
) -> (programs: Seq<ProgramView>)
    requires
        exprs_translated(c, before, exprs, first, resolver, after, result),
        result is Ok,
    ensures
        programs.len() == exprs.len() + 1,
        programs.first() == before,
        programs.last() == after,
        forall|i: int|
            0 <= i < exprs.len() ==> #[trigger] is_translated(
                c,
                programs[i],
                exprs[i],
                first + i,
                resolver,
                programs[i + 1],
            ),
    decreases exprs.len(),
{
    if exprs.len() == 0 {
        seq![before]
    } else {
        let (mid, r) = exprs_steps(c, before, exprs, first, resolver, after, result);
        let earlier = exprs_in_turn(c, before, exprs.drop_last(), first, resolver, mid, r);
        let programs = earlier.push(after);
        let n = exprs.len() - 1;
        assert forall|i: int| 0 <= i < exprs.len() implies #[trigger] is_translated(
            c,
            programs[i],
            exprs[i],
            first + i,
            resolver,
            programs[i + 1],
        ) by {
            if i < n {
                assert(is_translated(
                    c,
                    earlier[i],
                    exprs.drop_last()[i],
                    first + i,
                    resolver,
                    earlier[i + 1],
                ));
            } else {
                assert(earlier[n] == mid);
                assert(exprs.last() == exprs[n]);
            }
        }
        programs
    }
}

proof fn conditions_in_turn<C: SelectCompiler>(
    c: C,
    before: ProgramView,
    tables: TableReferencesView,
    conditions: Seq<ExprTree>,
    otherwise: nat,
    resolver: ResolverView,
    after: ProgramView,
    result: Result<(), ErrorView>,
) -> (programs: Seq<ProgramView>)
    requires
        conditions_translated(
            c,
            before,
            tables,
            conditions,
            to(otherwise),
            resolver,
            after,
            result,
        ),
        result is Ok,
    ensures
        programs.len() == conditions.len() + 1,
        programs.first() == before,
        programs.last() == after,
        forall|i: int|
            0 <= i < conditions.len() ==> #[trigger] is_tested(
                c,
                programs[i],
                tables,
                conditions[i],
                otherwise,
                resolver,
                programs[i + 1],
            ),
    decreases conditions.len(),
{
    if conditions.len() == 0 {
        seq![before]
    } else {
        let (mid, r) = conditions_steps(
            c,
            before,
            tables,
            conditions,
            to(otherwise),
            resolver,
            after,
            result,
        );
        let earlier = conditions_in_turn(
            c,
            before,
            tables,
            conditions.drop_last(),
            otherwise,
            resolver,
            mid,
            r,
        );
        let programs = earlier.push(after);
        let n = conditions.len() - 1;
        assert forall|i: int| 0 <= i < conditions.len() implies #[trigger] is_tested(
            c,
            programs[i],
            tables,
            conditions[i],
            otherwise,
            resolver,
            programs[i + 1],
        ) by {
            if i < n {
                assert(is_tested(
                    c,
                    earlier[i],
                    tables,
                    conditions.drop_last()[i],
                    otherwise,
                    resolver,
                    earlier[i + 1],
                ));
            } else {
                assert(earlier[n] == mid);
                assert(conditions.last() == conditions[n]);
            }
        }
        programs
    }
}

// ---------------------------------------------------------------------------------------------
// The conditions.

/// How many of the first `n` joins have an `ON` condition.
pub open spec fn on_count(joins: Seq<JoinedSelectTable>, n: int) -> nat
    decreases n,
{
    if n <= 0 {
        0
    } else {
        on_count(joins, n - 1) + if joins[n - 1].constraint matches Some(JoinConstraint::On(_)) {
            1nat
        } else {
            0nat
        }
    }
}

/// A list of conditions has every `ON` condition of a `FROM` clause, from left to right, then the
/// `WHERE` condition, and no other.
pub open spec fn lists_conditions(
    from: Option<FromClause>,
    where_clause: Option<Box<Expr>>,
    conditions: Seq<ExprTree>,
) -> bool {
    let joins = match from {
        Some(from) => from.joins@,
        None => seq![],
    };
    let n = on_count(joins, joins.len() as int);
    &&& forall|i: int|
        #![trigger joins[i]]
        0 <= i < joins.len() ==> (joins[i].constraint matches Some(JoinConstraint::On(condition))
            ==> on_count(joins, i) < conditions.len() && conditions[on_count(joins, i) as int]
            == (*condition)@)
    &&& match where_clause {
        Some(condition) => conditions.len() == n + 1 && conditions[n as int] == (*condition)@,
        None => conditions.len() == n,
    }
}

proof fn on_conditions_are_listed(joins: Seq<JoinedSelectTable>, n: int)
    requires
        0 <= n <= joins.len(),
    ensures
        on_conditions(joins.take(n)).len() == on_count(joins, n),
        forall|i: int|
            #![trigger joins[i]]
            0 <= i < n ==> (joins[i].constraint matches Some(JoinConstraint::On(condition))
                ==> on_count(joins, i) < on_count(joins, n) && on_conditions(
                joins.take(n),
            )[on_count(joins, i) as int] == (*condition)@),
    decreases n,
{
    if n > 0 {
        on_conditions_are_listed(joins, n - 1);
        assert(joins.take(n).drop_last() =~= joins.take(n - 1));
        assert(joins.take(n).last() == joins[n - 1]);
    }
}

/// The conditions of a recursive member are the `ON` conditions of its joins, from left to right,
/// and then its `WHERE` condition.
pub proof fn conditions_are_listed(from: Option<FromClause>, where_clause: Option<Box<Expr>>)
    ensures
        lists_conditions(from, where_clause, member_conditions(from, where_clause)),
{
    let joins = match from {
        Some(from) => from.joins@,
        None => seq![],
    };
    on_conditions_are_listed(joins, joins.len() as int);
    assert(joins.take(joins.len() as int) =~= joins);
}

// ---------------------------------------------------------------------------------------------
// Columns in registers, and tables.

/// The tree of a bound column.
pub open spec fn column_tree(
    table: TableInternalId,
    column: int,
    is_rowid_alias: bool,
) -> ExprTree {
    ExprTree {
        kind: ExprKind::Column { database: None, table, column: column as usize, is_rowid_alias },
        children: seq![],
    }
}

/// A resolver finds the columns of the expression in the registers from `row` on and those of the
/// other table in the registers from `first` on, beside what another resolver finds.
pub open spec fn finds_in_registers(
    resolver: ResolverView,
    local: ResolverView,
    internal_id: TableInternalId,
    row: int,
    n: nat,
    other: Option<OtherTable>,
    first: int,
) -> bool {
    let known = resolver.expr_to_reg_cache.len() as int;
    let more = match other {
        Some(other) => other.table.columns@.len(),
        None => 0,
    };
    &&& local.schema == resolver.schema
    &&& local.expr_to_reg_cache_enabled
    &&& local.expr_to_reg_cache.len() == known + n + more
    &&& forall|i: int|
        0 <= i < known ==> #[trigger] local.expr_to_reg_cache[i] == resolver.expr_to_reg_cache[i]
    &&& forall|i: int|
        known <= i < known + n ==> #[trigger] local.expr_to_reg_cache[i] == (
            column_tree(internal_id, i - known, false),
            (row + (i - known)) as usize,
        )
    &&& other matches Some(other) ==> forall|i: int|
        known + n <= i < known + n + more ==> #[trigger] local.expr_to_reg_cache[i] == (
            column_tree(
                other.internal_id,
                i - known - n,
                other.table.columns@[i - known - n].is_rowid_alias,
            ),
            (first + (i - known - n)) as usize,
        )
}

/// The tables that conditions can refer to: the expression under its name, and the other table.
pub open spec fn refers_to(
    tables: TableReferencesView,
    cte: RecursiveCte,
    internal_id: TableInternalId,
    other: Option<OtherTable>,
) -> bool {
    let joined = tables.joined_tables;
    &&& tables.outer_query_refs.len() == 0
    &&& joined.len() == if other is Some {
        2int
    } else {
        1
    }
    &&& joined[0].table matches Table::RecursiveCte(itself) && itself.name == cte.name
        && itself.columns == cte.columns && itself.recursive_member == cte.recursive_member
        && itself.anchor_plan is None
    &&& joined[0].op == Operation::Scan(Scan::RecursiveCte)
    &&& joined[0].identifier == cte.name@
    &&& joined[0].internal_id == internal_id
    &&& joined[0].col_used_mask == Set::<nat>::empty()
    &&& !joined[0].utilizes_covering_index
    &&& joined[0].database_id == 0
    &&& other matches Some(other) ==> {
        &&& joined[1].table matches Table::BTree(table) && *table == other.table
        &&& joined[1].op == Operation::Scan(Scan::BTreeTable { index: None })
        &&& joined[1].identifier == other.name
        &&& joined[1].internal_id == other.internal_id
        &&& joined[1].col_used_mask == Set::<nat>::empty()
        &&& !joined[1].utilizes_covering_index
        &&& joined[1].database_id == 0
    }
}

proof fn resolver_finds_columns(
    resolver: ResolverView,
    internal_id: TableInternalId,
    l: CteLayout,
    found: ProgramView,
    other: Option<OtherTable>,
)
    requires
        found.next_free_register + 2 <= usize::MAX,
    ensures
        finds_in_registers(
            resolver,
            member_resolver(resolver, internal_id, l, cte_loop(found, other), other),
            internal_id,
            l.row as int,
            l.columns as nat,
            other,
            found.next_free_register as int + 2,
        ),
{
}

// ---------------------------------------------------------------------------------------------
// What the compiler is asked.

/// What the compiler was asked for the code of a recursive member.
pub struct MemberCode {
    pub round: RoundCode,
    pub others: Seq<OtherTable>,
    /// The tables that the conditions refer to.
    pub tables: TableReferencesView,
    /// What the expressions are translated against.
    pub local: ResolverView,
    pub conditions: Seq<ExprTree>,
    /// The programs before, between and after the conditions.
    pub tests: Seq<ProgramView>,
    /// The programs before, between and after the columns of a new row.
    pub columns: Seq<ProgramView>,
}

/// The label of the next pair of rows: that of the inner loop, if there is one.
pub open spec fn next_pair(found: ProgramView, other: Option<OtherTable>) -> nat {
    if other is Some {
        found.next_label + 5
    } else {
        found.next_label + 3
    }
}

/// The compiler is asked to test every condition, one after the other, each of which leads to the
/// next pair of rows unless it holds; then it is asked for every column of the new row, each in a
/// register of its own.
pub open spec fn asks_for_member<C: SelectCompiler>(
    c: C,
    before: ProgramView,
    cte: RecursiveCte,
    internal_id: TableInternalId,
    code: MemberCode,
) -> bool {
    let n = cte.columns@.len();
    let r = code.round;
    let next = next_pair(r.found, r.other);
    let result = before.next_free_register as int + n;
    &&& *cte.recursive_member matches OneSelect::Select { columns, from, where_clause, .. } && {
        let named = from_tables(from);
        &&& lists_conditions(from, where_clause, code.conditions)
        &&& code.tests.len() == code.conditions.len() + 1
        &&& forall|i: int|
            0 <= i < code.conditions.len() ==> #[trigger] is_tested(
                c,
                code.tests[i],
                code.tables,
                bound_in_member(cte, internal_id, code.others, named, code.conditions[i]),
                next,
                code.local,
                code.tests[i + 1],
            )
        &&& code.columns.len() == columns@.len() + 1
        &&& forall|i: int| 0 <= i < columns@.len() ==> #[trigger] columns@[i] is Expr
        &&& forall|i: int|
            0 <= i < columns@.len() ==> #[trigger] is_translated(
                c,
                code.columns[i],
                bound_in_member(
                    cte,
                    internal_id,
                    code.others,
                    named,
                    (*columns@[i]->Expr_0)@,
                ),
                result + i,
                code.local,
                code.columns[i + 1],
            )
    }
    &&& code.tests.last() == code.columns.first()
    &&& code.columns.last() == r.computed
    &&& r.other == if code.others.len() == 0 {
        None
    } else {
        Some(code.others[0])
    }
    &&& code.others.len() <= 1
}

/// The code of a recursive member: the conditions are tested right behind the instructions that
/// bring the rows into registers, the columns are computed behind them, and the new row is stored
/// behind these. What the compiler is asked for is what the member says, and it is told where the
/// columns of the rows are.
///
/// `m` is any state of the machine.
#[verifier::spinoff_prover]
#[verifier::rlimit(60)]
pub proof fn member_is_asked_for<C: SelectCompiler>(
    c: C,
    before: ProgramView,
    cte: RecursiveCte,
    output: usize,
    internal_id: TableInternalId,
    resolver: ResolverView,
    after: ProgramView,
    result: Result<(), ErrorView>,
    m: Machine,
) -> (code: MemberCode)
    requires
        only_extends(c),
        cte_emitted(c, before, cte, output, internal_id, resolver, after, result),
        result is Ok,
        before.cursors.len() < usize::MAX,
    ensures
        asks_for_member(c, before, cte, internal_id, code),
        finds_in_registers(
            resolver,
            code.local,
            internal_id,
            before.next_free_register as int,
            cte.columns@.len(),
            code.round.other,
            code.round.found.next_free_register as int + 2,
        ),
        refers_to(code.tables, cte, internal_id, code.round.other),
        code.tests.first().insns.len() == code.round.found.insns.len() + 6 + cte.columns@.len()
            + match code.round.other {
            Some(other) => 2 + other.table.columns@.len(),
            None => 0,
        },
        begins_rounds(before, cte.columns@.len(), after, code.round, m),
        begins_inner_loop(cte.columns@.len(), after, code.round, m),
        ends_loops(before, cte.columns@.len(), after, code.round, m),
        ends_rounds(before, cte.columns@.len(), output, after, code.round, m),
{
    let s = cte_stages(c, before, cte, output, internal_id, resolver, after, result);
    stages_go_on(c, before, cte, output, internal_id, resolver, after, s);
    member_stage(c, before, cte, output, internal_id, resolver, after, s);
    stages_are_kept(before, cte, output, after, s);
    let code = asked_member(c, before, cte, output, internal_id, resolver, after, s);
    member_is_placed(before, cte, output, internal_id, resolver, after, s, code, m);
    code
}

#[verifier::spinoff_prover]
#[verifier::rlimit(60)]
proof fn member_is_placed(
    before: ProgramView,
    cte: RecursiveCte,
    output: usize,
    internal_id: TableInternalId,
    resolver: ResolverView,
    after: ProgramView,
    s: CteStages,
    code: MemberCode,
    m: Machine,
)
    requires
        before.cursors.len() < usize::MAX,
        before.has_room(2 * cte.columns@.len() + 2, 0, 0),
        s.found.has_room(
            2 + other_columns(first_other(s.others)),
            loop_label_count(first_other(s.others)),
            0,
        ),
        extends(
            loop_entered(s.found, layout_of(before, cte, output), first_other(s.others)),
            after,
        ),
        after == loop_finished(
            s.computed,
            layout_of(before, cte, output),
            cte_loop(s.found, first_other(s.others)),
        ),
        code.round == (RoundCode {
            found: s.found,
            other: first_other(s.others),
            computed: s.computed,
        }),
        code.local == member_resolver(
            resolver,
            internal_id,
            layout_of(before, cte, output),
            cte_loop(s.found, first_other(s.others)),
            first_other(s.others),
        ),
        code.tests.first() == loop_entered(
            s.found,
            layout_of(before, cte, output),
            first_other(s.others),
        ),
    ensures
        finds_in_registers(
            resolver,
            code.local,
            internal_id,
            before.next_free_register as int,
            cte.columns@.len(),
            code.round.other,
            code.round.found.next_free_register as int + 2,
        ),
        code.tests.first().insns.len() == code.round.found.insns.len() + 6 + cte.columns@.len()
            + match code.round.other {
            Some(other) => 2 + other.table.columns@.len(),
            None => 0,
        },
        begins_rounds(before, cte.columns@.len(), after, code.round, m),
        begins_inner_loop(cte.columns@.len(), after, code.round, m),
        ends_loops(before, cte.columns@.len(), after, code.round, m),
        ends_rounds(before, cte.columns@.len(), output, after, code.round, m),
{
    let l = layout_of(before, cte, output);
    let other = first_other(s.others);
    let n = cte.columns@.len();
    let k = cte_loop(s.found, other);
    entering_code(s.found, l, other, before, n, after, code.round, m);
    finishing_code(s.computed, l, k, before, n, output, after, code.round, m);
    resolver_finds_columns(resolver, internal_id, l, s.found, other);
}

proof fn asked_member<C: SelectCompiler>(
    c: C,
    before: ProgramView,
    cte: RecursiveCte,
    output: usize,
    internal_id: TableInternalId,
    resolver: ResolverView,
    after: ProgramView,
    s: CteStages,
) -> (code: MemberCode)
    requires
        stages_hold(c, before, cte, output, internal_id, resolver, after, s),
    ensures
        asks_for_member(c, before, cte, internal_id, code),
        refers_to(code.tables, cte, internal_id, code.round.other),
        code.round == (RoundCode {
            found: s.found,
            other: first_other(s.others),
            computed: s.computed,
        }),
        code.local == member_resolver(
            resolver,
            internal_id,
            layout_of(before, cte, output),
            cte_loop(s.found, first_other(s.others)),
            first_other(s.others),
        ),
        code.tests.first() == loop_entered(
            s.found,
            layout_of(before, cte, output),
            first_other(s.others),
        ),
{
    reveal(stages_hold);
    let l = layout_of(before, cte, output);
    let other = first_other(s.others);
    let k = cte_loop(s.found, other);
    let local = member_resolver(resolver, internal_id, l, k, other);
    let next = next_pair(s.found, other);
    let tables = member_tables(cte, internal_id, s.others);
    let (columns, from, where_clause) = match *cte.recursive_member {
        OneSelect::Select { columns, from, where_clause, .. } => (columns, from, where_clause),
        OneSelect::Values => arbitrary(),
    };
    let named = from_tables(from);
    let conditions = member_conditions(from, where_clause);
    conditions_are_listed(from, where_clause);
    let bound = bound_conditions(cte, internal_id, s.others, named, conditions);
    assert(k.innermost_next() == to(next));
    let tests = conditions_in_turn(
        c,
        loop_entered(s.found, l, other),
        tables,
        bound,
        next,
        local,
        s.tested,
        Ok(()),
    );
    let exprs = bound_columns(cte, internal_id, s.others, named, columns@);
    let programs = exprs_in_turn(c, s.tested, exprs, l.result, local, s.computed, Ok(()));
    let code = MemberCode {
        round: RoundCode { found: s.found, other, computed: s.computed },
        others: s.others,
        tables,
        local,
        conditions,
        tests,
        columns: programs,
    };
    assert forall|i: int| 0 <= i < conditions.len() implies #[trigger] is_tested(
        c,
        tests[i],
        tables,
        bound_in_member(cte, internal_id, s.others, named, conditions[i]),
        next,
        local,
        tests[i + 1],
    ) by {
        assert(is_tested(c, tests[i], tables, bound[i], next, local, tests[i + 1]));
    }
    assert forall|i: int| 0 <= i < columns@.len() implies #[trigger] is_translated(
        c,
        programs[i],
        bound_in_member(cte, internal_id, s.others, named, (*columns@[i]->Expr_0)@),
        before.next_free_register as int + cte.columns@.len() + i,
        local,
        programs[i + 1],
    ) by {
        assert(is_translated(c, programs[i], exprs[i], l.result + i, local, programs[i + 1]));
    }
    code
}

} // verus!
