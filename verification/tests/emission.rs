//! Emitting subqueries.
use std::cell::RefCell;
use std::sync::Arc;
use subquery::ast::{Expr, Name, SubqueryType, TableInternalId, Window};
use subquery::compiler::{
    ConditionMetadata, Resolver, Schema, SchemaTable, SelectCompiler, TranslateCtx,
};
use subquery::from_clause::{
    describe, emit_from_clause_subqueries, emit_from_clause_subquery, finish_coroutine, Coroutine,
};
use subquery::nested::{emit_non_from_clause_subquery, finish_subquery, Frame};
use subquery::plan::{
    ColumnUsedMask, FromClause, FromClauseSubquery, GroupBy, JoinConstraint, JoinOperator,
    JoinedSelectTable, JoinedTable, OneSelect, Operation, OuterQueryReference, Plan,
    QueryDestination, RecursiveCte, ResultColumn, Scan, Search, SelectPlan, SelectTable, Table,
    TableReferences, WindowDef,
};
use subquery::program::{
    BranchOffset, CursorType, Insn, JumpTarget, LabelAssignment, LimboError, ProgramBuilder,
    QueryMode,
};
use subquery::recursive_cte::emit_recursive_cte;
use subquery::schema::{BTreeTable, Column, Index};
use turso_parser::ast::{Operator, Select};

/// A compiler that marks its work with instructions of its own and writes down what it was asked.
struct Emitter {
    result_reg: Result<usize, LimboError>,
    select: Result<(), LimboError>,
    condition: Result<(), LimboError>,
    expr: Result<(), LimboError>,
    destinations: RefCell<Vec<QueryDestination>>,
    contexts: RefCell<Vec<TranslateCtx>>,
    conditions: RefCell<Vec<(Expr, ConditionMetadata, Vec<String>)>>,
    exprs: RefCell<Vec<(Expr, usize)>>,
    caches: RefCell<Vec<Vec<(Expr, usize)>>>,
}

fn emitter() -> Emitter {
    Emitter {
        result_reg: Ok(50),
        select: Ok(()),
        condition: Ok(()),
        expr: Ok(()),
        destinations: RefCell::new(Vec::new()),
        contexts: RefCell::new(Vec::new()),
        conditions: RefCell::new(Vec::new()),
        exprs: RefCell::new(Vec::new()),
        caches: RefCell::new(Vec::new()),
    }
}

const QUERY: usize = 900;
const SELECT: usize = 901;
const CONDITION: usize = 902;
const EXPR: usize = 903;

fn other(opcode: usize) -> Insn {
    Insn::Other { opcode }
}

impl SelectCompiler for Emitter {
    fn prepare_select_plan(
        &self,
        _program: ProgramBuilder,
        _select: Select,
        _resolver: &Resolver,
        _outer_query_refs: &Vec<OuterQueryReference>,
        _destination: QueryDestination,
    ) -> (ProgramBuilder, Result<Plan, LimboError>) {
        unreachable!()
    }

    fn optimize_select_plan(
        &self,
        _plan: SelectPlan,
        _schema: &Schema,
    ) -> Result<SelectPlan, LimboError> {
        unreachable!()
    }

    fn emit_query(
        &self,
        mut program: ProgramBuilder,
        mut plan: SelectPlan,
        t_ctx: TranslateCtx,
    ) -> (ProgramBuilder, SelectPlan, Result<usize, LimboError>) {
        program.emit_insn(other(QUERY));
        self.destinations.borrow_mut().push(plan.query_destination.clone());
        self.contexts.borrow_mut().push(t_ctx);
        plan.offset = Some(Box::new(Expr::Register(99)));
        (program, plan, self.result_reg.clone())
    }

    fn emit_program_for_select(
        &self,
        mut program: ProgramBuilder,
        _resolver: &Resolver,
        _plan: SelectPlan,
    ) -> (ProgramBuilder, Result<(), LimboError>) {
        program.emit_insn(other(SELECT));
        (program, self.select.clone())
    }

    fn translate_condition_expr(
        &self,
        mut program: ProgramBuilder,
        referenced_tables: &TableReferences,
        expr: &Expr,
        condition_metadata: ConditionMetadata,
        _resolver: &Resolver,
    ) -> (ProgramBuilder, Result<(), LimboError>) {
        program.emit_insn(other(CONDITION));
        let tables =
            referenced_tables.joined_tables.iter().map(|t| t.identifier.clone()).collect();
        self.conditions.borrow_mut().push((expr.clone(), condition_metadata, tables));
        (program, self.condition.clone())
    }

    fn translate_expr(
        &self,
        mut program: ProgramBuilder,
        expr: &Expr,
        target_register: usize,
        resolver: &Resolver,
    ) -> (ProgramBuilder, Result<usize, LimboError>) {
        program.emit_insn(other(EXPR));
        self.exprs.borrow_mut().push((expr.clone(), target_register));
        if resolver.expr_to_reg_cache_enabled {
            self.caches.borrow_mut().push(resolver.clone().expr_to_reg_cache);
        }
        let reply = match &self.expr {
            Ok(()) => Ok(target_register),
            Err(e) => Err(e.clone()),
        };
        (program, reply)
    }
}

fn parse_error<T>(message: &str) -> Result<T, LimboError> {
    Err(LimboError::ParseError(message.to_string()))
}

fn capacity_error<T>() -> Result<T, LimboError> {
    Err(LimboError::InternalError("program builder is out of capacity".to_string()))
}

fn name(text: &str) -> Name {
    Name { quote: None, value: text.to_string() }
}

fn id(text: &str) -> Expr {
    Expr::Id(name(text))
}

fn column(table: usize, column: usize, is_rowid_alias: bool) -> Expr {
    Expr::Column { database: None, table: TableInternalId(table), column, is_rowid_alias }
}

fn named(text: &str) -> Column {
    Column { name: Some(text.to_string()), is_rowid_alias: false }
}

fn label(n: usize) -> BranchOffset {
    BranchOffset::Label(n)
}

fn next(label: usize, position: usize) -> LabelAssignment {
    LabelAssignment {
        label: BranchOffset::Label(label),
        position,
        target: JumpTarget::AfterThisInsn,
    }
}

fn btree(text: &str, columns: Vec<Column>) -> Arc<BTreeTable> {
    Arc::new(BTreeTable {
        root_page: 5,
        name: text.to_string(),
        columns,
        has_rowid: true,
        is_strict: false,
        has_autoincrement: false,
    })
}

fn context(tables: Vec<(String, SchemaTable)>) -> TranslateCtx {
    let mut program = ProgramBuilder::new(QueryMode::Normal);
    TranslateCtx::new(&mut program, Arc::new(Schema { tables }), 0)
}

fn joined(table: Table, op: Operation, identifier: &str, id: usize) -> JoinedTable {
    JoinedTable {
        op,
        table,
        identifier: identifier.to_string(),
        internal_id: TableInternalId(id),
        col_used_mask: ColumnUsedMask::default(),
        utilizes_covering_index: false,
        database_id: 0,
    }
}

fn plan(tables: usize, query_destination: QueryDestination) -> SelectPlan {
    SelectPlan {
        table_references: TableReferences {
            joined_tables: (0..tables)
                .map(|i| {
                    let table = Table::BTree(btree("t", vec![]));
                    let op = Operation::default_scan_for(&table);
                    joined(table, op, "t", 100 + i)
                })
                .collect(),
            outer_query_refs: Vec::new(),
        },
        result_columns: Vec::new(),
        where_clause: Vec::new(),
        group_by: None,
        order_by: Vec::new(),
        limit: None,
        offset: None,
        query_destination,
        non_from_clause_subqueries: Vec::new(),
    }
}

fn yielding() -> QueryDestination {
    QueryDestination::CoroutineYield {
        yield_reg: usize::MAX,
        coroutine_implementation_start: label(usize::MAX),
    }
}

#[test]
fn a_subquery_becomes_a_coroutine() {
    let compiler = emitter();
    let t_ctx = context(vec![]);
    let mut program = ProgramBuilder::new(QueryMode::Normal);
    let mut plan = plan(1, yielding());
    assert_eq!(emit_from_clause_subquery(&mut program, &mut plan, &t_ctx, &compiler), Ok(50));
    assert_eq!(
        program.insns,
        vec![
            Insn::InitCoroutine {
                yield_reg: 1,
                jump_on_definition: label(5),
                start_offset: label(0),
            },
            other(QUERY),
            Insn::EndCoroutine { yield_reg: 1 },
        ]
    );
    let end = LabelAssignment {
        label: label(1),
        position: 2,
        target: JumpTarget::ExactlyThisInsn,
    };
    assert_eq!(program.labels, vec![next(0, 1), end, next(5, 3)]);
    assert_eq!(program.next_label, 6);
    let destination = QueryDestination::CoroutineYield {
        yield_reg: 1,
        coroutine_implementation_start: label(0),
    };
    assert_eq!(plan.query_destination, destination);
    // The plan is what the compiler gave back.
    assert_eq!(plan.offset, Some(Box::new(Expr::Register(99))));
    assert_eq!(*compiler.destinations.borrow(), vec![destination]);
    let contexts = compiler.contexts.borrow();
    assert_eq!(contexts[0].labels_main_loop.len(), 1);
    assert_eq!(contexts[0].labels_main_loop[0].loop_start, label(2));
    assert_eq!(contexts[0].labels_main_loop[0].next, label(3));
    assert_eq!(contexts[0].labels_main_loop[0].loop_end, label(4));
    assert_eq!(contexts[0].meta_left_joins, vec![false]);
}

#[test]
fn a_failing_subquery_stops_its_coroutine() {
    let mut compiler = emitter();
    compiler.result_reg = parse_error("cannot emit");
    let t_ctx = context(vec![]);
    let mut program = ProgramBuilder::new(QueryMode::Normal);
    let mut plan = plan(0, yielding());
    assert_eq!(
        emit_from_clause_subquery(&mut program, &mut plan, &t_ctx, &compiler),
        parse_error("cannot emit")
    );
    assert_eq!(program.insns.len(), 2);

    let k = Coroutine { yield_reg: 1, start: label(0), end: label(1), body_end: label(2) };
    let mut program = ProgramBuilder::new(QueryMode::Normal);
    assert_eq!(finish_coroutine(&mut program, parse_error("no"), k), parse_error("no"));
    assert_eq!(program, ProgramBuilder::new(QueryMode::Normal));
    assert_eq!(finish_coroutine(&mut program, Ok(9), k), Ok(9));
    assert_eq!(program.insns, vec![Insn::EndCoroutine { yield_reg: 1 }]);
}

#[test]
fn a_coroutine_needs_labels() {
    let compiler = emitter();
    let t_ctx = context(vec![]);
    let mut program = ProgramBuilder::new(QueryMode::Normal);
    program.next_label = usize::MAX - 5;
    let mut subplan = plan(1, yielding());
    assert_eq!(
        emit_from_clause_subquery(&mut program, &mut subplan, &t_ctx, &compiler),
        capacity_error()
    );
    assert_eq!(subplan, plan(1, yielding()));
    assert!(program.insns.is_empty());
}

fn index(text: &str) -> Arc<Index> {
    Arc::new(Index {
        name: text.to_string(),
        table_name: "t".to_string(),
        columns: Vec::new(),
        ephemeral: false,
        has_rowid: true,
        root_page: 3,
        unique: false,
        index_method: None,
    })
}

#[test]
fn plan_lines_tell_how_a_table_is_read() {
    let table = || Table::BTree(btree("t", vec![]));
    let scan = |index| Operation::Scan(Scan::BTreeTable { index });
    assert_eq!(describe(&joined(table(), scan(None), "t", 1)), "SCAN t");
    assert_eq!(describe(&joined(table(), scan(None), "x", 1)), "SCAN t AS x");
    let through = joined(table(), scan(Some(index("i"))), "x", 1);
    assert_eq!(describe(&through), "SCAN t AS x USING INDEX i");
    let mut covered = joined(table(), scan(Some(index("i"))), "t", 1);
    covered.utilizes_covering_index = true;
    assert_eq!(describe(&covered), "SCAN t USING COVERING INDEX i");
    let rowid = Operation::Search(Search::RowidEq);
    assert_eq!(
        describe(&joined(table(), rowid, "x", 1)),
        "SEARCH x USING INTEGER PRIMARY KEY (rowid=?)"
    );
    let seek = Operation::Search(Search::Seek { index: None });
    assert_eq!(
        describe(&joined(table(), seek, "x", 1)),
        "SEARCH x USING INTEGER PRIMARY KEY (rowid=?)"
    );
    let seek = Operation::Search(Search::Seek { index: Some(index("i")) });
    assert_eq!(describe(&joined(table(), seek, "x", 1)), "SEARCH x USING INDEX i");
    let method = Operation::IndexMethodQuery { method_name: "fts".to_string() };
    assert_eq!(describe(&joined(table(), method, "x", 1)), "QUERY INDEX METHOD fts");
    assert_eq!(describe(&joined(table(), Operation::HashJoin, "x", 1)), "HASH JOIN");
    let virtual_scan = Operation::Scan(Scan::VirtualTable);
    assert_eq!(describe(&joined(table(), virtual_scan, "t", 1)), "SCAN t");
}

#[test]
fn a_query_without_tables_scans_a_constant_row() {
    let compiler = emitter();
    let t_ctx = context(vec![]);
    let mut tables = TableReferences { joined_tables: vec![], outer_query_refs: vec![] };
    let mut program = ProgramBuilder::new(QueryMode::ExplainQueryPlan);
    assert_eq!(
        emit_from_clause_subqueries(&mut program, &t_ctx, &mut tables, &compiler),
        Ok(())
    );
    assert_eq!(
        program.insns,
        vec![Insn::Explain { p1: 0, p2: None, detail: "SCAN CONSTANT ROW".to_string() }]
    );
    assert!(program.explain_parents.is_empty());
}

fn derived(text: &str, id: usize) -> JoinedTable {
    joined(
        Table::FromClauseSubquery(FromClauseSubquery {
            name: text.to_string(),
            columns: Arc::new(vec![named("x")]),
            plan: Box::new(plan(0, yielding())),
            result_columns_start_reg: None,
        }),
        Operation::Scan(Scan::Subquery),
        text,
        id,
    )
}

fn start_of(t: &JoinedTable) -> Option<usize> {
    match &t.table {
        Table::FromClauseSubquery(subquery) => subquery.result_columns_start_reg,
        _ => panic!("not a subquery"),
    }
}

#[test]
fn subqueries_of_the_from_clause_can_be_read() {
    let compiler = emitter();
    let t_ctx = context(vec![]);
    let plain = Table::BTree(btree("t", vec![]));
    let op = Operation::default_scan_for(&plain);
    let mut tables = TableReferences {
        joined_tables: vec![derived("d", 1), joined(plain, op, "t", 2), derived("e", 3)],
        outer_query_refs: vec![],
    };
    let mut program = ProgramBuilder::new(QueryMode::ExplainQueryPlan);
    program.explain_parents.push(77);
    assert_eq!(
        emit_from_clause_subqueries(&mut program, &t_ctx, &mut tables, &compiler),
        Ok(())
    );
    assert_eq!(start_of(&tables.joined_tables[0]), Some(50));
    assert_eq!(start_of(&tables.joined_tables[2]), Some(50));
    let lines: Vec<(usize, Option<usize>, String)> = program
        .insns
        .iter()
        .filter_map(|insn| match insn {
            Insn::Explain { p1, p2, detail } => Some((*p1, *p2, detail.clone())),
            _ => None,
        })
        .collect();
    assert_eq!(
        lines,
        vec![
            (0, Some(77), "SCAN d".to_string()),
            (4, Some(77), "SCAN t".to_string()),
            (5, Some(77), "SCAN e".to_string()),
        ]
    );
    // Every plan line that was pushed is popped again.
    assert_eq!(program.explain_parents, vec![77]);
}

#[test]
fn the_tables_behind_a_failure_stay_as_they_are() {
    let mut compiler = emitter();
    compiler.result_reg = parse_error("cannot emit");
    let t_ctx = context(vec![]);
    let mut tables = TableReferences {
        joined_tables: vec![derived("d", 1), derived("e", 3)],
        outer_query_refs: vec![],
    };
    let mut program = ProgramBuilder::new(QueryMode::ExplainQueryPlan);
    assert_eq!(
        emit_from_clause_subqueries(&mut program, &t_ctx, &mut tables, &compiler),
        parse_error("cannot emit")
    );
    assert_eq!(start_of(&tables.joined_tables[0]), None);
    assert_eq!(tables.joined_tables[1], derived("e", 3));
    assert_eq!(program.explain_parents, vec![0]);
}

#[test]
fn ordinary_tables_need_no_code() {
    let compiler = emitter();
    let t_ctx = context(vec![]);
    let plain = Table::BTree(btree("t", vec![]));
    let op = Operation::default_scan_for(&plain);
    let mut tables = TableReferences {
        joined_tables: vec![joined(plain, op, "t", 2)],
        outer_query_refs: vec![],
    };
    let mut program = ProgramBuilder::new(QueryMode::Normal);
    assert_eq!(
        emit_from_clause_subqueries(&mut program, &t_ctx, &mut tables, &compiler),
        Ok(())
    );
    assert_eq!(program, ProgramBuilder::new(QueryMode::Normal));
}

// WITH RECURSIVE c(n) AS (<anchor> UNION ALL SELECT n FROM c WHERE n)

fn cte(
    from: Option<FromClause>,
    where_clause: Option<Expr>,
    columns: Vec<ResultColumn>,
) -> RecursiveCte {
    RecursiveCte {
        name: "c".to_string(),
        columns: Arc::new(vec![named("n")]),
        recursive_member: Arc::new(OneSelect::Select {
            distinct: false,
            columns,
            from,
            where_clause: where_clause.map(Box::new),
            group_by: None,
            window_clause: vec![],
        }),
        anchor_plan: Some(Arc::new(plan(0, QueryDestination::Unset))),
    }
}

fn expr_column(expr: Expr) -> ResultColumn {
    ResultColumn::Expr(Box::new(expr))
}

fn from(first: &str, joins: Vec<&str>) -> Option<FromClause> {
    Some(FromClause {
        select: plain(first),
        joins: joins.into_iter().map(|j| join(plain(j), None)).collect(),
    })
}

fn plain(text: &str) -> SelectTable {
    SelectTable::Table { database: None, name: name(text), alias: None }
}

fn aliased(text: &str, alias: &str) -> SelectTable {
    SelectTable::Table { database: None, name: name(text), alias: Some(name(alias)) }
}

fn join(table: SelectTable, constraint: Option<JoinConstraint>) -> JoinedSelectTable {
    JoinedSelectTable {
        operator: JoinOperator { natural: false, outer: false },
        table,
        constraint,
    }
}

fn qualified(table: &str, column: &str) -> Expr {
    Expr::Qualified(name(table), name(column))
}

fn equal(lhs: Expr, rhs: Expr) -> Expr {
    Expr::Binary(Box::new(lhs), Operator::Equals, Box::new(rhs))
}

fn store(cursor: usize, record: usize, rowid: usize, table: &str) -> Vec<Insn> {
    vec![
        Insn::NewRowid { cursor, rowid_reg: rowid, prev_largest_reg: 0 },
        Insn::Insert {
            cursor,
            key_reg: rowid,
            record_reg: record,
            flag: 0,
            table_name: table.to_string(),
        },
    ]
}

fn record(start: usize, dest: usize) -> Insn {
    Insn::MakeRecord {
        start_reg: start,
        count: 1,
        dest_reg: dest,
        index_name: None,
        affinity_str: None,
    }
}

fn read(cursor_id: usize, column: usize, dest: usize) -> Insn {
    Insn::Column { cursor_id, column, dest, default: None }
}

#[test]
fn a_recursive_cte_without_other_tables() {
    let compiler = emitter();
    let t_ctx = context(vec![]);
    let mut program = ProgramBuilder::new(QueryMode::Normal);
    let cte = cte(from("C", vec![]), Some(id("N")), vec![expr_column(id("n"))]);
    let emitted = emit_recursive_cte(&mut program, &cte, 40, TableInternalId(9), &t_ctx, &compiler);
    assert_eq!(emitted, Ok(()));
    // The plan of the anchor is only read.
    assert_eq!(cte.anchor_plan, Some(Arc::new(plan(0, QueryDestination::Unset))));

    // Registers: row 1, new row 2, record 3, rowid 4, coroutine 5, depth 6, limit 7.
    // Labels: coroutine 0 to 2, rounds 3 and 4, rows 5 and 6, copy 7, swap 8.
    let mut expected = vec![
        Insn::OpenEphemeral { cursor_id: 40, is_table: true },
        Insn::OpenEphemeral { cursor_id: 0, is_table: true },
        Insn::OpenEphemeral { cursor_id: 1, is_table: true },
        Insn::InitCoroutine {
            yield_reg: 5,
            jump_on_definition: label(2),
            start_offset: label(0),
        },
        other(QUERY),
        Insn::EndCoroutine { yield_reg: 5 },
        Insn::Yield { yield_reg: 5, end_offset: label(1) },
        Insn::Copy { src_reg: 50, dst_reg: 1, extra_amount: 0 },
        record(1, 3),
    ];
    expected.extend(store(40, 3, 4, "cte_output"));
    expected.extend(store(0, 3, 4, "cte_working"));
    expected.extend(vec![
        Insn::Goto { target_pc: label(2) },
        Insn::Integer { value: 0, dest: 6 },
        Insn::Integer { value: 1000, dest: 7 },
        Insn::Ge { lhs: 6, rhs: 7, target_pc: label(4), flags: 0, collation: None },
        Insn::AddImm { register: 6, value: 1 },
        Insn::Rewind { cursor_id: 0, pc_if_empty: label(4) },
        Insn::ResetSorter { cursor_id: 1 },
        read(0, 0, 1),
        other(CONDITION),
        other(EXPR),
        record(2, 3),
    ]);
    expected.extend(store(1, 3, 4, "cte_temp"));
    expected.extend(vec![
        Insn::Next { cursor_id: 0, pc_if_next: label(5) },
        Insn::Rewind { cursor_id: 1, pc_if_empty: label(4) },
        read(1, 0, 1),
        record(1, 3),
    ]);
    expected.extend(store(40, 3, 4, "cte_output"));
    expected.extend(vec![
        Insn::Next { cursor_id: 1, pc_if_next: label(7) },
        Insn::ResetSorter { cursor_id: 0 },
        Insn::Rewind { cursor_id: 1, pc_if_empty: label(3) },
        read(1, 0, 1),
        record(1, 3),
    ]);
    expected.extend(store(0, 3, 4, "cte_working"));
    expected.extend(vec![
        Insn::Next { cursor_id: 1, pc_if_next: label(8) },
        Insn::Goto { target_pc: label(3) },
    ]);
    assert_eq!(program.insns, expected);
    let end = expected.len();
    assert_eq!(
        program.labels,
        vec![
            next(0, 4),
            next(2, 6),
            next(1, 14),
            next(3, 15),
            next(5, 20),
            next(6, 26),
            next(7, 28),
            next(8, 35),
            next(4, end),
        ]
    );
    assert_eq!(program.next_label, 9);
    assert_eq!(program.next_free_register, 8);
    assert_eq!(program.cursors.len(), 2);
    match &program.cursors[0].cursor_type {
        CursorType::BTreeTable(table) => {
            assert_eq!(table.name, "cte_c");
            assert_eq!(table.columns, vec![named("n")]);
            assert!(table.has_rowid);
        }
        _ => panic!("not a table"),
    }
    assert_eq!(
        *compiler.destinations.borrow(),
        vec![QueryDestination::CoroutineYield {
            yield_reg: 5,
            coroutine_implementation_start: label(0),
        }]
    );
    let metadata = ConditionMetadata {
        jump_if_condition_is_true: false,
        jump_target_when_true: label(6),
        jump_target_when_false: label(6),
        jump_target_when_null: label(6),
    };
    assert_eq!(
        *compiler.conditions.borrow(),
        vec![(column(9, 0, false), metadata, vec!["c".to_string()])]
    );
    assert_eq!(*compiler.exprs.borrow(), vec![(column(9, 0, false), 2)]);
    assert_eq!(*compiler.caches.borrow(), vec![vec![(column(9, 0, false), 1)]]);
}

#[test]
fn a_recursive_cte_with_another_table() {
    let compiler = emitter();
    let columns = vec![
        Column { name: Some("id".to_string()), is_rowid_alias: true },
        named("parent"),
        named("n"),
    ];
    let edges = btree("Edges", columns);
    let t_ctx = context(vec![("edges".to_string(), SchemaTable::BTree(edges))]);
    let mut program = ProgramBuilder::new(QueryMode::Normal);
    let condition = Expr::IsNull(Box::new(Expr::Qualified(name("EDGES"), name("parent"))));
    let cte = cte(
        from("Edges", vec!["c"]),
        Some(condition),
        vec![expr_column(id("id")), expr_column(id("n"))],
    );
    let emitted = emit_recursive_cte(&mut program, &cte, 40, TableInternalId(9), &t_ctx, &compiler);
    assert_eq!(emitted, Ok(()));

    let opened = program
        .insns
        .iter()
        .position(|insn| *insn == Insn::OpenRead { cursor_id: 2, root_page: 5, db: 0 })
        .unwrap();
    assert_eq!(program.insns[opened + 1], Insn::Integer { value: 0, dest: 6 });
    // Registers of the other table begin at 8, its loop has the labels 7 and 8.
    let inner = program
        .insns
        .iter()
        .position(|insn| *insn == Insn::Rewind { cursor_id: 2, pc_if_empty: label(6) })
        .unwrap();
    assert_eq!(
        program.insns[inner + 1..inner + 4],
        [Insn::RowId { cursor_id: 2, dest: 8 }, read(2, 1, 9), read(2, 2, 10)]
    );
    assert!(program.labels.contains(&next(7, inner + 1)));
    let closed = program
        .insns
        .iter()
        .position(|insn| *insn == Insn::Next { cursor_id: 2, pc_if_next: label(7) })
        .unwrap();
    assert!(program.labels.contains(&next(8, closed)));
    assert!(program.labels.contains(&next(6, closed + 1)));

    // The columns of the expression itself win over those of the other table.
    assert_eq!(
        *compiler.exprs.borrow(),
        vec![(column(1, 0, true), 2), (column(9, 0, false), 3)]
    );
    let conditions = compiler.conditions.borrow();
    assert_eq!(conditions[0].0, Expr::IsNull(Box::new(column(1, 1, false))));
    assert_eq!(conditions[0].1.jump_target_when_false, label(8));
    assert_eq!(conditions[0].2, vec!["c".to_string(), "edges".to_string()]);
    assert_eq!(
        compiler.caches.borrow()[0],
        vec![
            (column(9, 0, false), 1),
            (column(1, 0, true), 8),
            (column(1, 1, false), 9),
            (column(1, 2, false), 10),
        ]
    );
}

#[test]
fn a_recursive_cte_that_cannot_be_emitted() {
    let tables = || {
        vec![
            ("t".to_string(), SchemaTable::BTree(btree("t", vec![]))),
            ("u".to_string(), SchemaTable::BTree(btree("u", vec![]))),
            ("v".to_string(), SchemaTable::Other),
        ]
    };
    let emit = |cte: &RecursiveCte, compiler: &Emitter| {
        let t_ctx = context(tables());
        let mut program = ProgramBuilder::new(QueryMode::Normal);
        let emitted =
            emit_recursive_cte(&mut program, cte, 40, TableInternalId(9), &t_ctx, compiler);
        (emitted, program)
    };
    let one = || vec![expr_column(id("n"))];

    let mut unplanned = cte(None, None, one());
    unplanned.anchor_plan = None;
    let (emitted, program) = emit(&unplanned, &emitter());
    assert_eq!(emitted, parse_error("Recursive CTE anchor_plan is missing"));
    assert_eq!(program.insns.len(), 3);

    let mut values = cte(None, None, one());
    values.recursive_member = Arc::new(OneSelect::Values);
    assert_eq!(emit(&values, &emitter()).0, parse_error("Recursive member cannot be VALUES"));

    let missing = cte(from("c", vec!["Nowhere"]), None, one());
    assert_eq!(emit(&missing, &emitter()).0, parse_error("no such table: nowhere"));

    let view = cte(from("V", vec![]), None, one());
    assert_eq!(
        emit(&view, &emitter()).0,
        parse_error("Table 'v' in recursive member must be a regular table")
    );

    let two = cte(from("t", vec!["c", "u"]), None, one());
    let (emitted, program) = emit(&two, &emitter());
    assert_eq!(
        emitted,
        parse_error("Recursive CTEs with multiple external tables are not yet supported")
    );
    assert_eq!(program.next_table_id, 3);
    assert_eq!(program.cursors.len(), 4);

    for star in [ResultColumn::Star, ResultColumn::TableStar(name("c"))] {
        let starred = cte(from("c", vec![]), None, vec![expr_column(id("n")), star]);
        assert_eq!(emit(&starred, &emitter()).0, parse_error("Recursive member cannot use *"));
    }

    let mut compiler = emitter();
    compiler.result_reg = parse_error("no anchor");
    assert_eq!(emit(&cte(None, None, one()), &compiler).0, parse_error("no anchor"));

    let mut compiler = emitter();
    compiler.condition = parse_error("no condition");
    let tested = cte(None, Some(id("n")), one());
    assert_eq!(emit(&tested, &compiler).0, parse_error("no condition"));

    let mut compiler = emitter();
    compiler.expr = parse_error("no expression");
    assert_eq!(emit(&cte(None, None, one()), &compiler).0, parse_error("no expression"));

    let mut compiler = emitter();
    compiler.result_reg = Ok(usize::MAX);
    assert_eq!(emit(&cte(None, None, one()), &compiler).0, capacity_error());
}

#[test]
fn a_member_without_tables_needs_none() {
    let compiler = emitter();
    let t_ctx = context(vec![]);
    let mut program = ProgramBuilder::new(QueryMode::Normal);
    let cte = cte(None, None, vec![expr_column(id("m"))]);
    let emitted = emit_recursive_cte(&mut program, &cte, 40, TableInternalId(9), &t_ctx, &compiler);
    assert_eq!(emitted, Ok(()));
    // A name that nothing knows stays a name.
    assert_eq!(*compiler.exprs.borrow(), vec![(id("m"), 2)]);
    assert!(compiler.conditions.borrow().is_empty());
}

fn edges() -> Vec<(String, SchemaTable)> {
    let columns = vec![
        Column { name: Some("id".to_string()), is_rowid_alias: true },
        named("parent"),
    ];
    vec![("e".to_string(), SchemaTable::BTree(btree("e", columns)))]
}

fn tree(from: FromClause, where_clause: Option<Expr>, column: Expr) -> RecursiveCte {
    let mut tree = cte(Some(from), where_clause, vec![expr_column(column)]);
    tree.columns = Arc::new(vec![named("id")]);
    tree
}

#[test]
fn a_join_constraint_takes_part() {
    // WITH RECURSIVE c(id) AS (<anchor> UNION ALL SELECT e.id FROM c JOIN e ON e.parent = c.id)
    let on = equal(qualified("e", "parent"), qualified("c", "id"));
    let from = FromClause {
        select: plain("c"),
        joins: vec![join(plain("e"), Some(JoinConstraint::On(Box::new(on))))],
    };
    let compiler = emitter();
    let t_ctx = context(edges());
    let mut program = ProgramBuilder::new(QueryMode::Normal);
    let member = tree(from, None, qualified("e", "id"));
    let emitted =
        emit_recursive_cte(&mut program, &member, 40, TableInternalId(9), &t_ctx, &compiler);
    assert_eq!(emitted, Ok(()));

    let conditions = compiler.conditions.borrow();
    assert_eq!(conditions.len(), 1);
    assert_eq!(conditions[0].0, equal(column(1, 1, false), column(9, 0, false)));
    // Where it does not hold, the next row of the inner loop is read.
    assert!(!conditions[0].1.jump_if_condition_is_true);
    assert_eq!(conditions[0].1.jump_target_when_false, label(8));
    assert_eq!(conditions[0].1.jump_target_when_null, label(8));
    assert_eq!(conditions[0].2, vec!["c".to_string(), "e".to_string()]);
    assert_eq!(*compiler.exprs.borrow(), vec![(column(1, 0, true), 2)]);
    let tested = program.insns.iter().position(|insn| *insn == other(CONDITION)).unwrap();
    assert_eq!(program.insns[tested + 1], other(EXPR));
}

#[test]
fn join_constraints_are_tested_before_the_condition() {
    let from = FromClause {
        select: plain("e"),
        joins: vec![join(plain("c"), Some(JoinConstraint::On(Box::new(id("parent")))))],
    };
    let member = tree(from, Some(qualified("c", "id")), id("parent"));
    let compiler = emitter();
    let t_ctx = context(edges());
    let mut program = ProgramBuilder::new(QueryMode::Normal);
    let emitted =
        emit_recursive_cte(&mut program, &member, 40, TableInternalId(9), &t_ctx, &compiler);
    assert_eq!(emitted, Ok(()));
    let conditions: Vec<Expr> =
        compiler.conditions.borrow().iter().map(|(expr, _, _)| expr.clone()).collect();
    assert_eq!(conditions, vec![column(1, 1, false), column(9, 0, false)]);
}

/// What a member is answered, with the expressions and the conditions that were translated.
fn emit_member(member: &RecursiveCte) -> (Result<(), LimboError>, Vec<Expr>, Vec<Expr>) {
    let compiler = emitter();
    let t_ctx = context(edges());
    let mut program = ProgramBuilder::new(QueryMode::Normal);
    let emitted =
        emit_recursive_cte(&mut program, member, 40, TableInternalId(9), &t_ctx, &compiler);
    let exprs = compiler.exprs.into_inner().into_iter().map(|(expr, _)| expr).collect();
    let conditions =
        compiler.conditions.into_inner().into_iter().map(|(expr, _, _)| expr).collect();
    (emitted, exprs, conditions)
}

#[test]
fn tables_go_by_their_names_and_their_aliases() {
    let on = equal(qualified("X", "parent"), qualified("y", "id"));
    let from = FromClause {
        select: aliased("e", "x"),
        joins: vec![join(aliased("c", "Y"), Some(JoinConstraint::On(Box::new(on))))],
    };
    let named = Expr::Parenthesized(vec![qualified("e", "parent"), qualified("c", "id")]);
    let member = tree(from, Some(named), qualified("x", "id"));
    let compiler = emitter();
    let t_ctx = context(edges());
    let mut program = ProgramBuilder::new(QueryMode::Normal);
    let emitted =
        emit_recursive_cte(&mut program, &member, 40, TableInternalId(9), &t_ctx, &compiler);
    assert_eq!(emitted, Ok(()));
    let conditions = compiler.conditions.borrow();
    assert_eq!(conditions[0].0, equal(column(1, 1, false), column(9, 0, false)));
    assert_eq!(
        conditions[1].0,
        Expr::Parenthesized(vec![column(1, 1, false), column(9, 0, false)])
    );
    // The tables are handed on under their own names.
    assert_eq!(conditions[0].2, vec!["c".to_string(), "e".to_string()]);
    assert_eq!(*compiler.exprs.borrow(), vec![(column(1, 0, true), 2)]);
}

#[test]
fn own_names_win_over_aliases() {
    // Each table has the name of the other as its alias.
    let from = FromClause {
        select: aliased("c", "e"),
        joins: vec![join(aliased("e", "c"), None)],
    };
    let member = tree(from, Some(qualified("c", "id")), qualified("e", "id"));
    let (emitted, exprs, conditions) = emit_member(&member);
    assert_eq!(emitted, Ok(()));
    assert_eq!(exprs, vec![column(1, 0, true)]);
    assert_eq!(conditions, vec![column(9, 0, false)]);
}

#[test]
fn the_database_of_a_table_does_not_matter() {
    let in_database = |database: &str, table: &str| SelectTable::Table {
        database: Some(name(database)),
        name: name(table),
        alias: None,
    };
    // The expression itself.
    let from = FromClause { select: in_database("main", "c"), joins: vec![] };
    let (emitted, exprs, _) = emit_member(&tree(from, None, qualified("c", "id")));
    assert_eq!(emitted, Ok(()));
    assert_eq!(exprs, vec![column(9, 0, false)]);
    let from = FromClause { select: in_database("aux", "e"), joins: vec![] };
    let (emitted, exprs, _) = emit_member(&tree(from, None, id("parent")));
    assert_eq!(emitted, Ok(()));
    assert_eq!(exprs, vec![column(1, 1, false)]);
}

#[test]
fn what_is_not_named_needs_no_table() {
    let from = FromClause {
        select: SelectTable::Other,
        joins: vec![join(plain("c"), None), join(SelectTable::Other, None)],
    };
    let member = tree(from, None, Expr::Parenthesized(vec![id("id"), id("m")]));
    let (emitted, exprs, conditions) = emit_member(&member);
    assert_eq!(emitted, Ok(()));
    // A name that nothing knows stays a name.
    assert_eq!(exprs, vec![Expr::Parenthesized(vec![column(9, 0, false), id("m")])]);
    assert!(conditions.is_empty());
}

#[test]
fn a_member_may_name_the_expression_more_than_once() {
    let from = FromClause { select: aliased("c", "x"), joins: vec![join(aliased("C", "y"), None)] };
    let both = Expr::Parenthesized(vec![qualified("x", "id"), qualified("Y", "id")]);
    let (emitted, exprs, _) = emit_member(&tree(from, None, both));
    assert_eq!(emitted, Ok(()));
    assert_eq!(
        exprs,
        vec![Expr::Parenthesized(vec![column(9, 0, false), column(9, 0, false)])]
    );
}

fn decorated(tables: FromClause, columns: Vec<ResultColumn>) -> RecursiveCte {
    let window = Window { base: None, partition_by: vec![], order_by: vec![], frame_clause: None };
    let mut member = cte(None, None, vec![]);
    member.recursive_member = Arc::new(OneSelect::Select {
        distinct: true,
        columns,
        from: Some(tables),
        where_clause: None,
        group_by: Some(GroupBy { exprs: vec![id("n")], having: None }),
        window_clause: vec![WindowDef { name: name("w"), window }],
    });
    member
}

#[test]
fn the_other_clauses_of_a_member_have_no_part_in_it() {
    let n = || vec![expr_column(id("n"))];
    let only = |table: &str| FromClause { select: plain(table), joins: vec![] };
    let (emitted, exprs, conditions) = emit_member(&decorated(only("c"), n()));
    assert_eq!(emitted, Ok(()));
    assert_eq!(exprs, vec![column(9, 0, false)]);
    assert!(conditions.is_empty());

    let kinds = [(true, false), (false, true), (true, true)];
    for (natural, outer) in kinds {
        for constraint in [None, Some(JoinConstraint::Using(vec![name("n")]))] {
            let join = JoinedSelectTable {
                operator: JoinOperator { natural, outer },
                table: plain("e"),
                constraint,
            };
            let from = FromClause { select: plain("c"), joins: vec![join] };
            assert_eq!(emit_member(&decorated(from, n())).0, Ok(()));
        }
    }
}

#[test]
fn a_table_that_cannot_be_read_is_the_first_error() {
    let n = || vec![expr_column(id("n"))];
    let only = |table: &str| FromClause { select: plain(table), joins: vec![] };
    assert_eq!(
        emit_member(&decorated(only("missing"), n())).0,
        parse_error("no such table: missing")
    );
    // Before the number of tables and the star are looked at.
    let from = FromClause {
        select: SelectTable::Other,
        joins: vec![
            join(plain("c"), None),
            join(plain("c"), None),
            join(plain("e"), None),
            join(plain("e"), None),
            join(plain("Missing"), None),
        ],
    };
    assert_eq!(
        emit_member(&decorated(from, vec![ResultColumn::Star])).0,
        parse_error("no such table: missing")
    );
    let from = FromClause { select: plain("e"), joins: vec![join(plain("e"), None)] };
    assert_eq!(
        emit_member(&decorated(from, vec![ResultColumn::Star])).0,
        parse_error("Recursive CTEs with multiple external tables are not yet supported")
    );
}

#[test]
fn a_recursive_cte_in_a_from_clause_has_a_cursor_of_its_own() {
    let compiler = emitter();
    let t_ctx = context(vec![]);
    let table = Table::RecursiveCte(Arc::new(cte(None, None, vec![expr_column(id("n"))])));
    let op = Operation::default_scan_for(&table);
    let mut tables =
        TableReferences { joined_tables: vec![joined(table, op, "c", 9)], outer_query_refs: vec![] };
    let mut program = ProgramBuilder::new(QueryMode::Normal);
    assert_eq!(
        emit_from_clause_subqueries(&mut program, &t_ctx, &mut tables, &compiler),
        Ok(())
    );
    assert_eq!(program.cursors.len(), 3);
    assert_eq!(program.cursors[0].key.unwrap().table, TableInternalId(9));
    assert_eq!(program.insns[0], Insn::OpenEphemeral { cursor_id: 0, is_table: true });
    // The next time the cursor is there already.
    assert_eq!(
        emit_from_clause_subqueries(&mut program, &t_ctx, &mut tables, &compiler),
        Ok(())
    );
    assert_eq!(program.cursors.len(), 5);
}

#[test]
fn an_uncorrelated_exists_runs_once() {
    let compiler = emitter();
    let t_ctx = context(vec![]);
    let mut program = ProgramBuilder::new(QueryMode::Normal);
    let query_type = SubqueryType::Exists { result_reg: 30 };
    let plan = plan(0, QueryDestination::ExistsSubqueryResult { result_reg: 30 });
    assert_eq!(
        emit_non_from_clause_subquery(&mut program, &t_ctx, plan, &query_type, false, &compiler),
        Ok(())
    );
    assert_eq!(
        program.insns,
        vec![
            Insn::Once { target_pc_when_reentered: label(0) },
            Insn::BeginSubrtn { dest: 1, dest_end: None },
            Insn::Integer { value: 0, dest: 30 },
            other(SELECT),
            Insn::Return { return_reg: 1, can_fallthrough: true },
        ]
    );
    assert_eq!(program.labels, vec![next(0, 5)]);
    assert_eq!(program.nested_level, 0);
}

#[test]
fn a_correlated_row_value_runs_each_time() {
    let compiler = emitter();
    let t_ctx = context(vec![]);
    let mut program = ProgramBuilder::new(QueryMode::Normal);
    let query_type = SubqueryType::RowValue { result_reg_start: 30, num_regs: 2 };
    let plan = plan(0, QueryDestination::Unset);
    assert_eq!(
        emit_non_from_clause_subquery(&mut program, &t_ctx, plan, &query_type, true, &compiler),
        Ok(())
    );
    assert_eq!(
        program.insns,
        vec![
            Insn::BeginSubrtn { dest: 1, dest_end: None },
            Insn::Null { dest: 30, dest_end: None },
            Insn::Null { dest: 31, dest_end: None },
            other(SELECT),
            Insn::Return { return_reg: 1, can_fallthrough: true },
        ]
    );
    assert!(program.labels.is_empty());
}

#[test]
fn an_in_subquery_fills_its_index() {
    let compiler = emitter();
    let t_ctx = context(vec![]);
    let mut program = ProgramBuilder::new(QueryMode::Normal);
    let query_type = SubqueryType::In { cursor_id: 4 };
    let plan = plan(0, QueryDestination::Unset);
    assert_eq!(
        emit_non_from_clause_subquery(&mut program, &t_ctx, plan, &query_type, false, &compiler),
        Ok(())
    );
    assert_eq!(
        program.insns,
        vec![
            Insn::Once { target_pc_when_reentered: label(0) },
            Insn::OpenEphemeral { cursor_id: 4, is_table: false },
            other(SELECT),
        ]
    );
    assert_eq!(program.labels, vec![next(0, 3)]);
    assert_eq!(program.next_free_register, 1);
}

#[test]
fn a_failing_nested_subquery_stays_open() {
    let mut compiler = emitter();
    compiler.select = parse_error("cannot emit");
    let t_ctx = context(vec![]);
    let mut program = ProgramBuilder::new(QueryMode::Normal);
    let query_type = SubqueryType::In { cursor_id: 4 };
    assert_eq!(
        emit_non_from_clause_subquery(
            &mut program,
            &t_ctx,
            plan(0, QueryDestination::Unset),
            &query_type,
            false,
            &compiler
        ),
        parse_error("cannot emit")
    );
    assert_eq!(program.nested_level, 1);
    assert!(program.labels.is_empty());

    let mut program = ProgramBuilder::new(QueryMode::Normal);
    program.nested_level = usize::MAX;
    assert_eq!(
        emit_non_from_clause_subquery(
            &mut program,
            &t_ctx,
            plan(0, QueryDestination::Unset),
            &query_type,
            false,
            &compiler
        ),
        capacity_error()
    );
    let mut program = ProgramBuilder::new(QueryMode::Normal);
    let frame = Frame { skip: None, subroutine: None };
    assert_eq!(
        finish_subquery(&mut program, Ok(()), frame),
        Err(LimboError::InternalError("subquery nesting is unbalanced".to_string()))
    );
}

#[test]
fn emitting_only_adds_to_the_program() {
    let compiler = emitter();
    let t_ctx = context(vec![]);
    let started = || {
        let mut program = ProgramBuilder::new(QueryMode::Normal);
        let first = program.allocate_label();
        program.emit_insn(other(1));
        program.preassign_label_to_next_insn(first);
        program.emit_insn(other(2));
        program.alloc_registers(10);
        program
    };
    let kept = |program: &ProgramBuilder| {
        assert_eq!(program.insns[..2], started().insns[..]);
        assert_eq!(program.labels[..1], started().labels[..]);
        assert!(program.next_free_register > started().next_free_register);
        assert!(program.next_label > started().next_label);
        // Every label that was handed out leads somewhere.
        for n in 0..program.next_label {
            assert!(program.labels.iter().any(|assigned| assigned.label == label(n)));
        }
    };

    let mut program = started();
    let cte = cte(from("c", vec![]), Some(id("n")), vec![expr_column(id("n"))]);
    let emitted = emit_recursive_cte(&mut program, &cte, 40, TableInternalId(9), &t_ctx, &compiler);
    assert_eq!(emitted, Ok(()));
    kept(&program);

    let mut program = started();
    let mut subplan = plan(0, yielding());
    assert_eq!(emit_from_clause_subquery(&mut program, &mut subplan, &t_ctx, &compiler), Ok(50));
    kept(&program);

    let mut program = started();
    let query_type = SubqueryType::Exists { result_reg: 3 };
    assert_eq!(
        emit_non_from_clause_subquery(
            &mut program,
            &t_ctx,
            plan(0, QueryDestination::Unset),
            &query_type,
            false,
            &compiler
        ),
        Ok(())
    );
    kept(&program);
}
