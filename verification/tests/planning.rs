//! Planning the subqueries of a query.
use std::cell::RefCell;
use std::sync::Arc;
use subquery::ast::{Expr, Literal, Name, SortOrder, SubqueryType, TableInternalId};
use subquery::clauses::plan_subqueries_from_select_plan;
use subquery::compiler::{
    ConditionMetadata, Resolver, Schema, SchemaTable, SelectCompiler, TranslateCtx,
};
use subquery::masks::update_column_used_masks;
use subquery::plan::{
    ColumnUsedMask, FromClauseSubquery, GroupBy, JoinedTable, NonFromClauseSubquery, Operation,
    OuterQueryReference, Plan, QueryDestination, ResultSetColumn, Scan, SelectPlan,
    SubqueryPosition, SubqueryState, Table, TableReferences, WhereTerm,
};
use subquery::plan_copy::{copy_plan, copy_table};
use subquery::planner::{finish_exists, finish_in, finish_row_value, lhs_column_count};
use subquery::program::{CursorType, LimboError, ProgramBuilder, QueryMode};
use subquery::schema::{BTreeTable, CollationSeq, Column};
use subquery::walk::SubqueryParser;
use turso_parser::ast::{Cmd, Select, Stmt};
use turso_parser::parser::Parser;

/// What a `SELECT` was planned with.
#[derive(Debug, PartialEq)]
struct Request {
    sql: String,
    outer: Vec<String>,
    destination: QueryDestination,
}

/// A compiler that answers with prepared plans, the first one first.
struct Planner {
    plans: RefCell<Vec<Result<Plan, LimboError>>>,
    failure: Option<LimboError>,
    requests: RefCell<Vec<Request>>,
}

fn planner(plans: Vec<Result<Plan, LimboError>>) -> Planner {
    Planner { plans: RefCell::new(plans), failure: None, requests: RefCell::new(Vec::new()) }
}

impl SelectCompiler for Planner {
    fn prepare_select_plan(
        &self,
        program: ProgramBuilder,
        select: Select,
        resolver: &Resolver,
        outer_query_refs: &Vec<OuterQueryReference>,
        destination: QueryDestination,
    ) -> (ProgramBuilder, Result<Plan, LimboError>) {
        assert!(!resolver.expr_to_reg_cache_enabled);
        self.requests.borrow_mut().push(Request {
            sql: select.to_string(),
            outer: outer_query_refs.iter().map(|r| r.identifier.clone()).collect(),
            destination,
        });
        (program, self.plans.borrow_mut().remove(0))
    }

    fn optimize_select_plan(
        &self,
        plan: SelectPlan,
        schema: &Schema,
    ) -> Result<SelectPlan, LimboError> {
        assert_eq!(schema.tables.len(), 1);
        match &self.failure {
            Some(e) => Err(e.clone()),
            None => Ok(plan),
        }
    }

    fn emit_query(

        &self,

        _program: ProgramBuilder,

        _plan: SelectPlan,

        _t_ctx: TranslateCtx,

    ) -> (ProgramBuilder, SelectPlan, Result<usize, LimboError>) {
        unreachable!()
    }

    fn emit_program_for_select(
        &self,
        _program: ProgramBuilder,
        _resolver: &Resolver,
        _plan: SelectPlan,
    ) -> (ProgramBuilder, Result<(), LimboError>) {
        unreachable!()
    }

    fn translate_condition_expr(
        &self,
        _program: ProgramBuilder,
        _referenced_tables: &TableReferences,
        _expr: &Expr,
        _condition_metadata: ConditionMetadata,
        _resolver: &Resolver,
    ) -> (ProgramBuilder, Result<(), LimboError>) {
        unreachable!()
    }

    fn translate_expr(
        &self,
        _program: ProgramBuilder,
        _expr: &Expr,
        _target_register: usize,
        _resolver: &Resolver,
    ) -> (ProgramBuilder, Result<usize, LimboError>) {
        unreachable!()
    }
}

fn select(sql: &str) -> Select {
    match Parser::new(sql.as_bytes()).next() {
        Some(Ok(Cmd::Stmt(Stmt::Select(select)))) => select,
        _ => panic!("not a SELECT: {sql}"),
    }
}

fn resolver() -> Resolver {
    let tables = vec![("t".to_string(), SchemaTable::Other)];
    Resolver::new(Arc::new(Schema { tables }))
}

fn plan_all<C: SelectCompiler>(
    program: &mut ProgramBuilder,
    plan: &mut SelectPlan,
    compiler: &C,
) -> Result<(), LimboError> {
    plan_subqueries_from_select_plan(program, plan, &resolver(), compiler)
}

fn name(text: &str) -> Name {
    Name { quote: None, value: text.to_string() }
}

fn number(text: &str) -> Expr {
    Expr::Literal(Literal::Numeric(text.to_string()))
}

fn mask(columns: &[usize]) -> ColumnUsedMask {
    let mut mask = ColumnUsedMask::default();
    for column in columns {
        mask.set(*column);
    }
    mask
}

fn column_of_result(text: &str) -> ResultSetColumn {
    ResultSetColumn {
        expr: Expr::Id(name(text)),
        name: Some(text.to_string()),
        collation: Ok(None),
    }
}

fn plan(columns: usize) -> SelectPlan {
    SelectPlan {
        table_references: TableReferences {
            joined_tables: Vec::new(),
            outer_query_refs: Vec::new(),
        },
        result_columns: (0..columns).map(|i| column_of_result(&format!("c{i}"))).collect(),
        where_clause: Vec::new(),
        group_by: None,
        order_by: Vec::new(),
        limit: None,
        offset: None,
        query_destination: QueryDestination::ResultRows,
        non_from_clause_subqueries: Vec::new(),
    }
}

fn table(text: &str) -> Arc<BTreeTable> {
    Arc::new(BTreeTable {
        root_page: 2,
        name: text.to_string(),
        columns: vec![Column { name: Some("a".to_string()), is_rowid_alias: true }],
        has_rowid: true,
        is_strict: false,
        has_autoincrement: false,
    })
}

fn joined(text: &str, id: usize) -> JoinedTable {
    JoinedTable {
        op: Operation::Scan(Scan::BTreeTable { index: None }),
        table: Table::BTree(table(text)),
        identifier: text.to_string(),
        internal_id: TableInternalId(id),
        col_used_mask: ColumnUsedMask::default(),
        utilizes_covering_index: false,
        database_id: 0,
    }
}

fn derived(text: &str, id: usize) -> JoinedTable {
    let mut derived = joined(text, id);
    derived.table = Table::FromClauseSubquery(FromClauseSubquery {
        name: text.to_string(),
        columns: Arc::new(vec![]),
        plan: Box::new(plan(3)),
        result_columns_start_reg: Some(12),
    });
    derived.op = Operation::Scan(Scan::Subquery);
    derived
}

fn outer(text: &str, id: usize, columns: &[usize]) -> OuterQueryReference {
    OuterQueryReference {
        table: Table::BTree(table(text)),
        identifier: text.to_string(),
        internal_id: TableInternalId(id),
        col_used_mask: mask(columns),
    }
}

fn correlated_plan(columns: usize, id: usize, used: &[usize]) -> SelectPlan {
    let mut plan = plan(columns);
    plan.table_references.outer_query_refs.push(outer("t", id, used));
    plan
}

fn entry_plan(subquery: &NonFromClauseSubquery) -> &SelectPlan {
    match &subquery.state {
        SubqueryState::Unevaluated { plan: Some(plan) } => plan,
        _ => panic!("the subquery has no plan"),
    }
}

fn result(id: usize, query_type: SubqueryType) -> Expr {
    Expr::SubqueryResult {
        subquery_id: TableInternalId(id),
        lhs: None,
        not_in: false,
        query_type,
    }
}

fn parse_error<T>(message: &str) -> Result<T, LimboError> {
    Err(LimboError::ParseError(message.to_string()))
}

fn capacity_error<T>() -> Result<T, LimboError> {
    Err(LimboError::InternalError("program builder is out of capacity".to_string()))
}

#[test]
fn exists_becomes_a_register() {
    let compiler = planner(vec![Ok(Plan::Select(plan(1)))]);
    let mut program = ProgramBuilder::new(QueryMode::Normal);
    let mut query = plan(1);
    query.table_references.joined_tables.push(joined("t", 7));
    query.table_references.outer_query_refs.push(outer("o", 3, &[0]));
    query.where_clause.push(WhereTerm { expr: Expr::Exists(select("SELECT 1")) });

    assert_eq!(plan_all(&mut program, &mut query, &compiler), Ok(()));

    let query_type = SubqueryType::Exists { result_reg: 1 };
    assert_eq!(query.where_clause[0].expr, result(1, query_type));
    assert_eq!(program.next_free_register, 2);
    assert_eq!(program.next_table_id, 2);
    assert_eq!(query.non_from_clause_subqueries.len(), 1);
    let entry = &query.non_from_clause_subqueries[0];
    assert_eq!(entry.internal_id, TableInternalId(1));
    assert_eq!(entry.query_type, query_type);
    assert!(!entry.correlated);
    assert_eq!(entry_plan(entry).limit, Some(Box::new(number("1"))));
    assert_eq!(
        *compiler.requests.borrow(),
        vec![Request {
            sql: "SELECT 1".to_string(),
            outer: vec!["t".to_string(), "o".to_string()],
            destination: QueryDestination::ExistsSubqueryResult { result_reg: 1 },
        }]
    );
}

#[test]
fn outer_tables_are_offered_without_marks() {
    struct Looker(RefCell<Vec<(Table, bool)>>);
    impl SelectCompiler for Looker {
        fn prepare_select_plan(
            &self,
            program: ProgramBuilder,
            _select: Select,
            _resolver: &Resolver,
            outer_query_refs: &Vec<OuterQueryReference>,
            _destination: QueryDestination,
        ) -> (ProgramBuilder, Result<Plan, LimboError>) {
            for r in outer_query_refs {
                self.0.borrow_mut().push((copy_table(&r.table), r.is_used()));
            }
            (program, Ok(Plan::Select(plan(1))))
        }
        fn optimize_select_plan(
            &self,
            plan: SelectPlan,
            _schema: &Schema,
        ) -> Result<SelectPlan, LimboError> {
            Ok(plan)
        }
        fn emit_query(
            &self,
            _program: ProgramBuilder,
            _plan: SelectPlan,
            _t_ctx: TranslateCtx,
        ) -> (ProgramBuilder, SelectPlan, Result<usize, LimboError>) {
            unreachable!()
        }
        fn emit_program_for_select(
            &self,
            _program: ProgramBuilder,
            _resolver: &Resolver,
            _plan: SelectPlan,
        ) -> (ProgramBuilder, Result<(), LimboError>) {
            unreachable!()
        }
        fn translate_condition_expr(
            &self,
            _program: ProgramBuilder,
            _referenced_tables: &TableReferences,
            _expr: &Expr,
            _condition_metadata: ConditionMetadata,
            _resolver: &Resolver,
        ) -> (ProgramBuilder, Result<(), LimboError>) {
            unreachable!()
        }
        fn translate_expr(
            &self,
            _program: ProgramBuilder,
            _expr: &Expr,
            _target_register: usize,
            _resolver: &Resolver,
        ) -> (ProgramBuilder, Result<usize, LimboError>) {
            unreachable!()
        }
    }
    let compiler = Looker(RefCell::new(Vec::new()));
    let mut program = ProgramBuilder::new(QueryMode::Normal);
    let mut query = plan(1);
    let mut t = joined("t", 7);
    t.col_used_mask.set(0);
    query.table_references.joined_tables.push(t);
    query.table_references.joined_tables.push(derived("d", 8));
    query.table_references.outer_query_refs.push(outer("o", 3, &[0]));
    query.where_clause.push(WhereTerm { expr: Expr::Exists(select("SELECT 1")) });
    assert_eq!(plan_all(&mut program, &mut query, &compiler), Ok(()));
    // The whole table is handed on, with the plan inside it.
    assert_eq!(
        *compiler.0.borrow(),
        vec![
            (Table::BTree(table("t")), false),
            (derived("d", 8).table, false),
            (Table::BTree(table("o")), false),
        ]
    );
}

#[test]
fn row_value_becomes_a_range_of_registers() {
    let compiler = planner(vec![Ok(Plan::Select(plan(2)))]);
    let mut program = ProgramBuilder::new(QueryMode::Normal);
    let mut query = plan(0);
    query.result_columns.push(ResultSetColumn {
        expr: Expr::Subquery(select("SELECT a, b FROM t")),
        name: None,
        collation: Ok(None),
    });

    assert_eq!(plan_all(&mut program, &mut query, &compiler), Ok(()));

    let query_type = SubqueryType::RowValue { result_reg_start: 1, num_regs: 2 };
    assert_eq!(query.result_columns[0].expr, result(1, query_type));
    assert_eq!(program.next_free_register, 3);
    let entry = &query.non_from_clause_subqueries[0];
    assert_eq!(entry.query_type, query_type);
    assert_eq!(
        entry_plan(entry).query_destination,
        QueryDestination::RowValueSubqueryResult { result_reg_start: 1, num_regs: 2 }
    );
    assert_eq!(entry_plan(entry).limit, Some(Box::new(number("1"))));
    assert_eq!(compiler.requests.borrow()[0].destination, QueryDestination::Unset);
}

#[test]
fn in_becomes_an_index() {
    let mut found = plan(2);
    found.result_columns[0].collation = Ok(Some(CollationSeq::NoCase));
    found.result_columns[1].name = None;
    let compiler = planner(vec![Ok(Plan::Select(found))]);
    let mut program = ProgramBuilder::new(QueryMode::Normal);
    let mut query = plan(1);
    let lhs = Expr::Parenthesized(vec![Expr::Id(name("x")), Expr::Id(name("y"))]);
    query.where_clause.push(WhereTerm {
        expr: Expr::InSelect {
            lhs: Box::new(lhs.clone()),
            not: true,
            rhs: select("SELECT a, b FROM t"),
        },
    });

    assert_eq!(plan_all(&mut program, &mut query, &compiler), Ok(()));

    assert_eq!(
        query.where_clause[0].expr,
        Expr::SubqueryResult {
            subquery_id: TableInternalId(1),
            lhs: Some(Box::new(lhs)),
            not_in: true,
            query_type: SubqueryType::In { cursor_id: 0 },
        }
    );
    assert_eq!(program.cursors.len(), 1);
    let index = match &program.cursors[0].cursor_type {
        CursorType::BTreeIndex(index) => index.clone(),
        _ => panic!("not an index"),
    };
    assert_eq!(index.name, "ephemeral_index_where_sub_t1");
    assert_eq!(index.table_name, "");
    assert!(index.ephemeral && !index.has_rowid && !index.unique);
    assert_eq!(index.columns.len(), 2);
    assert_eq!(index.columns[0].name, "c0");
    assert_eq!(index.columns[0].collation, Some(CollationSeq::NoCase));
    assert_eq!(index.columns[0].order, SortOrder::Asc);
    assert_eq!(index.columns[1].name, "");
    assert_eq!(index.columns[1].pos_in_table, 1);
    let entry = &query.non_from_clause_subqueries[0];
    assert_eq!(entry_plan(entry).limit, None);
    assert_eq!(
        entry_plan(entry).query_destination,
        QueryDestination::EphemeralIndex { cursor_id: 0, index, is_delete: false }
    );
}

#[test]
fn the_number_of_an_index_is_that_of_its_subquery() {
    let mut program = ProgramBuilder::new(QueryMode::Normal);
    let mut subqueries = Vec::new();
    let (decided, finished) = finish_in(
        plan(1),
        &number("5"),
        TableInternalId(1042),
        SubqueryPosition::Where,
        &mut program,
        &mut subqueries,
    );
    assert_eq!(decided, Some(SubqueryType::In { cursor_id: 0 }));
    assert_eq!(finished, Ok(()));
    match &program.cursors[0].cursor_type {
        CursorType::BTreeIndex(index) => {
            assert_eq!(index.name, "ephemeral_index_where_sub_t1042")
        }
        _ => panic!("not an index"),
    }
}

#[test]
fn both_sides_of_in_have_the_same_number_of_columns() {
    let compiler = planner(vec![Ok(Plan::Select(plan(2)))]);
    let mut program = ProgramBuilder::new(QueryMode::Normal);
    let mut query = plan(1);
    query.where_clause.push(WhereTerm {
        expr: Expr::InSelect {
            lhs: Box::new(Expr::Id(name("x"))),
            not: false,
            rhs: select("SELECT a, b FROM t"),
        },
    });
    assert_eq!(
        plan_all(&mut program, &mut query, &compiler),
        parse_error("lhs of IN subquery must have the same number of columns as the subquery")
    );
    assert_eq!(query.where_clause[0].expr, Expr::Literal(Literal::Null));
    assert!(query.non_from_clause_subqueries.is_empty());
    assert!(program.cursors.is_empty());
}

#[test]
fn parentheses_around_one_expression_do_not_count() {
    let x = || Expr::Id(name("x"));
    assert_eq!(lhs_column_count(&x()), 1);
    let nested = Expr::Parenthesized(vec![Expr::Parenthesized(vec![x()])]);
    assert_eq!(lhs_column_count(&nested), 1);
    let row = Expr::Parenthesized(vec![x(), x(), x()]);
    assert_eq!(lhs_column_count(&row), 3);
    assert_eq!(lhs_column_count(&Expr::Parenthesized(vec![row])), 3);
    assert_eq!(lhs_column_count(&Expr::Parenthesized(vec![])), 0);
}

#[test]
fn an_index_column_that_cannot_compare_is_an_error() {
    let mut program = ProgramBuilder::new(QueryMode::Normal);
    let mut subqueries = Vec::new();
    let mut found = plan(1);
    found.result_columns[0].collation = parse_error("no such collation");
    let (decided, finished) = finish_in(
        found,
        &number("5"),
        TableInternalId(1),
        SubqueryPosition::Where,
        &mut program,
        &mut subqueries,
    );
    assert_eq!(decided, None);
    assert_eq!(finished, parse_error("no such collation"));
    assert!(subqueries.is_empty());
}

#[test]
fn compound_subqueries_are_refused() {
    let compiler = planner(vec![Ok(Plan::CompoundSelect)]);
    let mut program = ProgramBuilder::new(QueryMode::Normal);
    let mut query = plan(1);
    query.where_clause.push(WhereTerm {
        expr: Expr::Exists(select("SELECT 1 UNION SELECT 2")),
    });
    assert_eq!(
        plan_all(&mut program, &mut query, &compiler),
        parse_error("compound SELECT queries not supported yet in WHERE clause subqueries")
    );
}

#[test]
fn a_failure_of_the_compiler_is_passed_on() {
    let compiler = planner(vec![parse_error("no such table: u")]);
    let mut program = ProgramBuilder::new(QueryMode::Normal);
    let mut query = plan(1);
    query.where_clause.push(WhereTerm { expr: Expr::Subquery(select("SELECT a FROM u")) });
    query.where_clause.push(WhereTerm { expr: Expr::Exists(select("SELECT 1")) });
    assert_eq!(
        plan_all(&mut program, &mut query, &compiler),
        parse_error("no such table: u")
    );
    // The first subquery left its placeholder, the second was not looked at.
    assert_eq!(
        query.where_clause[0].expr,
        result(1, SubqueryType::RowValue { result_reg_start: 0, num_regs: 0 })
    );
    assert_eq!(query.where_clause[1].expr, Expr::Exists(select("SELECT 1")));

    let mut compiler = planner(vec![Ok(Plan::Select(plan(1)))]);
    compiler.failure = Some(LimboError::ParseError("bad plan".to_string()));
    let mut query = plan(1);
    query.where_clause.push(WhereTerm { expr: Expr::Exists(select("SELECT 1")) });
    assert_eq!(
        plan_all(&mut program, &mut query, &compiler),
        parse_error("bad plan")
    );
}

#[test]
fn correlation_is_supported_in_some_clauses_only() {
    let message = |clause: &str| {
        parse_error(&format!("correlated subqueries in {clause} clause are not supported yet"))
    };
    let cases = vec![
        (SubqueryPosition::ResultColumn, Ok(())),
        (SubqueryPosition::Where, Ok(())),
        (SubqueryPosition::GroupBy, Ok(())),
        (SubqueryPosition::Having, message("HAVING")),
        (SubqueryPosition::OrderBy, message("ORDER BY")),
        (SubqueryPosition::LimitOffset, message("LIMIT/OFFSET")),
    ];
    for (position, expected) in cases {
        let mut subqueries = Vec::new();
        let plan = correlated_plan(1, 7, &[0]);
        let finished = finish_exists(plan, TableInternalId(1), 4, position, &mut subqueries);
        assert_eq!(subqueries.len(), if expected.is_ok() { 1 } else { 0 });
        assert_eq!(finished, expected);
        // A subquery that uses no column of an outer table is not correlated.
        let mut subqueries = Vec::new();
        let plan = correlated_plan(1, 7, &[]);
        let finished = finish_exists(plan, TableInternalId(1), 4, position, &mut subqueries);
        assert_eq!(finished, Ok(()));
        assert!(!subqueries[0].correlated);
    }
}

#[test]
fn clauses_are_planned_in_order() {
    let plans = (0..8).map(|_| Ok(Plan::Select(plan(1)))).collect();
    let compiler = planner(plans);
    let mut program = ProgramBuilder::new(QueryMode::Normal);
    let mut query = plan(0);
    query.table_references.joined_tables.push(joined("t", 100));
    let sub = |text: &str| Expr::Subquery(select(text));
    query.where_clause.push(WhereTerm { expr: sub("SELECT 0") });
    query.group_by = Some(GroupBy {
        exprs: vec![sub("SELECT 1")],
        having: Some(vec![sub("SELECT 2")]),
    });
    query.result_columns.push(ResultSetColumn {
        expr: sub("SELECT 3"),
        name: Some("r".to_string()),
        collation: Ok(None),
    });
    query.order_by.push((Box::new(sub("SELECT 4")), SortOrder::Desc));
    query.limit = Some(Box::new(sub("SELECT 5")));
    query.offset = Some(Box::new(sub("SELECT 6")));

    assert_eq!(plan_all(&mut program, &mut query, &compiler), Ok(()));

    let requests = compiler.requests.borrow();
    assert_eq!(requests.len(), 7);
    for (i, request) in requests.iter().enumerate() {
        assert_eq!(request.sql, format!("SELECT {i}"));
        // LIMIT and OFFSET see no table of the query.
        let visible = if i < 5 { vec!["t".to_string()] } else { vec![] };
        assert_eq!(request.outer, visible);
    }
    let ids: Vec<usize> = query
        .non_from_clause_subqueries
        .iter()
        .map(|e| e.internal_id.0)
        .collect();
    assert_eq!(ids, vec![1, 2, 3, 4, 5, 6, 7]);
    let value = |id: usize| {
        result(id, SubqueryType::RowValue { result_reg_start: id, num_regs: 1 })
    };
    assert_eq!(query.where_clause[0].expr, value(1));
    let group_by = query.group_by.unwrap();
    assert_eq!(group_by.exprs, vec![value(2)]);
    assert_eq!(group_by.having, Some(vec![value(3)]));
    assert_eq!(query.result_columns[0].expr, value(4));
    assert_eq!(query.result_columns[0].name, Some("r".to_string()));
    assert_eq!(query.order_by, vec![(Box::new(value(5)), SortOrder::Desc)]);
    assert_eq!(query.limit, Some(Box::new(value(6))));
    assert_eq!(query.offset, Some(Box::new(value(7))));
}

#[test]
fn planning_again_changes_nothing() {
    let compiler = planner(vec![
        Ok(Plan::Select(correlated_plan(1, 100, &[0]))),
        Ok(Plan::Select(plan(1))),
    ]);
    let mut program = ProgramBuilder::new(QueryMode::Normal);
    let mut query = plan(1);
    query.table_references.joined_tables.push(joined("t", 100));
    query.where_clause.push(WhereTerm { expr: Expr::Exists(select("SELECT 1")) });
    query.limit = Some(Box::new(Expr::Subquery(select("SELECT 2"))));
    assert_eq!(plan_all(&mut program, &mut query, &compiler), Ok(()));
    let once = copy_plan(&query);
    let registers = program.next_free_register;
    assert_eq!(plan_all(&mut program, &mut query, &compiler), Ok(()));
    assert_eq!(query, once);
    assert_eq!(program.next_free_register, registers);
    assert_eq!(compiler.requests.borrow().len(), 2);
}

#[test]
fn a_failing_clause_leaves_the_later_ones_alone() {
    let compiler = planner(vec![
        Ok(Plan::Select(plan(1))),
        Ok(Plan::Select(correlated_plan(1, 100, &[0]))),
    ]);
    let mut program = ProgramBuilder::new(QueryMode::Normal);
    let mut query = plan(1);
    query.table_references.joined_tables.push(joined("t", 100));
    query.where_clause.push(WhereTerm { expr: Expr::Exists(select("SELECT 1")) });
    query.order_by.push((Box::new(Expr::Exists(select("SELECT 2"))), SortOrder::Asc));
    query.limit = Some(Box::new(Expr::Exists(select("SELECT 3"))));
    assert_eq!(
        plan_all(&mut program, &mut query, &compiler),
        parse_error("correlated subqueries in ORDER BY clause are not supported yet")
    );
    assert_eq!(query.limit, Some(Box::new(Expr::Exists(select("SELECT 3")))));
    assert_eq!(query.non_from_clause_subqueries.len(), 1);
    // Nothing is marked unless planning succeeds.
    assert!(query.table_references.joined_tables[0].col_used_mask.is_empty());
}

#[test]
fn nested_expressions_are_walked() {
    let compiler = planner(vec![
        Ok(Plan::Select(plan(1))),
        Ok(Plan::Select(plan(1))),
        Ok(Plan::Select(plan(1))),
    ]);
    let refs = Vec::new();
    let resolver = resolver();
    let parser = SubqueryParser {
        compiler: &compiler,
        resolver: &resolver,
        refs: &refs,
        position: SubqueryPosition::Where,
    };
    let mut program = ProgramBuilder::new(QueryMode::Normal);
    let mut subqueries = Vec::new();
    let mut expr = Expr::Case {
        base: None,
        when_then_pairs: vec![(
            Expr::InSelect {
                lhs: Box::new(Expr::Subquery(select("SELECT 2"))),
                not: false,
                rhs: select("SELECT 1"),
            },
            Expr::IsNull(Box::new(Expr::Exists(select("SELECT 3")))),
        )],
        else_expr: Some(Box::new(number("0"))),
    };
    assert_eq!(parser.walk_expr_mut(&mut expr, &mut program, &mut subqueries), Ok(()));
    let expected = Expr::Case {
        base: None,
        when_then_pairs: vec![(
            Expr::SubqueryResult {
                subquery_id: TableInternalId(1),
                lhs: Some(Box::new(result(
                    2,
                    SubqueryType::RowValue { result_reg_start: 1, num_regs: 1 },
                ))),
                not_in: false,
                query_type: SubqueryType::In { cursor_id: 0 },
            },
            Expr::IsNull(Box::new(result(3, SubqueryType::Exists { result_reg: 2 }))),
        )],
        else_expr: Some(Box::new(number("0"))),
    };
    assert_eq!(expr, expected);
    assert_eq!(subqueries.len(), 3);

    // Walking again finds nothing to plan.
    let before = program.next_table_id;
    assert_eq!(parser.walk_expr_mut(&mut expr, &mut program, &mut subqueries), Ok(()));
    assert_eq!(expr, expected);
    assert_eq!(program.next_table_id, before);
    assert_eq!(subqueries.len(), 3);
}

#[test]
fn entries_follow_the_visits() {
    let mut plans = Vec::new();
    for columns in [1, 2, 1, 1, 3, 1] {
        plans.push(Ok(Plan::Select(plan(columns))));
    }
    let compiler = planner(plans);
    let refs = Vec::new();
    let resolver = resolver();
    let parser = SubqueryParser {
        compiler: &compiler,
        resolver: &resolver,
        refs: &refs,
        position: SubqueryPosition::Where,
    };
    let in_select = || Expr::InSelect {
        lhs: Box::new(number("1")),
        not: false,
        rhs: select("SELECT 1"),
    };
    let mut exprs = vec![
        Expr::Exists(select("SELECT 1")),
        Expr::Subquery(select("SELECT 1, 2")),
        number("7"),
        in_select(),
        in_select(),
        Expr::Subquery(select("SELECT 1, 2, 3")),
        Expr::Exists(select("SELECT 1")),
    ];
    let mut program = ProgramBuilder::new(QueryMode::Normal);
    let mut subqueries = Vec::new();
    for expr in &mut exprs {
        assert_eq!(parser.visit(expr, &mut program, &mut subqueries), Ok(()));
    }
    assert_eq!(exprs[2], number("7"));
    let results: Vec<(TableInternalId, SubqueryType)> = exprs
        .iter()
        .filter_map(|expr| match expr {
            Expr::SubqueryResult { subquery_id, query_type, .. } => {
                Some((*subquery_id, *query_type))
            }
            _ => None,
        })
        .collect();
    let entries: Vec<(TableInternalId, SubqueryType)> =
        subqueries.iter().map(|s| (s.internal_id, s.query_type)).collect();
    assert_eq!(entries, results);
    let types: Vec<SubqueryType> = results.into_iter().map(|(_, query_type)| query_type).collect();
    assert_eq!(
        types,
        vec![
            SubqueryType::Exists { result_reg: 1 },
            SubqueryType::RowValue { result_reg_start: 2, num_regs: 2 },
            SubqueryType::In { cursor_id: 0 },
            SubqueryType::In { cursor_id: 1 },
            SubqueryType::RowValue { result_reg_start: 4, num_regs: 3 },
            SubqueryType::Exists { result_reg: 7 },
        ]
    );
    let numbers: Vec<usize> = subqueries.iter().map(|s| s.internal_id.0).collect();
    assert_eq!(numbers, vec![1, 2, 3, 4, 5, 6]);
    for subquery in &subqueries {
        entry_plan(subquery);
    }
}

#[test]
fn a_query_without_subqueries_stays_as_it_is() {
    let compiler = planner(vec![]);
    let mut program = ProgramBuilder::new(QueryMode::Normal);
    let mut query = plan(2);
    query.where_clause.push(WhereTerm { expr: Expr::IsNull(Box::new(Expr::Id(name("x")))) });
    query.limit = Some(Box::new(number("10")));
    assert_eq!(plan_all(&mut program, &mut query, &compiler), Ok(()));
    let mut expected = plan(2);
    expected.where_clause.push(WhereTerm { expr: Expr::IsNull(Box::new(Expr::Id(name("x")))) });
    expected.limit = Some(Box::new(number("10")));
    assert_eq!(query, expected);
    assert_eq!(program, ProgramBuilder::new(QueryMode::Normal));
}

#[test]
fn registers_and_numbers_can_run_out() {
    let compiler = planner(vec![Ok(Plan::Select(plan(2)))]);
    let mut program = ProgramBuilder::new(QueryMode::Normal);
    program.next_table_id = usize::MAX;
    let mut query = plan(1);
    query.where_clause.push(WhereTerm { expr: Expr::Exists(select("SELECT 1")) });
    assert_eq!(
        plan_all(&mut program, &mut query, &compiler),
        capacity_error()
    );
    assert_eq!(query.where_clause[0].expr, Expr::Exists(select("SELECT 1")));

    let mut program = ProgramBuilder::new(QueryMode::Normal);
    program.next_free_register = usize::MAX - 1;
    let mut subqueries = Vec::new();
    let (query_type, finished) = finish_row_value(
        plan(2),
        TableInternalId(1),
        SubqueryPosition::Where,
        &mut program,
        &mut subqueries,
    );
    assert_eq!(query_type, SubqueryType::RowValue { result_reg_start: 0, num_regs: 0 });
    assert_eq!(finished, capacity_error());
    assert!(subqueries.is_empty());
}

fn planned(plan: SelectPlan) -> NonFromClauseSubquery {
    NonFromClauseSubquery {
        internal_id: TableInternalId(50),
        query_type: SubqueryType::Exists { result_reg: 1 },
        state: SubqueryState::Unevaluated { plan: Some(Box::new(plan)) },
        correlated: true,
    }
}

#[test]
fn used_columns_are_marked() {
    let mut tables = TableReferences {
        joined_tables: vec![joined("t", 7), joined("u", 8), joined("t2", 7)],
        outer_query_refs: vec![outer("o", 3, &[1]), outer("p", 4, &[])],
    };
    tables.joined_tables[0].col_used_mask.set(2);
    let mut inner = correlated_plan(1, 7, &[0, 5]);
    inner.table_references.outer_query_refs.push(outer("o", 3, &[4]));
    inner.table_references.outer_query_refs.push(outer("p", 4, &[]));
    let subqueries = vec![planned(inner), planned(correlated_plan(1, 9, &[0]))];

    update_column_used_masks(&mut tables, &subqueries);

    let marks = |mask: &ColumnUsedMask| -> Vec<usize> {
        (0..10).filter(|i| mask.get(*i)).collect()
    };
    assert_eq!(marks(&tables.joined_tables[0].col_used_mask), vec![0, 2, 5]);
    assert_eq!(marks(&tables.joined_tables[1].col_used_mask), vec![]);
    // Only the first table with a number is meant by it.
    assert_eq!(marks(&tables.joined_tables[2].col_used_mask), vec![]);
    assert_eq!(marks(&tables.outer_query_refs[0].col_used_mask), vec![1, 4]);
    // Nothing else is marked, neither here nor further out.
    assert_eq!(marks(&tables.outer_query_refs[1].col_used_mask), vec![]);

    // Marking again changes nothing.
    update_column_used_masks(&mut tables, &subqueries);
    assert_eq!(marks(&tables.joined_tables[0].col_used_mask), vec![0, 2, 5]);
    assert_eq!(marks(&tables.outer_query_refs[0].col_used_mask), vec![1, 4]);
}

#[test]
fn a_reference_reaches_the_outermost_query() {
    // SELECT * FROM t WHERE EXISTS (
    //   SELECT * FROM u WHERE EXISTS (SELECT * FROM v WHERE v.foo = t.foo))
    let mut middle = plan(1);
    middle.table_references.joined_tables.push(joined("u", 8));
    middle.table_references.outer_query_refs.push(outer("t", 7, &[]));
    middle.where_clause.push(WhereTerm { expr: Expr::Exists(select("SELECT * FROM v")) });
    let innermost = planner(vec![Ok(Plan::Select(correlated_plan(1, 7, &[3])))]);
    let mut program = ProgramBuilder::new(QueryMode::Normal);
    assert_eq!(plan_all(&mut program, &mut middle, &innermost), Ok(()));
    assert!(middle.table_references.outer_query_refs[0].col_used_mask.get(3));

    let mut outermost = plan(1);
    outermost.table_references.joined_tables.push(joined("t", 7));
    outermost.where_clause.push(WhereTerm { expr: Expr::Exists(select("SELECT * FROM u")) });
    let compiler = planner(vec![Ok(Plan::Select(middle))]);
    assert_eq!(plan_all(&mut program, &mut outermost, &compiler), Ok(()));
    assert!(outermost.table_references.joined_tables[0].col_used_mask.get(3));
    assert!(outermost.non_from_clause_subqueries[0].correlated);
}

#[test]
fn a_copy_of_a_plan_is_equal() {
    let mut inner = correlated_plan(2, 7, &[0, 3]);
    inner.group_by = Some(GroupBy {
        exprs: vec![Expr::Id(name("g"))],
        having: Some(vec![number("1")]),
    });
    inner.limit = Some(Box::new(number("4")));
    let mut outer_plan = plan(1);
    outer_plan.table_references.joined_tables.push(joined("t", 7));
    outer_plan.table_references.joined_tables.push(derived("d", 8));
    let mut further_out = outer("d", 9, &[2]);
    further_out.table = derived("d", 9).table;
    outer_plan.table_references.outer_query_refs.push(further_out);
    outer_plan.where_clause.push(WhereTerm { expr: Expr::Exists(select("SELECT 1")) });
    outer_plan.order_by.push((Box::new(number("2")), SortOrder::Desc));
    outer_plan.non_from_clause_subqueries.push(planned(inner));
    outer_plan.non_from_clause_subqueries.push(NonFromClauseSubquery {
        internal_id: TableInternalId(51),
        query_type: SubqueryType::In { cursor_id: 2 },
        state: SubqueryState::Evaluated,
        correlated: false,
    });
    assert_eq!(copy_plan(&outer_plan), outer_plan);
}
