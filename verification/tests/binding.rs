//! Binding column names, and copies of expressions.
use std::sync::Arc;
use subquery::ast::{
    Expr, FrameBound, FrameClause, FunctionTail, Literal, Name, Over, SortOrder, SortedColumn,
    SubqueryType, TableInternalId, Window,
};
use subquery::bind::{bind_cte_columns_in_expr, bind_table_columns_in_expr, NamedTable};
use subquery::copy::copy_expr;
use subquery::schema::{BTreeTable, Column};
use subquery::text::normalize_ident;
use turso_parser::ast::{
    Cmd, FrameExclude, FrameMode, LikeOperator, NullsOrder, Operator, QualifiedName, ResolveType,
    Select, Stmt, Type, UnaryOperator,
};
use turso_parser::parser::Parser;

fn name(text: &str) -> Name {
    Name { quote: None, value: text.to_string() }
}

fn id(text: &str) -> Expr {
    Expr::Id(name(text))
}

fn qualified(table: &str, column: &str) -> Expr {
    Expr::Qualified(name(table), name(column))
}

fn column(table: usize, column: usize, is_rowid_alias: bool) -> Expr {
    Expr::Column { database: None, table: TableInternalId(table), column, is_rowid_alias }
}

fn boxed(expr: Expr) -> Box<Expr> {
    Box::new(expr)
}

fn select(sql: &str) -> Select {
    match Parser::new(sql.as_bytes()).next() {
        Some(Ok(Cmd::Stmt(Stmt::Select(select)))) => select,
        _ => panic!("not a SELECT: {sql}"),
    }
}

fn table(text: &str, id: usize, columns: Vec<(Option<&str>, bool)>) -> NamedTable {
    NamedTable {
        name: text.to_string(),
        internal_id: TableInternalId(id),
        table: Arc::new(BTreeTable {
            root_page: 2,
            name: text.to_string(),
            columns: columns
                .into_iter()
                .map(|(name, is_rowid_alias)| Column {
                    name: name.map(|n| n.to_string()),
                    is_rowid_alias,
                })
                .collect(),
            has_rowid: true,
            is_strict: false,
            has_autoincrement: false,
        }),
    }
}

fn in_cte(mut expr: Expr) -> Expr {
    let names = vec!["a".to_string(), "B".to_string()];
    bind_cte_columns_in_expr(&mut expr, "Cnt", &names, TableInternalId(9));
    expr
}

fn tables() -> Vec<NamedTable> {
    vec![
        table("t", 1, vec![(None, false), (Some("id"), true), (Some("x"), false)]),
        table("u", 2, vec![(Some("X"), false), (Some("y"), false)]),
    ]
}

fn in_tables(mut expr: Expr) -> Expr {
    bind_table_columns_in_expr(&mut expr, &tables());
    expr
}

#[test]
fn identifiers_are_folded_to_lower_case() {
    assert_eq!(normalize_ident("FooBar"), "foobar");
    assert_eq!(normalize_ident("\u{00C4}b"), "\u{00E4}b");
}

#[test]
fn columns_of_a_cte() {
    assert_eq!(in_cte(id("A")), column(9, 0, false));
    assert_eq!(in_cte(id("b")), column(9, 1, false));
    assert_eq!(in_cte(id("c")), id("c"));
    assert_eq!(in_cte(qualified("CNT", "a")), column(9, 0, false));
    assert_eq!(in_cte(qualified("t", "a")), qualified("t", "a"));
    assert_eq!(in_cte(qualified("cnt", "c")), qualified("cnt", "c"));
    let expr = Expr::DoublyQualified(name("main"), name("cnt"), name("a"));
    assert_eq!(in_cte(expr.clone()), expr);
}

#[test]
fn columns_of_tables() {
    assert_eq!(in_tables(id("ID")), column(1, 1, true));
    // The first table that has the column wins.
    assert_eq!(in_tables(id("x")), column(1, 2, false));
    assert_eq!(in_tables(qualified("U", "x")), column(2, 0, false));
    assert_eq!(in_tables(id("y")), column(2, 1, false));
    assert_eq!(in_tables(qualified("t", "y")), qualified("t", "y"));
    assert_eq!(in_tables(qualified("v", "x")), qualified("v", "x"));
    assert_eq!(in_tables(id("z")), id("z"));
}

fn everywhere(leaf: impl Fn() -> Expr) -> Vec<Expr> {
    let leaf = || boxed(leaf());
    vec![
        Expr::Binary(leaf(), Operator::Add, leaf()),
        Expr::Unary(UnaryOperator::Negative, leaf()),
        Expr::Parenthesized(vec![*leaf(), *leaf()]),
        Expr::Between { lhs: leaf(), not: true, start: leaf(), end: leaf() },
        Expr::Case {
            base: Some(leaf()),
            when_then_pairs: vec![(*leaf(), *leaf())],
            else_expr: Some(leaf()),
        },
        Expr::Cast { expr: leaf(), target: None },
        Expr::Collate(leaf(), name("nocase")),
        Expr::InList { lhs: leaf(), not: false, rhs: vec![*leaf(), *leaf()] },
        Expr::IsNull(leaf()),
        Expr::NotNull(leaf()),
        Expr::FunctionCall {
            name: name("max"),
            distinctness: None,
            args: vec![*leaf()],
            order_by: vec![],
            filter_over: FunctionTail { filter_clause: Some(leaf()), over_clause: None },
        },
    ]
}

#[test]
fn binding_goes_into_subexpressions() {
    let expected = everywhere(|| column(9, 0, false));
    for (expr, bound) in everywhere(|| id("a")).into_iter().zip(expected) {
        assert_eq!(in_cte(expr), bound);
    }
    let expected = everywhere(|| column(2, 1, false));
    for (expr, bound) in everywhere(|| id("y")).into_iter().zip(expected) {
        // Binding again changes nothing.
        let once = in_tables(expr);
        assert_eq!(once, bound);
        assert_eq!(in_tables(once), bound);
    }
}

fn windowed(leaf: Expr, bound: Expr) -> Expr {
    Expr::FunctionCall {
        name: name("sum"),
        distinctness: None,
        args: vec![],
        order_by: vec![],
        filter_over: FunctionTail {
            filter_clause: None,
            over_clause: Some(Over::Window(Window {
                base: None,
                partition_by: vec![leaf.clone()],
                order_by: vec![SortedColumn {
                    expr: leaf,
                    order: Some(SortOrder::Desc),
                    nulls: Some(NullsOrder::Last),
                }],
                frame_clause: Some(FrameClause {
                    mode: FrameMode::Rows,
                    start: FrameBound::Preceding(Box::new(bound)),
                    end: Some(FrameBound::CurrentRow),
                    exclude: Some(FrameExclude::Ties),
                }),
            })),
        },
    }
}

#[test]
fn windows_are_bound() {
    let bound = windowed(column(9, 0, false), column(9, 1, false));
    assert_eq!(in_cte(windowed(id("a"), id("b"))), bound);
    let bound = windowed(column(2, 1, false), column(1, 1, true));
    assert_eq!(in_tables(windowed(id("y"), id("id"))), bound);
}

fn with_tail(leaf: impl Fn() -> Expr) -> Vec<Expr> {
    let leaf = || boxed(leaf());
    let over = || {
        Some(Over::Window(Window {
            base: Some(name("w")),
            partition_by: vec![*leaf()],
            order_by: vec![],
            frame_clause: Some(FrameClause {
                mode: FrameMode::Range,
                start: FrameBound::UnboundedPreceding,
                end: Some(FrameBound::Following(leaf())),
                exclude: None,
            }),
        }))
    };
    vec![
        Expr::FunctionCallStar {
            name: name("count"),
            filter_over: FunctionTail { filter_clause: Some(leaf()), over_clause: over() },
        },
        Expr::FunctionCall {
            name: name("group_concat"),
            distinctness: None,
            args: vec![*leaf()],
            order_by: vec![SortedColumn {
                expr: *leaf(),
                order: Some(SortOrder::Asc),
                nulls: None,
            }],
            filter_over: FunctionTail { filter_clause: None, over_clause: over() },
        },
    ]
}

fn with_operands(leaf: impl Fn() -> Expr) -> Vec<Expr> {
    let leaf = || boxed(leaf());
    vec![
        Expr::Like {
            lhs: leaf(),
            not: true,
            op: LikeOperator::Glob,
            rhs: leaf(),
            escape: Some(leaf()),
        },
        // What is inside the subquery is bound when the subquery is planned.
        Expr::InSelect { lhs: leaf(), not: false, rhs: select("SELECT a FROM t") },
        Expr::InTable {
            lhs: leaf(),
            not: false,
            rhs: QualifiedName::single(turso_parser::ast::Name::exact("a".to_string())),
            args: vec![*leaf(), *leaf()],
        },
        Expr::Raise(ResolveType::Abort, Some(leaf())),
        Expr::SubqueryResult {
            subquery_id: TableInternalId(4),
            lhs: Some(leaf()),
            not_in: true,
            query_type: SubqueryType::In { cursor_id: 3 },
        },
    ]
}

#[test]
fn no_subexpression_is_passed_over() {
    let expected = with_tail(|| column(9, 0, false))
        .into_iter()
        .chain(with_operands(|| column(9, 0, false)));
    let exprs = with_tail(|| id("a")).into_iter().chain(with_operands(|| id("a")));
    for (expr, bound) in exprs.zip(expected) {
        assert_eq!(in_cte(expr), bound);
    }
    let expected = with_tail(|| column(1, 1, true))
        .into_iter()
        .chain(with_operands(|| column(1, 1, true)));
    let exprs = with_tail(|| qualified("T", "Id"))
        .into_iter()
        .chain(with_operands(|| qualified("T", "Id")));
    for (expr, bound) in exprs.zip(expected) {
        assert_eq!(in_tables(expr), bound);
    }
}

#[test]
fn the_left_side_of_like_is_bound() {
    let like = |lhs: Expr| Expr::Like {
        lhs: boxed(lhs),
        not: false,
        op: LikeOperator::Like,
        rhs: boxed(Expr::Literal(Literal::String("'a%'".to_string()))),
        escape: None,
    };
    let mut expr = like(id("n"));
    bind_cte_columns_in_expr(&mut expr, "c", &vec!["n".to_string()], TableInternalId(7));
    assert_eq!(expr, like(column(7, 0, false)));
}

#[test]
fn a_sum_over_a_partition_is_bound() {
    let sum = |leaf: Expr| Expr::FunctionCall {
        name: name("sum"),
        distinctness: None,
        args: vec![leaf.clone()],
        order_by: vec![],
        filter_over: FunctionTail {
            filter_clause: None,
            over_clause: Some(Over::Window(Window {
                base: None,
                partition_by: vec![leaf],
                order_by: vec![],
                frame_clause: None,
            })),
        },
    };
    let mut expr = sum(id("v"));
    let t = table("t", 5, vec![(Some("id"), true), (Some("v"), false)]);
    bind_table_columns_in_expr(&mut expr, &vec![t]);
    assert_eq!(expr, sum(column(5, 1, false)));
}

#[test]
fn copies_are_equal() {
    let cast = Expr::Cast {
        expr: boxed(id("a")),
        target: Some(Type { name: "INTEGER".to_string(), size: None }),
    };
    let in_table = Expr::InTable {
        lhs: boxed(id("a")),
        not: true,
        rhs: QualifiedName::single(turso_parser::ast::Name::exact("t".to_string())),
        args: vec![Expr::Literal(Literal::Null)],
    };
    let mut exprs = everywhere(|| id("a"));
    exprs.push(cast);
    exprs.push(in_table);
    exprs.push(windowed(id("a"), id("b")));
    exprs.push(Expr::Exists(select("SELECT * FROM t WHERE a = 'x'")));
    exprs.push(Expr::Subquery(select("SELECT 1")));
    for expr in exprs {
        assert_eq!(copy_expr(&expr), expr);
    }
}
