//! SQL expressions, as the subquery planner and the column binder see them.
//!
//! What the library never looks into (operators, type names, whole `SELECT` statements) stays a
//! value of `turso_parser` and is only carried along.
use turso_parser::ast as parser;
use vstd::prelude::*;

verus! {

/// `turso_parser::ast::Select`, carried unread.
#[verifier::external_type_specification]
#[verifier::external_body]
pub struct ExSelect(parser::Select);

/// `turso_parser::ast::Type`, carried unread.
#[verifier::external_type_specification]
#[verifier::external_body]
pub struct ExType(parser::Type);

/// `turso_parser::ast::QualifiedName`, carried unread.
#[verifier::external_type_specification]
#[verifier::external_body]
pub struct ExQualifiedName(parser::QualifiedName);

/// `turso_parser::ast::Operator`, carried unread.
#[verifier::external_type_specification]
#[verifier::external_body]
pub struct ExOperator(parser::Operator);

/// `turso_parser::ast::UnaryOperator`, carried unread.
#[verifier::external_type_specification]
#[verifier::external_body]
pub struct ExUnaryOperator(parser::UnaryOperator);

/// `turso_parser::ast::LikeOperator`, carried unread.
#[verifier::external_type_specification]
#[verifier::external_body]
pub struct ExLikeOperator(parser::LikeOperator);

/// `turso_parser::ast::ResolveType`, carried unread.
#[verifier::external_type_specification]
#[verifier::external_body]
pub struct ExResolveType(parser::ResolveType);

/// `turso_parser::ast::Distinctness`, carried unread.
#[verifier::external_type_specification]
#[verifier::external_body]
pub struct ExDistinctness(parser::Distinctness);

/// `turso_parser::ast::NullsOrder`, carried unread.
#[verifier::external_type_specification]
#[verifier::external_body]
pub struct ExNullsOrder(parser::NullsOrder);

/// `turso_parser::ast::FrameMode`, carried unread.
#[verifier::external_type_specification]
#[verifier::external_body]
pub struct ExFrameMode(parser::FrameMode);

/// `turso_parser::ast::FrameExclude`, carried unread.
#[verifier::external_type_specification]
#[verifier::external_body]
pub struct ExFrameExclude(parser::FrameExclude);

/// The derived `Clone` of `turso_parser::ast::Select` copies every field.
pub assume_specification[ <parser::Select as Clone>::clone ](s: &parser::Select) -> (r:
    parser::Select)
    ensures
        r == *s,
;

/// The derived `Clone` of `turso_parser::ast::Type` copies every field.
pub assume_specification[ <parser::Type as Clone>::clone ](t: &parser::Type) -> (r: parser::Type)
    ensures
        r == *t,
;

/// The derived `Clone` of `turso_parser::ast::QualifiedName` copies every field.
pub assume_specification[ <parser::QualifiedName as Clone>::clone ](
    n: &parser::QualifiedName,
) -> (r: parser::QualifiedName)
    ensures
        r == *n,
;

/// The derived `Clone` of `turso_parser::ast::FrameExclude` gives the same variant.
pub assume_specification[ <parser::FrameExclude as Clone>::clone ](
    e: &parser::FrameExclude,
) -> (r: parser::FrameExclude)
    ensures
        r == *e,
;

/// An identifier, without its quotes, and the quote that it was written with.
#[derive(Debug, PartialEq, Eq)]
pub struct Name {
    pub quote: Option<char>,
    pub value: String,
}

impl Name {
    /// The text of the identifier.
    pub fn as_str(&self) -> (r: &str)
        ensures
            r@ == self.value@,
    {
        self.value.as_str()
    }
}

impl Clone for Name {
    fn clone(&self) -> (r: Self)
        ensures
            r == *self,
    {
        Name { quote: self.quote, value: self.value.clone() }
    }
}

/// A literal, as written.
#[derive(Debug, PartialEq, Eq)]
pub enum Literal {
    Numeric(String),
    String(String),
    Blob(String),
    Keyword(String),
    Null,
    CurrentDate,
    CurrentTime,
    CurrentTimestamp,
}

impl Clone for Literal {
    fn clone(&self) -> (r: Self)
        ensures
            r == *self,
    {
        match self {
            Literal::Numeric(s) => Literal::Numeric(s.clone()),
            Literal::String(s) => Literal::String(s.clone()),
            Literal::Blob(s) => Literal::Blob(s.clone()),
            Literal::Keyword(s) => Literal::Keyword(s.clone()),
            Literal::Null => Literal::Null,
            Literal::CurrentDate => Literal::CurrentDate,
            Literal::CurrentTime => Literal::CurrentTime,
            Literal::CurrentTimestamp => Literal::CurrentTimestamp,
        }
    }
}

/// The number that tells one table reference (or subquery) of a statement from another.
#[derive(Clone, Copy, Debug, PartialEq, Eq, Structural)]
pub struct TableInternalId(pub usize);

/// The direction of a sort.
#[derive(Clone, Copy, Debug, PartialEq, Eq, Structural)]
pub enum SortOrder {
    Asc,
    Desc,
}

/// Where the result of a planned subquery is found.
#[derive(Clone, Copy, Debug, PartialEq, Eq, Structural)]
pub enum SubqueryType {
    /// `EXISTS`: one register.
    Exists { result_reg: usize },
    /// A row value, as in `x = (SELECT ...)`: a range of registers.
    RowValue { result_reg_start: usize, num_regs: usize },
    /// `IN`: an ephemeral index.
    In { cursor_id: usize },
}

/// An SQL expression.
#[allow(inconsistent_fields)]
#[derive(Debug, PartialEq, Eq)]
pub enum Expr {
    Between { lhs: Box<Expr>, not: bool, start: Box<Expr>, end: Box<Expr> },
    Binary(Box<Expr>, parser::Operator, Box<Expr>),
    Register(usize),
    Case {
        base: Option<Box<Expr>>,
        when_then_pairs: Vec<(Expr, Expr)>,
        else_expr: Option<Box<Expr>>,
    },
    Cast { expr: Box<Expr>, target: Option<parser::Type> },
    Collate(Box<Expr>, Name),
    DoublyQualified(Name, Name, Name),
    Exists(parser::Select),
    FunctionCall {
        name: Name,
        distinctness: Option<parser::Distinctness>,
        args: Vec<Expr>,
        order_by: Vec<SortedColumn>,
        filter_over: FunctionTail,
    },
    FunctionCallStar { name: Name, filter_over: FunctionTail },
    Id(Name),
    Column { database: Option<usize>, table: TableInternalId, column: usize, is_rowid_alias: bool },
    RowId { database: Option<usize>, table: TableInternalId },
    InList { lhs: Box<Expr>, not: bool, rhs: Vec<Expr> },
    InSelect { lhs: Box<Expr>, not: bool, rhs: parser::Select },
    InTable { lhs: Box<Expr>, not: bool, rhs: parser::QualifiedName, args: Vec<Expr> },
    IsNull(Box<Expr>),
    Like {
        lhs: Box<Expr>,
        not: bool,
        op: parser::LikeOperator,
        rhs: Box<Expr>,
        escape: Option<Box<Expr>>,
    },
    Literal(Literal),
    Name(Name),
    NotNull(Box<Expr>),
    Parenthesized(Vec<Expr>),
    Qualified(Name, Name),
    Raise(parser::ResolveType, Option<Box<Expr>>),
    Subquery(parser::Select),
    Unary(parser::UnaryOperator, Box<Expr>),
    Variable(String),
    /// The result of a subquery that is planned and evaluated on its own.
    SubqueryResult {
        subquery_id: TableInternalId,
        lhs: Option<Box<Expr>>,
        not_in: bool,
        query_type: SubqueryType,
    },
}

/// A term of an `ORDER BY`.
#[derive(Debug, PartialEq, Eq)]
pub struct SortedColumn {
    pub expr: Expr,
    pub order: Option<SortOrder>,
    pub nulls: Option<parser::NullsOrder>,
}

/// The `FILTER` and `OVER` clauses of a function call.
#[derive(Debug, PartialEq, Eq)]
pub struct FunctionTail {
    pub filter_clause: Option<Box<Expr>>,
    pub over_clause: Option<Over>,
}

/// An `OVER` clause.
#[derive(Debug, PartialEq, Eq)]
pub enum Over {
    Window(Window),
    Name(Name),
}

/// A window definition.
#[derive(Debug, PartialEq, Eq)]
pub struct Window {
    pub base: Option<Name>,
    pub partition_by: Vec<Expr>,
    pub order_by: Vec<SortedColumn>,
    pub frame_clause: Option<FrameClause>,
}

/// The frame of a window.
#[derive(Debug, PartialEq, Eq)]
pub struct FrameClause {
    pub mode: parser::FrameMode,
    pub start: FrameBound,
    pub end: Option<FrameBound>,
    pub exclude: Option<parser::FrameExclude>,
}

/// One end of a window's frame.
#[derive(Debug, PartialEq, Eq)]
pub enum FrameBound {
    CurrentRow,
    Following(Box<Expr>),
    Preceding(Box<Expr>),
    UnboundedFollowing,
    UnboundedPreceding,
}

// ---------------------------------------------------------------------------------------------
// The mathematical model of an expression: a tree whose nodes say what they are (`ExprKind`) and
// list their direct subexpressions from left to right, each with the part it plays (`Role`).

/// The part that a subexpression plays in its parent.
#[derive(Clone, Copy, Debug, PartialEq, Eq, Structural)]
pub enum Role {
    /// An operand of an operator or a construct other than a function call.
    Operand,
    /// An argument of a function call.
    Argument,
    /// A term of the `ORDER BY` among the arguments of a function call.
    ArgumentOrder,
    /// The condition of a `FILTER` clause.
    Filter,
    /// A term of the `PARTITION BY` of a window.
    Partition,
    /// A term of the `ORDER BY` of a window.
    WindowOrder,
    /// A bound of the frame of a window.
    FrameBound,
}

/// What an `ORDER BY` term says besides its expression.
pub struct SortKey {
    pub order: Option<SortOrder>,
    pub nulls: Option<parser::NullsOrder>,
}

/// A frame bound without its expression.
pub enum BoundShape {
    CurrentRow,
    Following,
    Preceding,
    UnboundedFollowing,
    UnboundedPreceding,
}

/// A frame without its expressions.
pub struct FrameShape {
    pub mode: parser::FrameMode,
    pub start: BoundShape,
    pub end: Option<BoundShape>,
    pub exclude: Option<parser::FrameExclude>,
}

/// An `OVER` clause without its expressions.
pub enum OverShape {
    Window {
        base: Option<Name>,
        partitions: nat,
        order_by: Seq<SortKey>,
        frame: Option<FrameShape>,
    },
    Name(Name),
}

/// The tail of a function call without its expressions.
pub struct TailShape {
    pub filter: bool,
    pub over: Option<OverShape>,
}

/// What a node of an expression is, its subexpressions aside.
#[allow(inconsistent_fields)]
pub enum ExprKind {
    Between { not: bool },
    Binary(parser::Operator),
    Register(usize),
    Case { base: bool, pairs: nat, otherwise: bool },
    Cast { target: Option<parser::Type> },
    Collate(Name),
    DoublyQualified(Name, Name, Name),
    Exists(parser::Select),
    FunctionCall {
        name: Name,
        distinctness: Option<parser::Distinctness>,
        args: nat,
        order_by: Seq<SortKey>,
        tail: TailShape,
    },
    FunctionCallStar { name: Name, tail: TailShape },
    Id(Name),
    Column { database: Option<usize>, table: TableInternalId, column: usize, is_rowid_alias: bool },
    RowId { database: Option<usize>, table: TableInternalId },
    InList { not: bool },
    InSelect { not: bool, rhs: parser::Select },
    InTable { not: bool, rhs: parser::QualifiedName },
    IsNull,
    Like { not: bool, op: parser::LikeOperator, escape: bool },
    Literal(Literal),
    Name(Name),
    NotNull,
    Parenthesized,
    Qualified(Name, Name),
    Raise(parser::ResolveType),
    Subquery(parser::Select),
    Unary(parser::UnaryOperator),
    Variable(Seq<char>),
    SubqueryResult { subquery_id: TableInternalId, not_in: bool, query_type: SubqueryType },
}

/// A direct subexpression and the part it plays.
pub struct Child {
    pub role: Role,
    pub tree: ExprTree,
}

/// An expression as a tree.
pub struct ExprTree {
    pub kind: ExprKind,
    pub children: Seq<Child>,
}

/// A node without subexpressions.
pub open spec fn leaf(kind: ExprKind) -> ExprTree {
    ExprTree { kind, children: seq![] }
}

/// A direct subexpression, itself not yet looked into, and the part it plays.
pub struct Operand {
    pub role: Role,
    pub expr: Expr,
}

pub open spec fn operand(expr: Expr, role: Role) -> Operand {
    Operand { role, expr }
}

pub open spec fn optional_operand(e: Option<Box<Expr>>, role: Role) -> Seq<Operand>
{
    match e {
        Some(e) => seq![operand(*e, role)],
        None => seq![],
    }
}

pub open spec fn operands_of(v: Seq<Expr>, role: Role) -> Seq<Operand>
{
    Seq::new(
        v.len(),
        |i: int| operand(v[i], role),
    )
}

pub open spec fn sorted_operands(v: Seq<SortedColumn>, role: Role) -> Seq<Operand>
{
    Seq::new(
        v.len(),
        |i: int| operand(v[i].expr, role),
    )
}

pub open spec fn pair_operands(v: Seq<(Expr, Expr)>) -> Seq<Operand>
{
    Seq::new(
        2 * v.len(),
        |i: int|
            if i % 2 == 0 {
                operand(v[i / 2].0, Role::Operand)
            } else {
                operand(v[i / 2].1, Role::Operand)
            },
    )
}

pub open spec fn bound_operands(b: FrameBound) -> Seq<Operand>
{
    match b {
        FrameBound::Following(e) => seq![operand(*e, Role::FrameBound)],
        FrameBound::Preceding(e) => seq![operand(*e, Role::FrameBound)],
        _ => seq![],
    }
}

pub open spec fn frame_operands(f: FrameClause) -> Seq<Operand>
{
    bound_operands(f.start) + match f.end {
        Some(end) => bound_operands(end),
        None => seq![],
    }
}

pub open spec fn over_operands(o: Over) -> Seq<Operand>
{
    match o {
        Over::Window(w) => operands_of(w.partition_by@, Role::Partition) + (sorted_operands(
            w.order_by@,
            Role::WindowOrder,
        ) + match w.frame_clause {
            Some(f) => frame_operands(f),
            None => seq![],
        }),
        Over::Name(_) => seq![],
    }
}

pub open spec fn tail_operands(t: FunctionTail) -> Seq<Operand>
{
    optional_operand(t.filter_clause, Role::Filter) + match t.over_clause {
        Some(o) => over_operands(o),
        None => seq![],
    }
}

pub open spec fn sort_keys(v: Seq<SortedColumn>) -> Seq<SortKey> {
    v.map_values(|c: SortedColumn| SortKey { order: c.order, nulls: c.nulls })
}

pub open spec fn bound_shape(b: FrameBound) -> BoundShape {
    match b {
        FrameBound::CurrentRow => BoundShape::CurrentRow,
        FrameBound::Following(_) => BoundShape::Following,
        FrameBound::Preceding(_) => BoundShape::Preceding,
        FrameBound::UnboundedFollowing => BoundShape::UnboundedFollowing,
        FrameBound::UnboundedPreceding => BoundShape::UnboundedPreceding,
    }
}

pub open spec fn frame_shape(f: FrameClause) -> FrameShape {
    FrameShape {
        mode: f.mode,
        start: bound_shape(f.start),
        end: match f.end {
            Some(end) => Some(bound_shape(end)),
            None => None,
        },
        exclude: f.exclude,
    }
}

pub open spec fn over_shape(o: Over) -> OverShape {
    match o {
        Over::Window(w) => OverShape::Window {
            base: w.base,
            partitions: w.partition_by@.len(),
            order_by: sort_keys(w.order_by@),
            frame: match w.frame_clause {
                Some(f) => Some(frame_shape(f)),
                None => None,
            },
        },
        Over::Name(n) => OverShape::Name(n),
    }
}

pub open spec fn tail_shape(t: FunctionTail) -> TailShape {
    TailShape {
        filter: t.filter_clause is Some,
        over: match t.over_clause {
            Some(o) => Some(over_shape(o)),
            None => None,
        },
    }
}

/// What the root of an expression is.
pub open spec fn expr_kind(e: Expr) -> ExprKind {
    match e {
        Expr::Between { not, .. } => ExprKind::Between { not },
        Expr::Binary(_, op, _) => ExprKind::Binary(op),
        Expr::Register(r) => ExprKind::Register(r),
        Expr::Case { base, when_then_pairs, else_expr } => ExprKind::Case {
            base: base is Some,
            pairs: when_then_pairs@.len(),
            otherwise: else_expr is Some,
        },
        Expr::Cast { target, .. } => ExprKind::Cast { target },
        Expr::Collate(_, name) => ExprKind::Collate(name),
        Expr::DoublyQualified(a, b, c) => ExprKind::DoublyQualified(a, b, c),
        Expr::Exists(select) => ExprKind::Exists(select),
        Expr::FunctionCall { name, distinctness, args, order_by, filter_over } => {
            ExprKind::FunctionCall {
                name,
                distinctness,
                args: args@.len(),
                order_by: sort_keys(order_by@),
                tail: tail_shape(filter_over),
            }
        },
        Expr::FunctionCallStar { name, filter_over } => ExprKind::FunctionCallStar {
            name,
            tail: tail_shape(filter_over),
        },
        Expr::Id(name) => ExprKind::Id(name),
        Expr::Column { database, table, column, is_rowid_alias } => ExprKind::Column {
            database,
            table,
            column,
            is_rowid_alias,
        },
        Expr::RowId { database, table } => ExprKind::RowId { database, table },
        Expr::InList { not, .. } => ExprKind::InList { not },
        Expr::InSelect { not, rhs, .. } => ExprKind::InSelect { not, rhs },
        Expr::InTable { not, rhs, .. } => ExprKind::InTable { not, rhs },
        Expr::IsNull(_) => ExprKind::IsNull,
        Expr::Like { not, op, escape, .. } => ExprKind::Like { not, op, escape: escape is Some },
        Expr::Literal(l) => ExprKind::Literal(l),
        Expr::Name(name) => ExprKind::Name(name),
        Expr::NotNull(_) => ExprKind::NotNull,
        Expr::Parenthesized(_) => ExprKind::Parenthesized,
        Expr::Qualified(table, name) => ExprKind::Qualified(table, name),
        Expr::Raise(resolve, _) => ExprKind::Raise(resolve),
        Expr::Subquery(select) => ExprKind::Subquery(select),
        Expr::Unary(op, _) => ExprKind::Unary(op),
        Expr::Variable(text) => ExprKind::Variable(text@),
        Expr::SubqueryResult { subquery_id, not_in, query_type, .. } => ExprKind::SubqueryResult {
            subquery_id,
            not_in,
            query_type,
        },
    }
}

/// The direct subexpressions of an expression, from left to right. A `SELECT` inside the
/// expression is not one: it is planned on its own.
pub open spec fn expr_operands(e: Expr) -> Seq<Operand>
{
    match e {
        Expr::Between { lhs, start, end, .. } => seq![
            operand(*lhs, Role::Operand),
            operand(*start, Role::Operand),
            operand(*end, Role::Operand),
        ],
        Expr::Binary(lhs, _, rhs) => seq![
            operand(*lhs, Role::Operand),
            operand(*rhs, Role::Operand),
        ],
        Expr::Case { base, when_then_pairs, else_expr } => optional_operand(base, Role::Operand) + (
        pair_operands(when_then_pairs@) + optional_operand(else_expr, Role::Operand)),
        Expr::Cast { expr, .. } => seq![operand(*expr, Role::Operand)],
        Expr::Collate(expr, _) => seq![operand(*expr, Role::Operand)],
        Expr::FunctionCall { args, order_by, filter_over, .. } => operands_of(
            args@,
            Role::Argument,
        ) + (sorted_operands(order_by@, Role::ArgumentOrder) + tail_operands(filter_over)),
        Expr::FunctionCallStar { filter_over, .. } => tail_operands(filter_over),
        Expr::InList { lhs, rhs, .. } => seq![operand(*lhs, Role::Operand)] + operands_of(
            rhs@,
            Role::Operand,
        ),
        Expr::InSelect { lhs, .. } => seq![operand(*lhs, Role::Operand)],
        Expr::InTable { lhs, args, .. } => seq![operand(*lhs, Role::Operand)] + operands_of(
            args@,
            Role::Argument,
        ),
        Expr::IsNull(expr) => seq![operand(*expr, Role::Operand)],
        Expr::Like { lhs, rhs, escape, .. } => seq![
            operand(*lhs, Role::Operand),
            operand(*rhs, Role::Operand),
        ] + optional_operand(escape, Role::Operand),
        Expr::NotNull(expr) => seq![operand(*expr, Role::Operand)],
        Expr::Parenthesized(exprs) => operands_of(exprs@, Role::Operand),
        Expr::Raise(_, expr) => optional_operand(expr, Role::Operand),
        Expr::Unary(_, expr) => seq![operand(*expr, Role::Operand)],
        Expr::SubqueryResult { lhs, .. } => optional_operand(lhs, Role::Operand),
        _ => seq![],
    }
}

proof fn tail_decreases(t: FunctionTail, i: int)
    requires
        0 <= i < tail_operands(t).len(),
    ensures
        decreases_to!(t => tail_operands(t)[i].expr),
{
    let filters = optional_operand(t.filter_clause, Role::Filter);
    if i >= filters.len() {
        over_decreases(t.over_clause->0, i - filters.len());
    }
}

proof fn over_decreases(o: Over, i: int)
    requires
        0 <= i < over_operands(o).len(),
    ensures
        decreases_to!(o => over_operands(o)[i].expr),
{
    let w = o->Window_0;
    let partitions = w.partition_by@.len();
    let terms = w.order_by@.len();
    if i < partitions {
        assert(decreases_to!(o => w.partition_by@[i]));
    } else if i < partitions + terms {
        assert(decreases_to!(o => w.order_by@[i - partitions]));
    } else {
        let f = w.frame_clause->0;
        assert(decreases_to!(o => f));
        let starts = bound_operands(f.start).len();
        if i - partitions - terms < starts {
            assert(decreases_to!(f => f.start));
        } else {
            assert(decreases_to!(f => f.end->0));
        }
    }
}

/// A direct subexpression is smaller than the expression.
pub proof fn operand_decreases(e: Expr, i: int)
    requires
        0 <= i < expr_operands(e).len(),
    ensures
        decreases_to!(e => expr_operands(e)[i].expr),
{
    match e {
        Expr::Case { base, when_then_pairs, else_expr } => {
            let bases = optional_operand(base, Role::Operand).len();
            let paired = pair_operands(when_then_pairs@).len();
            if i < bases {
                assert(decreases_to!(e => *(base->0)));
            } else if i < bases + paired {
                assert(decreases_to!(e => when_then_pairs@[(i - bases) / 2]));
            } else {
                assert(decreases_to!(e => *(else_expr->0)));
            }
        },
        Expr::FunctionCall { args, order_by, filter_over, .. } => {
            if i < args@.len() {
                assert(decreases_to!(e => args@[i]));
            } else if i < args@.len() + order_by@.len() {
                assert(decreases_to!(e => order_by@[i - args@.len()]));
            } else {
                tail_decreases(filter_over, i - args@.len() - order_by@.len());
            }
        },
        Expr::FunctionCallStar { filter_over, .. } => {
            tail_decreases(filter_over, i);
        },
        Expr::InList { lhs, rhs, .. } => {
            if i == 0 {
                assert(decreases_to!(e => *lhs));
            } else {
                assert(decreases_to!(e => rhs@[i - 1]));
            }
        },
        Expr::InTable { lhs, args, .. } => {
            if i == 0 {
                assert(decreases_to!(e => *lhs));
            } else {
                assert(decreases_to!(e => args@[i - 1]));
            }
        },
        Expr::Parenthesized(exprs) => {
            assert(decreases_to!(e => exprs@[i]));
        },
        Expr::Between { lhs, start, end, .. } => {
            assert(decreases_to!(e => *lhs));
            assert(decreases_to!(e => *start));
            assert(decreases_to!(e => *end));
        },
        Expr::Binary(lhs, _, rhs) => {
            assert(decreases_to!(e => *lhs));
            assert(decreases_to!(e => *rhs));
        },
        Expr::Like { lhs, rhs, escape, .. } => {
            assert(decreases_to!(e => *lhs));
            assert(decreases_to!(e => *rhs));
            if i == 2 {
                assert(decreases_to!(e => *(escape->0)));
            }
        },
        Expr::Raise(_, expr) => {
            assert(decreases_to!(e => *(expr->0)));
        },
        Expr::SubqueryResult { lhs, .. } => {
            assert(decreases_to!(e => *(lhs->0)));
        },
        _ => {},
    }
}

/// An expression as a tree.
pub open spec fn expr_tree(e: Expr) -> ExprTree
    decreases e,
{
    let operands = expr_operands(e);
    proof {
        assert forall|i: int| 0 <= i < operands.len() implies decreases_to!(e => (
        #[trigger] operands[i]).expr) by {
            operand_decreases(e, i);
        }
    }
    ExprTree {
        kind: expr_kind(e),
        children: Seq::new(
            operands.len(),
            |i: int|
                if 0 <= i < operands.len() {
                    Child { role: operands[i].role, tree: expr_tree(operands[i].expr) }
                } else {
                    arbitrary()
                },
        ),
    }
}

impl View for Expr {
    type V = ExprTree;

    open spec fn view(&self) -> ExprTree {
        expr_tree(*self)
    }
}

} // verus!
