//! Query plans.
use crate::ast::{Expr, Name, SortOrder, SubqueryType, TableInternalId, Window};
use crate::program::{BranchOffset, LimboError};
use crate::schema::{BTreeTable, CollationSeq, Column, Index};
use std::sync::Arc;
use vstd::prelude::*;

verus! {

// ---------------------------------------------------------------------------------------------
// Column masks.

/// The set of columns of a table that a query refers to.
#[derive(Debug, PartialEq, Eq)]
pub struct ColumnUsedMask {
    /// Whether the column at each position is used; positions beyond the end are not.
    pub used: Vec<bool>,
}

/// The positions that hold `true`.
pub open spec fn used_positions(used: Seq<bool>) -> Set<nat> {
    Set::new(|i: nat| i < used.len() && used[i as int])
}

impl View for ColumnUsedMask {
    type V = Set<nat>;

    open spec fn view(&self) -> Set<nat> {
        used_positions(self.used@)
    }
}

impl Default for ColumnUsedMask {
    /// No column.
    fn default() -> (r: Self)
        ensures
            r@ == Set::<nat>::empty(),
    {
        let r = ColumnUsedMask { used: Vec::new() };
        assert(r@ =~= Set::<nat>::empty());
        r
    }
}

impl ColumnUsedMask {
    /// Adds a column.
    pub fn set(&mut self, column: usize)
        ensures
            final(self)@ == old(self)@.insert(column as nat),
    {
        if column < self.used.len() {
            self.used.set(column, true);
        } else {
            while self.used.len() < column
                invariant
                    self.used@.len() <= column,
                    used_positions(self.used@) == used_positions(old(self).used@),
                decreases column - self.used@.len(),
            {
                let ghost before = self.used@;
                self.used.push(false);
                assert(used_positions(self.used@) =~= used_positions(before));
            }
            self.used.push(true);
        }
        assert(self@ =~= old(self)@.insert(column as nat));
    }

    /// Whether a column is in the set.
    pub fn get(&self, column: usize) -> (r: bool)
        ensures
            r == self@.contains(column as nat),
    {
        column < self.used.len() && self.used[column]
    }

    /// Whether there is no column in the set.
    pub fn is_empty(&self) -> (r: bool)
        ensures
            r == (self@ == Set::<nat>::empty()),
    {
        let mut i: usize = 0;
        while i < self.used.len()
            invariant
                i <= self.used@.len(),
                forall|j: int| 0 <= j < i ==> !#[trigger] self.used@[j],
            decreases self.used@.len() - i,
        {
            if self.used[i] {
                assert(self@.contains(i as nat));
                return false;
            }
            i += 1;
        }
        assert(self@ =~= Set::<nat>::empty());
        true
    }

    /// Adds the columns of another set.
    pub fn union_with(&mut self, other: &ColumnUsedMask)
        ensures
            final(self)@ == old(self)@.union(other@),
    {
        let mut i: usize = 0;
        assert(self@ =~= old(self)@.union(other@.intersect(Set::new(|k: nat| k < 0))));
        while i < other.used.len()
            invariant
                i <= other.used@.len(),
                self@ == old(self)@.union(other@.intersect(Set::new(|k: nat| k < i))),
            decreases other.used@.len() - i,
        {
            if other.used[i] {
                self.set(i);
            }
            i += 1;
            assert(self@ =~= old(self)@.union(other@.intersect(Set::new(|k: nat| k < i))));
        }
        assert(self@ =~= old(self)@.union(other@));
    }
}

// ---------------------------------------------------------------------------------------------
// Tables.

/// A virtual table.
#[derive(Debug, PartialEq, Eq)]
pub struct VirtualTable {
    pub name: String,
    pub columns: Vec<Column>,
}

/// A subquery in a `FROM` clause, used as a table.
#[derive(Debug, PartialEq, Eq)]
pub struct FromClauseSubquery {
    pub name: String,
    pub columns: Arc<Vec<Column>>,
    pub plan: Box<SelectPlan>,
    /// The first register of the result columns, once the subquery is emitted.
    pub result_columns_start_reg: Option<usize>,
}

/// A recursive common table expression.
#[derive(Debug, PartialEq, Eq)]
pub struct RecursiveCte {
    pub name: String,
    pub columns: Arc<Vec<Column>>,
    /// The part that refers to the expression itself.
    pub recursive_member: Arc<OneSelect>,
    /// The plan of the part that does not.
    pub anchor_plan: Option<Arc<SelectPlan>>,
}

/// One `SELECT` or `VALUES` of a compound, as a recursive member is made of it. The code of a
/// recursive member is made out of the columns, the named tables, the `ON` conditions of the joins
/// and the `WHERE` condition; nothing else of a `SELECT` has a part in it.
#[derive(Debug, PartialEq, Eq)]
pub enum OneSelect {
    Select {
        /// `SELECT DISTINCT`.
        distinct: bool,
        columns: Vec<ResultColumn>,
        from: Option<FromClause>,
        where_clause: Option<Box<Expr>>,
        group_by: Option<GroupBy>,
        window_clause: Vec<WindowDef>,
    },
    Values,
}

/// A window under a name.
#[derive(Debug, PartialEq, Eq)]
pub struct WindowDef {
    pub name: Name,
    pub window: Window,
}

/// A result column of a `SELECT`.
#[derive(Debug, PartialEq, Eq)]
pub enum ResultColumn {
    Expr(Box<Expr>),
    Star,
    TableStar(Name),
}

/// A `FROM` clause: its first table and the ones joined to it.
#[derive(Debug, PartialEq, Eq)]
pub struct FromClause {
    pub select: SelectTable,
    pub joins: Vec<JoinedSelectTable>,
}

/// A table that is joined to the ones before it.
#[derive(Debug, PartialEq, Eq)]
pub struct JoinedSelectTable {
    pub operator: JoinOperator,
    pub table: SelectTable,
    pub constraint: Option<JoinConstraint>,
}

/// How a table is joined. A comma, `JOIN`, `INNER JOIN` and `CROSS JOIN` are neither of these.
#[derive(Clone, Copy, Debug, PartialEq, Eq, Structural)]
pub struct JoinOperator {
    /// `NATURAL`.
    pub natural: bool,
    /// `LEFT`, `RIGHT` or `FULL`.
    pub outer: bool,
}

/// Which rows of a join belong together.
#[derive(Debug, PartialEq, Eq)]
pub enum JoinConstraint {
    On(Box<Expr>),
    Using(Vec<Name>),
}

/// A table of a `FROM` clause.
#[derive(Debug, PartialEq, Eq)]
pub enum SelectTable {
    /// A table by its name.
    Table { database: Option<Name>, name: Name, alias: Option<Name> },
    /// A table function, a subquery or a nested `FROM` clause.
    Other,
}

/// What a table of a query is.
#[derive(Debug, PartialEq, Eq)]
pub enum Table {
    BTree(Arc<BTreeTable>),
    Virtual(Arc<VirtualTable>),
    FromClauseSubquery(FromClauseSubquery),
    RecursiveCte(Arc<RecursiveCte>),
}

/// The name of a table.
pub open spec fn table_name(t: Table) -> Seq<char> {
    match t {
        Table::BTree(t) => t.name@,
        Table::Virtual(t) => t.name@,
        Table::FromClauseSubquery(t) => t.name@,
        Table::RecursiveCte(t) => t.name@,
    }
}

impl Table {
    /// The name of the table.
    pub fn get_name(&self) -> (r: &str)
        ensures
            r@ == table_name(*self),
    {
        match self {
            Table::BTree(t) => t.name.as_str(),
            Table::Virtual(t) => t.name.as_str(),
            Table::FromClauseSubquery(t) => t.name.as_str(),
            Table::RecursiveCte(t) => t.name.as_str(),
        }
    }
}

/// A scan of a whole table.
#[derive(Debug, PartialEq, Eq)]
pub enum Scan {
    BTreeTable { index: Option<Arc<Index>> },
    VirtualTable,
    Subquery,
    RecursiveCte,
}

/// A search for some rows of a table.
#[derive(Debug, PartialEq, Eq)]
pub enum Search {
    RowidEq,
    Seek { index: Option<Arc<Index>> },
}

/// How a table is read.
#[derive(Debug, PartialEq, Eq)]
pub enum Operation {
    Scan(Scan),
    Search(Search),
    IndexMethodQuery { method_name: String },
    HashJoin,
}

/// The plain scan of a table.
pub open spec fn default_scan(t: Table) -> Operation {
    match t {
        Table::BTree(_) => Operation::Scan(Scan::BTreeTable { index: None }),
        Table::Virtual(_) => Operation::Scan(Scan::VirtualTable),
        Table::FromClauseSubquery(_) => Operation::Scan(Scan::Subquery),
        Table::RecursiveCte(_) => Operation::Scan(Scan::RecursiveCte),
    }
}

impl Operation {
    /// The plain scan of a table.
    pub fn default_scan_for(table: &Table) -> (r: Operation)
        ensures
            r == default_scan(*table),
    {
        match table {
            Table::BTree(_) => Operation::Scan(Scan::BTreeTable { index: None }),
            Table::Virtual(_) => Operation::Scan(Scan::VirtualTable),
            Table::FromClauseSubquery(_) => Operation::Scan(Scan::Subquery),
            Table::RecursiveCte(_) => Operation::Scan(Scan::RecursiveCte),
        }
    }
}

/// A table of the query itself.
#[derive(Debug, PartialEq, Eq)]
pub struct JoinedTable {
    pub op: Operation,
    pub table: Table,
    /// The alias, or the name if there is none.
    pub identifier: String,
    pub internal_id: TableInternalId,
    pub col_used_mask: ColumnUsedMask,
    /// The index that the table is read through has all the columns that are needed.
    pub utilizes_covering_index: bool,
    pub database_id: usize,
}

/// A table of an enclosing query.
#[derive(Debug, PartialEq, Eq)]
pub struct OuterQueryReference {
    pub table: Table,
    pub identifier: String,
    pub internal_id: TableInternalId,
    pub col_used_mask: ColumnUsedMask,
}

impl OuterQueryReference {
    /// Whether the query refers to a column of the table.
    pub fn is_used(&self) -> (r: bool)
        ensures
            r == (self.col_used_mask@ != Set::<nat>::empty()),
    {
        !self.col_used_mask.is_empty()
    }
}

/// The tables that a query can refer to.
#[derive(Debug, PartialEq, Eq)]
pub struct TableReferences {
    pub joined_tables: Vec<JoinedTable>,
    pub outer_query_refs: Vec<OuterQueryReference>,
}

// ---------------------------------------------------------------------------------------------
// Select plans.

/// Where the rows of a query go.
#[derive(Debug, PartialEq, Eq)]
pub enum QueryDestination {
    ResultRows,
    /// To the query that resumes the coroutine.
    CoroutineYield { yield_reg: usize, coroutine_implementation_start: BranchOffset },
    /// Into an index made for this query.
    EphemeralIndex { cursor_id: usize, index: Arc<Index>, is_delete: bool },
    /// One register tells whether there was a row.
    ExistsSubqueryResult { result_reg: usize },
    /// The first row, into registers.
    RowValueSubqueryResult { result_reg_start: usize, num_regs: usize },
    /// Not decided yet.
    Unset,
}

/// A result column of a planned query.
#[derive(Debug, PartialEq, Eq)]
pub struct ResultSetColumn {
    pub expr: Expr,
    /// The name of the column, where it has one.
    pub name: Option<String>,
    /// How the text of the column compares, or why that cannot be said.
    pub collation: Result<Option<CollationSeq>, LimboError>,
}

/// One condition of a `WHERE` clause.
#[derive(Debug, PartialEq, Eq)]
pub struct WhereTerm {
    pub expr: Expr,
}

/// A `GROUP BY` clause.
#[derive(Debug, PartialEq, Eq)]
pub struct GroupBy {
    pub exprs: Vec<Expr>,
    pub having: Option<Vec<Expr>>,
}

/// The place of a subquery in the query around it.
#[derive(Clone, Copy, Debug, PartialEq, Eq, Structural)]
pub enum SubqueryPosition {
    ResultColumn,
    Where,
    GroupBy,
    Having,
    OrderBy,
    LimitOffset,
}

impl SubqueryPosition {
    /// A subquery there may refer to columns of the query around it.
    pub open spec fn may_correlate(self) -> bool {
        self is ResultColumn || self is Where || self is GroupBy
    }

    /// The clause, as it is called in messages.
    pub open spec fn clause(self) -> Seq<char> {
        match self {
            SubqueryPosition::ResultColumn => "SELECT list"@,
            SubqueryPosition::Where => "WHERE"@,
            SubqueryPosition::GroupBy => "GROUP BY"@,
            SubqueryPosition::Having => "HAVING"@,
            SubqueryPosition::OrderBy => "ORDER BY"@,
            SubqueryPosition::LimitOffset => "LIMIT/OFFSET"@,
        }
    }

    /// Whether a subquery there may refer to columns of the query around it.
    pub fn allow_correlated(self) -> (r: bool)
        ensures
            r == self.may_correlate(),
    {
        match self {
            SubqueryPosition::ResultColumn => true,
            SubqueryPosition::Where => true,
            SubqueryPosition::GroupBy => true,
            _ => false,
        }
    }

    /// The clause, as it is called in messages.
    pub fn name(self) -> (r: &'static str)
        ensures
            r@ == self.clause(),
    {
        match self {
            SubqueryPosition::ResultColumn => "SELECT list",
            SubqueryPosition::Where => "WHERE",
            SubqueryPosition::GroupBy => "GROUP BY",
            SubqueryPosition::Having => "HAVING",
            SubqueryPosition::OrderBy => "ORDER BY",
            SubqueryPosition::LimitOffset => "LIMIT/OFFSET",
        }
    }
}

/// How far a subquery has got.
#[derive(Debug, PartialEq, Eq)]
pub enum SubqueryState {
    Unevaluated { plan: Option<Box<SelectPlan>> },
    Evaluated,
}

/// A subquery anywhere but in the `FROM` clause.
#[derive(Debug, PartialEq, Eq)]
pub struct NonFromClauseSubquery {
    pub internal_id: TableInternalId,
    pub query_type: SubqueryType,
    pub state: SubqueryState,
    pub correlated: bool,
}

/// The plan of a `SELECT`.
#[derive(Debug, PartialEq, Eq)]
pub struct SelectPlan {
    pub table_references: TableReferences,
    pub result_columns: Vec<ResultSetColumn>,
    pub where_clause: Vec<WhereTerm>,
    pub group_by: Option<GroupBy>,
    pub order_by: Vec<(Box<Expr>, SortOrder)>,
    pub limit: Option<Box<Expr>>,
    pub offset: Option<Box<Expr>>,
    pub query_destination: QueryDestination,
    pub non_from_clause_subqueries: Vec<NonFromClauseSubquery>,
}

/// A plan refers to a column of an enclosing query.
pub open spec fn correlates(plan: SelectPlan) -> bool {
    exists|i: int|
        0 <= i < plan.table_references.outer_query_refs@.len() && (
        #[trigger] plan.table_references.outer_query_refs@[i]).col_used_mask@
            != Set::<nat>::empty()
}

/// A plan without anything in it.
pub open spec fn is_blank(plan: SelectPlan) -> bool {
    &&& plan.table_references.joined_tables@.len() == 0
    &&& plan.table_references.outer_query_refs@.len() == 0
    &&& plan.result_columns@.len() == 0
    &&& plan.where_clause@.len() == 0
    &&& plan.group_by is None
    &&& plan.order_by@.len() == 0
    &&& plan.limit is None
    &&& plan.offset is None
    &&& plan.query_destination is Unset
    &&& plan.non_from_clause_subqueries@.len() == 0
}

impl SelectPlan {
    /// Takes the plan out, and leaves one without anything in it.
    pub fn take(&mut self) -> (r: SelectPlan)
        ensures
            r == *old(self),
            is_blank(*final(self)),
    {
        let mut taken = SelectPlan {
            table_references: TableReferences {
                joined_tables: Vec::new(),
                outer_query_refs: Vec::new(),
            },
            result_columns: Vec::new(),
            where_clause: Vec::new(),
            group_by: None,
            order_by: Vec::new(),
            limit: None,
            offset: None,
            query_destination: QueryDestination::Unset,
            non_from_clause_subqueries: Vec::new(),
        };
        std::mem::swap(&mut taken, self);
        taken
    }

    /// Whether the plan refers to a column of an enclosing query.
    pub fn is_correlated(&self) -> (r: bool)
        ensures
            r == correlates(*self),
    {
        let refs = &self.table_references.outer_query_refs;
        let mut i: usize = 0;
        while i < refs.len()
            invariant
                refs == self.table_references.outer_query_refs,
                i <= refs@.len(),
                forall|j: int|
                    0 <= j < i ==> (#[trigger] refs@[j]).col_used_mask@ == Set::<nat>::empty(),
            decreases refs@.len() - i,
        {
            if refs[i].is_used() {
                return true;
            }
            i += 1;
        }
        false
    }
}

/// The plan of a statement, as far as it can come out of a `SELECT` in parentheses.
#[derive(Debug, PartialEq, Eq)]
pub enum Plan {
    Select(SelectPlan),
    CompoundSelect,
}

} // verus!
