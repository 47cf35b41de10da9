//! The rest of the query compiler, as this library calls on it.
//!
//! Nothing is known of what a [`SelectCompiler`] answers. The contracts of this library say what
//! is handed to it, and what is done with each answer. `prepares`, `optimizes`, `emits_query`,
//! `emits_select`, `translates_condition` and `translates_expr` each say that an answer is one
//! that the compiler can give.
use crate::ast::{Expr, ExprTree, TableInternalId};
use crate::copy::copy_expr;
use crate::plan::{
    JoinedTable, Operation, OuterQueryReference, Plan, QueryDestination, SelectPlan, Table,
    TableReferences,
};
use crate::plan_copy::{OuterQueryReferenceView, PlanTree};
use crate::program::{BranchOffset, LimboError, ProgramBuilder, ProgramView};
use crate::schema::{share, BTreeTable};
use std::sync::Arc;
use turso_parser::ast::Select;
use vstd::prelude::*;

verus! {

/// A table of the schema.
#[derive(Debug, PartialEq, Eq)]
pub enum SchemaTable {
    BTree(Arc<BTreeTable>),
    /// A virtual table or a view.
    Other,
}

/// The tables of the database under their normalized names.
#[derive(Debug, PartialEq, Eq)]
pub struct Schema {
    pub tables: Vec<(String, SchemaTable)>,
}

/// The first table from `start` on whose name is exactly `name`.
pub open spec fn schema_table(
    tables: Seq<(String, SchemaTable)>,
    name: Seq<char>,
    start: nat,
) -> Option<SchemaTable>
    decreases tables.len() - start,
{
    if start >= tables.len() {
        None
    } else if tables[start as int].0@ == name {
        Some(tables[start as int].1)
    } else {
        schema_table(tables, name, start + 1)
    }
}

impl Schema {
    /// The table with a normalized name.
    pub fn get_table(&self, name: &String) -> (r: Option<&SchemaTable>)
        ensures
            match schema_table(self.tables@, name@, 0) {
                Some(t) => r matches Some(found) && *found == t,
                None => r is None,
            },
    {
        let mut i: usize = 0;
        while i < self.tables.len()
            invariant
                i <= self.tables@.len(),
                schema_table(self.tables@, name@, 0) == schema_table(
                    self.tables@,
                    name@,
                    i as nat,
                ),
            decreases self.tables@.len() - i,
        {
            if self.tables[i].0 == *name {
                return Some(&self.tables[i].1);
            }
            i += 1;
        }
        None
    }
}

/// What expressions are translated against.
#[derive(Debug, PartialEq, Eq)]
pub struct Resolver {
    pub schema: Arc<Schema>,
    pub expr_to_reg_cache_enabled: bool,
    /// Expressions whose value is already in a register.
    pub expr_to_reg_cache: Vec<(Expr, usize)>,
}

/// What there is to know of a [`Resolver`].
pub struct ResolverView {
    pub schema: Schema,
    pub expr_to_reg_cache_enabled: bool,
    pub expr_to_reg_cache: Seq<(ExprTree, usize)>,
}

/// The expressions of a register cache as trees.
pub open spec fn cache_view(cache: Seq<(Expr, usize)>) -> Seq<(ExprTree, usize)> {
    cache.map_values(|entry: (Expr, usize)| (entry.0@, entry.1))
}

impl View for Resolver {
    type V = ResolverView;

    open spec fn view(&self) -> ResolverView {
        ResolverView {
            schema: *self.schema,
            expr_to_reg_cache_enabled: self.expr_to_reg_cache_enabled,
            expr_to_reg_cache: cache_view(self.expr_to_reg_cache@),
        }
    }
}

/// A resolver without cached expressions.
pub open spec fn plain_resolver(schema: Schema) -> ResolverView {
    ResolverView { schema, expr_to_reg_cache_enabled: false, expr_to_reg_cache: seq![] }
}

impl Resolver {
    /// A resolver without cached expressions.
    pub fn new(schema: Arc<Schema>) -> (r: Resolver)
        ensures
            r@ == plain_resolver(*schema),
    {
        let r = Resolver {
            schema,
            expr_to_reg_cache_enabled: false,
            expr_to_reg_cache: Vec::new(),
        };
        assert(r@.expr_to_reg_cache =~= seq![]);
        r
    }

    /// Starts using the cached expressions.
    pub fn enable_expr_to_reg_cache(&mut self)
        ensures
            final(self)@ == (ResolverView { expr_to_reg_cache_enabled: true, ..old(self)@ }),
    {
        self.expr_to_reg_cache_enabled = true;
    }

    /// Notes that the value of an expression is in a register.
    pub fn cache_expr_reg(&mut self, expr: Expr, register: usize)
        ensures
            final(self)@ == (ResolverView {
                expr_to_reg_cache: old(self)@.expr_to_reg_cache.push((expr@, register)),
                ..old(self)@
            }),
    {
        self.expr_to_reg_cache.push((expr, register));
        assert(self@.expr_to_reg_cache =~= old(self)@.expr_to_reg_cache.push((expr@, register)));
    }
}

impl Clone for Resolver {
    fn clone(&self) -> (r: Self)
        ensures
            r@ == self@,
    {
        let mut cache: Vec<(Expr, usize)> = Vec::new();
        let mut i: usize = 0;
        while i < self.expr_to_reg_cache.len()
            invariant
                i <= self.expr_to_reg_cache@.len(),
                cache@.len() == i,
                forall|j: int|
                    0 <= j < i ==> (#[trigger] cache@[j]).0@ == self.expr_to_reg_cache@[j].0@
                        && cache@[j].1 == self.expr_to_reg_cache@[j].1,
            decreases self.expr_to_reg_cache@.len() - i,
        {
            let entry = &self.expr_to_reg_cache[i];
            cache.push((copy_expr(&entry.0), entry.1));
            i += 1;
        }
        assert(cache_view(cache@) =~= cache_view(self.expr_to_reg_cache@));
        Resolver {
            schema: share(&self.schema),
            expr_to_reg_cache_enabled: self.expr_to_reg_cache_enabled,
            expr_to_reg_cache: cache,
        }
    }
}

/// The labels of the loop over one table.
#[derive(Clone, Copy, Debug, PartialEq, Eq, Structural)]
pub struct LoopLabels {
    pub loop_start: BranchOffset,
    pub next: BranchOffset,
    pub loop_end: BranchOffset,
}

/// What one query keeps track of while it is emitted. A new one has a set of labels for each of
/// its tables and nothing else yet.
#[derive(Debug, PartialEq, Eq)]
pub struct TranslateCtx {
    pub labels_main_loop: Vec<LoopLabels>,
    pub label_main_loop_end: Option<BranchOffset>,
    /// For each table, whether it is the right side of a left join that is under way.
    pub meta_left_joins: Vec<bool>,
    pub reg_agg_start: Option<usize>,
    pub reg_nonagg_emit_once_flag: Option<usize>,
    pub reg_result_cols_start: Option<usize>,
    pub reg_offset: Option<usize>,
    pub reg_limit_offset_sum: Option<usize>,
    pub cdc_cursor_id: Option<usize>,
    pub resolver: Resolver,
}

/// The labels that are handed out for the loop over a table, the `n`-th from now.
pub open spec fn loop_labels(p: ProgramView, n: nat) -> LoopLabels {
    LoopLabels {
        loop_start: p.label(3 * n),
        next: p.label(3 * n + 1),
        loop_end: p.label(3 * n + 2),
    }
}

impl TranslateCtx {
    /// The state of a query over `tables` tables that is about to be emitted.
    pub open spec fn is_new(self, p: ProgramView, tables: nat, schema: Schema) -> bool {
        &&& self.labels_main_loop@ == Seq::new(tables, |i: int| loop_labels(p, i as nat))
        &&& self.label_main_loop_end is None
        &&& self.meta_left_joins@ == Seq::new(tables, |i: int| false)
        &&& self.reg_agg_start is None
        &&& self.reg_nonagg_emit_once_flag is None
        &&& self.reg_result_cols_start is None
        &&& self.reg_offset is None
        &&& self.reg_limit_offset_sum is None
        &&& self.cdc_cursor_id is None
        &&& self.resolver@ == plain_resolver(schema)
    }

    /// The state of a query over `tables` tables that is about to be emitted.
    pub fn new(program: &mut ProgramBuilder, schema: Arc<Schema>, tables: usize) -> (r: TranslateCtx)
        requires
            old(program)@.next_label + 3 * tables <= usize::MAX,
        ensures
            r.is_new(old(program)@, tables as nat, *schema),
            final(program)@ == old(program)@.with_labels(3 * tables as nat),
    {
        let mut labels: Vec<LoopLabels> = Vec::new();
        let mut left_joins: Vec<bool> = Vec::new();
        let mut i: usize = 0;
        while i < tables
            invariant
                i <= tables,
                old(program)@.next_label + 3 * tables <= usize::MAX,
                program@ == old(program)@.with_labels(3 * i as nat),
                labels@ == Seq::new(i as nat, |k: int| loop_labels(old(program)@, k as nat)),
                left_joins@ == Seq::new(i as nat, |k: int| false),
            decreases tables - i,
        {
            let loop_start = program.allocate_label();
            let next = program.allocate_label();
            let loop_end = program.allocate_label();
            labels.push(LoopLabels { loop_start, next, loop_end });
            left_joins.push(false);
            i += 1;
            assert(labels@ =~= Seq::new(i as nat, |k: int| loop_labels(old(program)@, k as nat)));
            assert(left_joins@ =~= Seq::new(i as nat, |k: int| false));
        }
        TranslateCtx {
            labels_main_loop: labels,
            label_main_loop_end: None,
            meta_left_joins: left_joins,
            reg_agg_start: None,
            reg_nonagg_emit_once_flag: None,
            reg_result_cols_start: None,
            reg_offset: None,
            reg_limit_offset_sum: None,
            cdc_cursor_id: None,
            resolver: Resolver::new(schema),
        }
    }
}

/// Where a condition leads.
#[derive(Clone, Copy, Debug, PartialEq, Eq, Structural)]
pub struct ConditionMetadata {
    pub jump_if_condition_is_true: bool,
    pub jump_target_when_true: BranchOffset,
    pub jump_target_when_false: BranchOffset,
    pub jump_target_when_null: BranchOffset,
}

/// What there is to know of a [`JoinedTable`].
pub struct JoinedTableView {
    pub op: Operation,
    pub table: Table,
    pub identifier: Seq<char>,
    pub internal_id: TableInternalId,
    pub col_used_mask: Set<nat>,
    pub utilizes_covering_index: bool,
    pub database_id: usize,
}

impl View for JoinedTable {
    type V = JoinedTableView;

    open spec fn view(&self) -> JoinedTableView {
        JoinedTableView {
            op: self.op,
            table: self.table,
            identifier: self.identifier@,
            internal_id: self.internal_id,
            col_used_mask: self.col_used_mask@,
            utilizes_covering_index: self.utilizes_covering_index,
            database_id: self.database_id,
        }
    }
}

/// What there is to know of [`TableReferences`].
pub struct TableReferencesView {
    pub joined_tables: Seq<JoinedTableView>,
    pub outer_query_refs: Seq<OuterQueryReferenceView>,
}

/// What there is to know of a list of outer tables.
pub open spec fn refs_view(refs: Seq<OuterQueryReference>) -> Seq<OuterQueryReferenceView> {
    refs.map_values(|r: OuterQueryReference| r@)
}

impl View for TableReferences {
    type V = TableReferencesView;

    open spec fn view(&self) -> TableReferencesView {
        TableReferencesView {
            joined_tables: self.joined_tables@.map_values(|t: JoinedTable| t@),
            outer_query_refs: refs_view(self.outer_query_refs@),
        }
    }
}

/// The rest of the query compiler. Every method that emits takes the program and gives it back,
/// whether it succeeds or not.
pub trait SelectCompiler: Sized {
    /// Plans a `SELECT` that can see the outer tables and whose rows go to `destination`.
    fn prepare_select_plan(
        &self,
        program: ProgramBuilder,
        select: Select,
        resolver: &Resolver,
        outer_query_refs: &Vec<OuterQueryReference>,
        destination: QueryDestination,
    ) -> (ProgramBuilder, Result<Plan, LimboError>);

    /// Improves a plan.
    fn optimize_select_plan(&self, plan: SelectPlan, schema: &Schema) -> Result<
        SelectPlan,
        LimboError,
    >;

    /// Emits a query, and returns the first register of its result columns. The plan is given
    /// back, as it is then.
    fn emit_query(
        &self,
        program: ProgramBuilder,
        plan: SelectPlan,
        t_ctx: TranslateCtx,
    ) -> (ProgramBuilder, SelectPlan, Result<usize, LimboError>);

    /// Emits a query on its own.
    fn emit_program_for_select(
        &self,
        program: ProgramBuilder,
        resolver: &Resolver,
        plan: SelectPlan,
    ) -> (ProgramBuilder, Result<(), LimboError>);

    /// Emits the test of a condition.
    fn translate_condition_expr(
        &self,
        program: ProgramBuilder,
        referenced_tables: &TableReferences,
        expr: &Expr,
        condition_metadata: ConditionMetadata,
        resolver: &Resolver,
    ) -> (ProgramBuilder, Result<(), LimboError>);

    /// Emits the evaluation of an expression into a register.
    fn translate_expr(
        &self,
        program: ProgramBuilder,
        expr: &Expr,
        target_register: usize,
        resolver: &Resolver,
    ) -> (ProgramBuilder, Result<usize, LimboError>);
}

/// The compiler can plan `select` like this.
pub open spec fn prepares<C: SelectCompiler>(
    c: C,
    before: ProgramView,
    select: Select,
    resolver: ResolverView,
    refs: Seq<OuterQueryReferenceView>,
    destination: QueryDestination,
    after: ProgramView,
    reply: Result<Plan, LimboError>,
) -> bool {
    exists|p: ProgramBuilder, s: Resolver, r: Vec<OuterQueryReference>, q: ProgramBuilder|
        p@ == before && s@ == resolver && refs_view(r@) == refs && q@ == after
            && #[trigger] call_ensures(
            C::prepare_select_plan,
            (&c, p, select, &s, &r, destination),
            (q, reply),
        )
}

/// The compiler can improve `plan` like this.
pub open spec fn optimizes<C: SelectCompiler>(
    c: C,
    plan: SelectPlan,
    schema: Schema,
    reply: Result<SelectPlan, LimboError>,
) -> bool {
    call_ensures(C::optimize_select_plan, (&c, plan, &schema), reply)
}

/// The compiler can emit a query, the labels of whose loops were handed out from `labels` on, like
/// this.
pub open spec fn emits_query<C: SelectCompiler>(
    c: C,
    before: ProgramView,
    plan: PlanTree,
    labels: ProgramView,
    schema: Schema,
    after: ProgramView,
    plan_after: SelectPlan,
    reply: Result<usize, LimboError>,
) -> bool {
    exists|p: ProgramBuilder, s: SelectPlan, t_ctx: TranslateCtx, q: ProgramBuilder|
        p@ == before && s@ == plan && t_ctx.is_new(labels, plan.tables.len(), schema) && q@
            == after && #[trigger] call_ensures(
            C::emit_query,
            (&c, p, s, t_ctx),
            (q, plan_after, reply),
        )
}

/// The compiler can emit a query on its own like this.
pub open spec fn emits_select<C: SelectCompiler>(
    c: C,
    before: ProgramView,
    resolver: ResolverView,
    plan: SelectPlan,
    after: ProgramView,
    reply: Result<(), LimboError>,
) -> bool {
    exists|p: ProgramBuilder, r: Resolver, q: ProgramBuilder|
        p@ == before && r@ == resolver && q@ == after && #[trigger] call_ensures(
            C::emit_program_for_select,
            (&c, p, &r, plan),
            (q, reply),
        )
}

/// The compiler can translate a condition like this.
pub open spec fn translates_condition<C: SelectCompiler>(
    c: C,
    before: ProgramView,
    tables: TableReferencesView,
    condition: ExprTree,
    metadata: ConditionMetadata,
    resolver: ResolverView,
    after: ProgramView,
    reply: Result<(), LimboError>,
) -> bool {
    exists|p: ProgramBuilder, t: TableReferences, e: Expr, r: Resolver, q: ProgramBuilder|
        p@ == before && t@ == tables && e@ == condition && r@ == resolver && q@ == after
            && #[trigger] call_ensures(
            C::translate_condition_expr,
            (&c, p, &t, &e, metadata, &r),
            (q, reply),
        )
}

/// The compiler can translate an expression like this.
pub open spec fn translates_expr<C: SelectCompiler>(
    c: C,
    before: ProgramView,
    expr: ExprTree,
    target_register: usize,
    resolver: ResolverView,
    after: ProgramView,
    reply: Result<usize, LimboError>,
) -> bool {
    exists|p: ProgramBuilder, e: Expr, r: Resolver, q: ProgramBuilder|
        p@ == before && e@ == expr && r@ == resolver && q@ == after && #[trigger] call_ensures(
            C::translate_expr,
            (&c, p, &e, target_register, &r),
            (q, reply),
        )
}

} // verus!
