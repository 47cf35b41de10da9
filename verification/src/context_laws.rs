//! What the rest of the compiler is given.
use crate::compiler::{Resolver, Schema, TranslateCtx};
use crate::copy_laws::{copied_tables_agree, same_table};
use crate::plan::TableReferences;
use crate::program::{BranchOffset, ProgramView};
use vstd::prelude::*;

verus! {

/// The state of a query that is about to be emitted has three labels for each of its tables, which
/// were free and differ from each other, no left join under way, no register and no cursor yet, and
/// no expression in a register.
pub proof fn new_context_is_blank(
    t_ctx: TranslateCtx,
    p: ProgramView,
    tables: nat,
    schema: Schema,
)
    requires
        t_ctx.is_new(p, tables, schema),
    ensures
        t_ctx.labels_main_loop@.len() == tables,
        forall|i: int|
            0 <= i < tables ==> {
                let labels = #[trigger] t_ctx.labels_main_loop@[i];
                &&& labels.loop_start == BranchOffset::Label((p.next_label + 3 * i) as usize)
                &&& labels.next == BranchOffset::Label((p.next_label + 3 * i + 1) as usize)
                &&& labels.loop_end == BranchOffset::Label((p.next_label + 3 * i + 2) as usize)
            },
        t_ctx.label_main_loop_end is None,
        t_ctx.meta_left_joins@.len() == tables,
        forall|i: int| 0 <= i < tables ==> !#[trigger] t_ctx.meta_left_joins@[i],
        t_ctx.reg_agg_start is None,
        t_ctx.reg_nonagg_emit_once_flag is None,
        t_ctx.reg_result_cols_start is None,
        t_ctx.reg_offset is None,
        t_ctx.reg_limit_offset_sum is None,
        t_ctx.cdc_cursor_id is None,
        *t_ctx.resolver.schema == schema,
        !t_ctx.resolver.expr_to_reg_cache_enabled,
        t_ctx.resolver.expr_to_reg_cache@.len() == 0,
{
    assert(t_ctx.resolver@.expr_to_reg_cache.len() == t_ctx.resolver.expr_to_reg_cache@.len());
}

/// Two resolvers that look the same, such as one and its copy, have the same schema and the same
/// expressions in the same registers.
pub proof fn resolvers_agree(a: Resolver, b: Resolver)
    requires
        a@ == b@,
    ensures
        *a.schema == *b.schema,
        a.expr_to_reg_cache_enabled == b.expr_to_reg_cache_enabled,
        a.expr_to_reg_cache@.len() == b.expr_to_reg_cache@.len(),
        forall|i: int|
            0 <= i < a.expr_to_reg_cache@.len() ==> {
                &&& (#[trigger] a.expr_to_reg_cache@[i]).0@ == b.expr_to_reg_cache@[i].0@
                &&& a.expr_to_reg_cache@[i].1 == b.expr_to_reg_cache@[i].1
            },
{
    assert(a@.expr_to_reg_cache.len() == a.expr_to_reg_cache@.len());
    assert(b@.expr_to_reg_cache.len() == b.expr_to_reg_cache@.len());
    assert forall|i: int| 0 <= i < a.expr_to_reg_cache@.len() implies (
    #[trigger] a.expr_to_reg_cache@[i]).0@ == b.expr_to_reg_cache@[i].0@
        && a.expr_to_reg_cache@[i].1 == b.expr_to_reg_cache@[i].1 by {
        let x = a.expr_to_reg_cache@[i];
        let y = b.expr_to_reg_cache@[i];
        assert(a@.expr_to_reg_cache[i] == (x.0@, x.1));
        assert(b@.expr_to_reg_cache[i] == (y.0@, y.1));
    }
}

/// Two lists of tables that look the same agree table by table.
pub proof fn table_lists_agree(a: TableReferences, b: TableReferences)
    requires
        a@ == b@,
    ensures
        a.joined_tables@.len() == b.joined_tables@.len(),
        forall|i: int|
            0 <= i < a.joined_tables@.len() ==> {
                let x = #[trigger] a.joined_tables@[i];
                let y = b.joined_tables@[i];
                &&& x.op == y.op
                &&& x.table == y.table
                &&& x.identifier@ == y.identifier@
                &&& x.internal_id == y.internal_id
                &&& x.col_used_mask@ == y.col_used_mask@
                &&& x.utilizes_covering_index == y.utilizes_covering_index
                &&& x.database_id == y.database_id
            },
        a.outer_query_refs@.len() == b.outer_query_refs@.len(),
        forall|i: int|
            0 <= i < a.outer_query_refs@.len() ==> {
                let x = #[trigger] a.outer_query_refs@[i];
                let y = b.outer_query_refs@[i];
                &&& same_table(x.table, y.table)
                &&& x.identifier == y.identifier
                &&& x.internal_id == y.internal_id
                &&& x.col_used_mask@ == y.col_used_mask@
            },
{
    assert(a@.joined_tables.len() == a.joined_tables@.len());
    assert(b@.joined_tables.len() == b.joined_tables@.len());
    assert(a@.outer_query_refs.len() == a.outer_query_refs@.len());
    assert(b@.outer_query_refs.len() == b.outer_query_refs@.len());
    assert forall|i: int| 0 <= i < a.joined_tables@.len() implies (
    #[trigger] a.joined_tables@[i])@ == b.joined_tables@[i]@ by {
        assert(a@.joined_tables[i] == a.joined_tables@[i]@);
        assert(b@.joined_tables[i] == b.joined_tables@[i]@);
    }
    assert forall|i: int| 0 <= i < a.outer_query_refs@.len() implies (
    #[trigger] a.outer_query_refs@[i])@ == b.outer_query_refs@[i]@ && same_table(
        a.outer_query_refs@[i].table,
        b.outer_query_refs@[i].table,
    ) by {
        assert(a@.outer_query_refs[i] == a.outer_query_refs@[i]@);
        assert(b@.outer_query_refs[i] == b.outer_query_refs@[i]@);
        copied_tables_agree(a.outer_query_refs@[i].table, b.outer_query_refs@[i].table);
    }
}

} // verus!
