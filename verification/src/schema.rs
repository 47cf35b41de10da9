//! Tables and indexes.
use crate::ast::SortOrder;
use std::sync::Arc;
use vstd::prelude::*;

verus! {

/// `Arc::clone` gives another handle to the same value.
#[verifier::external_body]
pub(crate) fn share<T>(value: &Arc<T>) -> (r: Arc<T>)
    ensures
        r == *value,
{
    Arc::clone(value)
}

/// A column of a table.
#[derive(Debug, PartialEq, Eq)]
pub struct Column {
    pub name: Option<String>,
    /// The column is another name for the rowid.
    pub is_rowid_alias: bool,
}

impl Clone for Column {
    fn clone(&self) -> (r: Self)
        ensures
            r == *self,
    {
        Column { name: self.name.clone(), is_rowid_alias: self.is_rowid_alias }
    }
}

/// A copy of a list of columns.
pub fn copy_columns(columns: &Vec<Column>) -> (r: Vec<Column>)
    ensures
        r@ == columns@,
{
    let r = columns.clone();
    assert(r@ =~= columns@);
    r
}

/// A table that is stored as a B-tree, or a temporary one that is used like it.
#[derive(Debug, PartialEq, Eq)]
pub struct BTreeTable {
    pub root_page: i64,
    pub name: String,
    pub columns: Vec<Column>,
    pub has_rowid: bool,
    pub is_strict: bool,
    pub has_autoincrement: bool,
}

/// What there is to know of a [`BTreeTable`].
pub struct BTreeTableView {
    pub root_page: i64,
    pub name: Seq<char>,
    pub columns: Seq<Column>,
    pub has_rowid: bool,
    pub is_strict: bool,
    pub has_autoincrement: bool,
}

impl View for BTreeTable {
    type V = BTreeTableView;

    open spec fn view(&self) -> BTreeTableView {
        BTreeTableView {
            root_page: self.root_page,
            name: self.name@,
            columns: self.columns@,
            has_rowid: self.has_rowid,
            is_strict: self.is_strict,
            has_autoincrement: self.has_autoincrement,
        }
    }
}

/// How the text of a column compares.
#[derive(Clone, Copy, Debug, PartialEq, Eq, Structural)]
pub enum CollationSeq {
    Binary,
    NoCase,
    Rtrim,
}

/// A column of an index.
#[derive(Debug, PartialEq, Eq)]
pub struct IndexColumn {
    pub name: String,
    pub order: SortOrder,
    pub pos_in_table: usize,
    pub collation: Option<CollationSeq>,
}

/// What there is to know of an [`IndexColumn`].
pub struct IndexColumnView {
    pub name: Seq<char>,
    pub order: SortOrder,
    pub pos_in_table: nat,
    pub collation: Option<CollationSeq>,
}

impl View for IndexColumn {
    type V = IndexColumnView;

    open spec fn view(&self) -> IndexColumnView {
        IndexColumnView {
            name: self.name@,
            order: self.order,
            pos_in_table: self.pos_in_table as nat,
            collation: self.collation,
        }
    }
}

/// An index.
#[derive(Debug, PartialEq, Eq)]
pub struct Index {
    pub name: String,
    pub table_name: String,
    pub columns: Vec<IndexColumn>,
    pub ephemeral: bool,
    pub has_rowid: bool,
    pub root_page: i64,
    pub unique: bool,
    /// The name of the index method, for an index that is not a B-tree.
    pub index_method: Option<String>,
}

/// What there is to know of an [`Index`].
pub struct IndexView {
    pub name: Seq<char>,
    pub table_name: Seq<char>,
    pub columns: Seq<IndexColumnView>,
    pub ephemeral: bool,
    pub has_rowid: bool,
    pub root_page: i64,
    pub unique: bool,
    pub index_method: Option<Seq<char>>,
}

impl View for Index {
    type V = IndexView;

    open spec fn view(&self) -> IndexView {
        IndexView {
            name: self.name@,
            table_name: self.table_name@,
            columns: self.columns@.map_values(|c: IndexColumn| c@),
            ephemeral: self.ephemeral,
            has_rowid: self.has_rowid,
            root_page: self.root_page,
            unique: self.unique,
            index_method: match self.index_method {
                Some(method) => Some(method@),
                None => None,
            },
        }
    }
}

} // verus!
