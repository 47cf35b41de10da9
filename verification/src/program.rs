//! The program under construction: instructions, registers, labels and cursors.
use crate::ast::TableInternalId;
use crate::schema::{BTreeTable, BTreeTableView, CollationSeq, Index, IndexView};
use std::sync::Arc;
use vstd::prelude::*;

verus! {

/// Why a query could not be compiled.
#[derive(Debug, PartialEq, Eq)]
pub enum LimboError {
    /// The query is malformed or asks for something that is not supported.
    ParseError(String),
    /// The compiler itself is at its limits.
    InternalError(String),
}

/// What there is to know of a [`LimboError`].
pub enum ErrorView {
    ParseError(Seq<char>),
    InternalError(Seq<char>),
}

impl View for LimboError {
    type V = ErrorView;

    open spec fn view(&self) -> ErrorView {
        match self {
            LimboError::ParseError(message) => ErrorView::ParseError(message@),
            LimboError::InternalError(message) => ErrorView::InternalError(message@),
        }
    }
}

/// An outcome with the error as it is known.
pub open spec fn outcome<T>(r: Result<T, LimboError>) -> Result<T, ErrorView> {
    match r {
        Ok(value) => Ok(value),
        Err(error) => Err(error@),
    }
}

/// The query is malformed or asks for something that is not supported.
pub fn parse_error(message: &str) -> (r: LimboError)
    ensures
        r@ == ErrorView::ParseError(message@),
{
    LimboError::ParseError(message.to_owned())
}

/// The error when registers, labels or table numbers have run out.
pub open spec fn out_of_capacity() -> ErrorView {
    ErrorView::InternalError("program builder is out of capacity"@)
}

/// The error when registers, labels or table numbers have run out.
pub fn capacity_error() -> (r: LimboError)
    ensures
        r@ == out_of_capacity(),
{
    LimboError::InternalError("program builder is out of capacity".to_owned())
}

impl Clone for LimboError {
    fn clone(&self) -> (r: Self)
        ensures
            r == *self,
    {
        match self {
            LimboError::ParseError(message) => LimboError::ParseError(message.clone()),
            LimboError::InternalError(message) => LimboError::InternalError(message.clone()),
        }
    }
}

/// A place in the program that an instruction can jump to.
#[derive(Clone, Copy, Debug, PartialEq, Eq, Structural)]
pub enum BranchOffset {
    /// A place that is decided later.
    Label(usize),
    /// The place of an instruction, by its position.
    Offset(usize),
}

/// How a label is tied to its place.
#[derive(Clone, Copy, Debug, PartialEq, Eq, Structural)]
pub enum JumpTarget {
    /// The instruction that ends up behind the ones emitted so far, whichever that is.
    AfterThisInsn,
    /// The instruction at exactly that position.
    ExactlyThisInsn,
}

/// The decision where a label leads: `position` instructions precede the place.
#[derive(Clone, Copy, Debug, PartialEq, Eq, Structural)]
pub struct LabelAssignment {
    pub label: BranchOffset,
    pub position: usize,
    pub target: JumpTarget,
}

/// An instruction.
#[allow(inconsistent_fields)]
#[derive(Debug, PartialEq, Eq)]
pub enum Insn {
    AddImm { register: usize, value: i64 },
    BeginSubrtn { dest: usize, dest_end: Option<usize> },
    Column { cursor_id: usize, column: usize, dest: usize, default: Option<String> },
    Copy { src_reg: usize, dst_reg: usize, extra_amount: usize },
    EndCoroutine { yield_reg: usize },
    Explain { p1: usize, p2: Option<usize>, detail: String },
    Ge {
        lhs: usize,
        rhs: usize,
        target_pc: BranchOffset,
        flags: u8,
        collation: Option<CollationSeq>,
    },
    Goto { target_pc: BranchOffset },
    InitCoroutine {
        yield_reg: usize,
        jump_on_definition: BranchOffset,
        start_offset: BranchOffset,
    },
    Insert { cursor: usize, key_reg: usize, record_reg: usize, flag: u8, table_name: String },
    Integer { value: i64, dest: usize },
    MakeRecord {
        start_reg: usize,
        count: usize,
        dest_reg: usize,
        index_name: Option<String>,
        affinity_str: Option<String>,
    },
    NewRowid { cursor: usize, rowid_reg: usize, prev_largest_reg: usize },
    Next { cursor_id: usize, pc_if_next: BranchOffset },
    Null { dest: usize, dest_end: Option<usize> },
    Once { target_pc_when_reentered: BranchOffset },
    OpenEphemeral { cursor_id: usize, is_table: bool },
    OpenRead { cursor_id: usize, root_page: i64, db: usize },
    ResetSorter { cursor_id: usize },
    Return { return_reg: usize, can_fallthrough: bool },
    Rewind { cursor_id: usize, pc_if_empty: BranchOffset },
    RowId { cursor_id: usize, dest: usize },
    Yield { yield_reg: usize, end_offset: BranchOffset },
    /// An instruction that only the rest of the compiler emits.
    Other { opcode: usize },
}

/// What there is to know of an [`Insn`]: the instruction itself, but for the texts in it.
pub enum InsnView {
    Explain { p1: nat, p2: Option<usize>, detail: Seq<char> },
    Insert { cursor: usize, key_reg: usize, record_reg: usize, flag: u8, table_name: Seq<char> },
    Plain(Insn),
}

impl View for Insn {
    type V = InsnView;

    open spec fn view(&self) -> InsnView {
        match *self {
            Insn::Explain { p1, p2, detail } => InsnView::Explain {
                p1: p1 as nat,
                p2,
                detail: detail@,
            },
            Insn::Insert { cursor, key_reg, record_reg, flag, table_name } => InsnView::Insert {
                cursor,
                key_reg,
                record_reg,
                flag,
                table_name: table_name@,
            },
            insn => InsnView::Plain(insn),
        }
    }
}

/// What a cursor runs over.
#[derive(Debug, PartialEq, Eq)]
pub enum CursorType {
    BTreeTable(Arc<BTreeTable>),
    BTreeIndex(Arc<Index>),
    /// Something that only the rest of the compiler opens.
    Other,
}

/// What there is to know of a [`CursorType`].
pub enum CursorTypeView {
    BTreeTable(BTreeTableView),
    BTreeIndex(IndexView),
    Other,
}

impl View for CursorType {
    type V = CursorTypeView;

    open spec fn view(&self) -> CursorTypeView {
        match *self {
            CursorType::BTreeTable(table) => CursorTypeView::BTreeTable((*table)@),
            CursorType::BTreeIndex(index) => CursorTypeView::BTreeIndex((*index)@),
            CursorType::Other => CursorTypeView::Other,
        }
    }
}

/// The table reference that a cursor belongs to.
#[derive(Clone, Copy, Debug, PartialEq, Eq, Structural)]
pub struct CursorKey {
    pub table: TableInternalId,
}

/// A cursor of the program. Its number is its position among the cursors.
#[derive(Debug, PartialEq, Eq)]
pub struct Cursor {
    pub key: Option<CursorKey>,
    pub cursor_type: CursorType,
}

/// What there is to know of a [`Cursor`].
pub struct CursorView {
    pub key: Option<CursorKey>,
    pub cursor_type: CursorTypeView,
}

impl View for Cursor {
    type V = CursorView;

    open spec fn view(&self) -> CursorView {
        CursorView { key: self.key, cursor_type: self.cursor_type@ }
    }
}

/// What the program is compiled for.
#[derive(Clone, Copy, Debug, PartialEq, Eq, Structural)]
pub enum QueryMode {
    Normal,
    Explain,
    ExplainQueryPlan,
}

/// A program under construction.
#[derive(Debug, PartialEq, Eq)]
pub struct ProgramBuilder {
    pub query_mode: QueryMode,
    pub next_free_register: usize,
    pub next_table_id: usize,
    pub next_label: usize,
    pub insns: Vec<Insn>,
    pub labels: Vec<LabelAssignment>,
    pub cursors: Vec<Cursor>,
    /// The positions of the `Explain` instructions that enclose what is emitted next.
    pub explain_parents: Vec<usize>,
    pub nested_level: usize,
}

/// What there is to know of a [`ProgramBuilder`].
pub struct ProgramView {
    pub query_mode: QueryMode,
    pub next_free_register: nat,
    pub next_table_id: nat,
    pub next_label: nat,
    pub insns: Seq<InsnView>,
    pub labels: Seq<LabelAssignment>,
    pub cursors: Seq<CursorView>,
    pub explain_parents: Seq<usize>,
    pub nested_level: nat,
}

impl View for ProgramBuilder {
    type V = ProgramView;

    open spec fn view(&self) -> ProgramView {
        ProgramView {
            query_mode: self.query_mode,
            next_free_register: self.next_free_register as nat,
            next_table_id: self.next_table_id as nat,
            next_label: self.next_label as nat,
            insns: self.insns@.map_values(|i: Insn| i@),
            labels: self.labels@,
            cursors: self.cursors@.map_values(|c: Cursor| c@),
            explain_parents: self.explain_parents@,
            nested_level: self.nested_level as nat,
        }
    }
}

/// The first cursor from `start` on that belongs to `key`.
pub open spec fn keyed_cursor(cursors: Seq<CursorView>, key: CursorKey, start: nat) -> Option<nat>
    decreases cursors.len() - start,
{
    if start >= cursors.len() {
        None
    } else if cursors[start as int].key == Some(key) {
        Some(start)
    } else {
        keyed_cursor(cursors, key, start + 1)
    }
}

impl ProgramView {
    /// After an instruction.
    pub open spec fn emit(self, insn: InsnView) -> ProgramView {
        ProgramView { insns: self.insns.push(insn), ..self }
    }

    /// After an instruction without text in it.
    pub open spec fn op(self, insn: Insn) -> ProgramView {
        self.emit(InsnView::Plain(insn))
    }

    /// After several instructions.
    pub open spec fn emit_all(self, insns: Seq<InsnView>) -> ProgramView {
        ProgramView { insns: self.insns + insns, ..self }
    }

    /// After tying a label to whichever instruction comes next.
    pub open spec fn assign_next(self, label: BranchOffset) -> ProgramView {
        ProgramView {
            labels: self.labels.push(
                LabelAssignment {
                    label,
                    position: self.insns.len() as usize,
                    target: JumpTarget::AfterThisInsn,
                },
            ),
            ..self
        }
    }

    /// After tying a label to the position of the next instruction.
    pub open spec fn assign_here(self, label: BranchOffset) -> ProgramView {
        ProgramView {
            labels: self.labels.push(
                LabelAssignment {
                    label,
                    position: self.insns.len() as usize,
                    target: JumpTarget::ExactlyThisInsn,
                },
            ),
            ..self
        }
    }

    /// After handing out `n` registers.
    pub open spec fn with_registers(self, n: nat) -> ProgramView {
        ProgramView { next_free_register: self.next_free_register + n, ..self }
    }

    /// After handing out `n` labels.
    pub open spec fn with_labels(self, n: nat) -> ProgramView {
        ProgramView { next_label: self.next_label + n, ..self }
    }

    /// After handing out a table number.
    pub open spec fn with_table_id(self) -> ProgramView {
        ProgramView { next_table_id: self.next_table_id + 1, ..self }
    }

    /// After opening a cursor.
    pub open spec fn with_cursor(
        self,
        key: Option<CursorKey>,
        cursor_type: CursorTypeView,
    ) -> ProgramView {
        ProgramView { cursors: self.cursors.push(CursorView { key, cursor_type }), ..self }
    }

    /// The first register that is still free.
    pub open spec fn register(self, n: nat) -> usize {
        (self.next_free_register + n) as usize
    }

    /// The label that is handed out after `n` more.
    pub open spec fn label(self, n: nat) -> BranchOffset {
        BranchOffset::Label((self.next_label + n) as usize)
    }

    /// The number of the next cursor.
    pub open spec fn cursor(self) -> usize {
        self.cursors.len() as usize
    }

    /// The number of the next table.
    pub open spec fn table_id(self) -> TableInternalId {
        TableInternalId(self.next_table_id as usize)
    }

    /// After a line of the query plan, which encloses what follows if `push` says so. Plan lines
    /// are only kept when the query plan is what was asked for.
    pub open spec fn explain(self, push: bool, detail: Seq<char>) -> ProgramView {
        if self.query_mode is ExplainQueryPlan {
            let line = InsnView::Explain {
                p1: self.insns.len(),
                p2: if self.explain_parents.len() > 0 {
                    Some(self.explain_parents.last())
                } else {
                    None
                },
                detail,
            };
            ProgramView {
                explain_parents: if push {
                    self.explain_parents.push(self.insns.len() as usize)
                } else {
                    self.explain_parents
                },
                ..self.emit(line)
            }
        } else {
            self
        }
    }

    /// After the end of what the last plan line encloses.
    pub open spec fn pop_explain(self) -> ProgramView {
        if self.query_mode is ExplainQueryPlan && self.explain_parents.len() > 0 {
            ProgramView { explain_parents: self.explain_parents.drop_last(), ..self }
        } else {
            self
        }
    }

    /// There are that many registers, labels and table numbers left.
    pub open spec fn has_room(self, registers: nat, labels: nat, table_ids: nat) -> bool {
        &&& self.next_free_register + registers <= usize::MAX
        &&& self.next_label + labels <= usize::MAX
        &&& self.next_table_id + table_ids <= usize::MAX
    }
}

/// A program without instructions.
pub open spec fn empty_program(query_mode: QueryMode) -> ProgramView {
    ProgramView {
        query_mode,
        next_free_register: 1,
        next_table_id: 1,
        next_label: 0,
        insns: seq![],
        labels: seq![],
        cursors: seq![],
        explain_parents: seq![],
        nested_level: 0,
    }
}

impl ProgramBuilder {
    /// A program without instructions.
    pub fn new(query_mode: QueryMode) -> (r: Self)
        ensures
            r@ == empty_program(query_mode),
    {
        let r = ProgramBuilder {
            query_mode,
            next_free_register: 1,
            next_table_id: 1,
            next_label: 0,
            insns: Vec::new(),
            labels: Vec::new(),
            cursors: Vec::new(),
            explain_parents: Vec::new(),
            nested_level: 0,
        };
        assert(r@.insns =~= seq![]);
        assert(r@.cursors =~= seq![]);
        r
    }

    /// Whether that many registers, labels and table numbers are left.
    pub fn has_room(&self, registers: usize, labels: usize, table_ids: usize) -> (r: bool)
        ensures
            r == self@.has_room(registers as nat, labels as nat, table_ids as nat),
    {
        self.next_free_register <= usize::MAX - registers && self.next_label <= usize::MAX - labels
            && self.next_table_id <= usize::MAX - table_ids
    }

    /// Takes the program out, and leaves an empty one.
    pub fn take(&mut self) -> (r: ProgramBuilder)
        ensures
            r == *old(self),
            final(self)@ == empty_program(old(self).query_mode),
    {
        let mut taken = ProgramBuilder::new(self.query_mode);
        std::mem::swap(&mut taken, self);
        taken
    }

    /// Hands out a register.
    pub fn alloc_register(&mut self) -> (r: usize)
        requires
            old(self)@.next_free_register < usize::MAX,
        ensures
            r == old(self)@.next_free_register,
            final(self)@ == old(self)@.with_registers(1),
    {
        self.alloc_registers(1)
    }

    /// Hands out `amount` registers in a row, and returns the first.
    pub fn alloc_registers(&mut self, amount: usize) -> (r: usize)
        requires
            old(self)@.next_free_register + amount <= usize::MAX,
        ensures
            r == old(self)@.next_free_register,
            final(self)@ == old(self)@.with_registers(amount as nat),
    {
        let first = self.next_free_register;
        self.next_free_register = first + amount;
        first
    }

    /// Hands out a number for a table reference or a subquery.
    pub fn next_table_reference(&mut self) -> (r: TableInternalId)
        requires
            old(self)@.next_table_id < usize::MAX,
        ensures
            r == old(self)@.table_id(),
            final(self)@ == old(self)@.with_table_id(),
    {
        let id = self.next_table_id;
        self.next_table_id = id + 1;
        TableInternalId(id)
    }

    /// Hands out a label, which leads nowhere yet.
    pub fn allocate_label(&mut self) -> (r: BranchOffset)
        requires
            old(self)@.next_label < usize::MAX,
        ensures
            r == old(self)@.label(0),
            final(self)@ == old(self)@.with_labels(1),
    {
        let label = self.next_label;
        self.next_label = label + 1;
        BranchOffset::Label(label)
    }

    /// Adds an instruction.
    pub fn emit_insn(&mut self, insn: Insn)
        ensures
            final(self)@ == old(self)@.emit(insn@),
    {
        self.insns.push(insn);
        assert(self@.insns =~= old(self)@.insns.push(insn@));
    }

    /// Ties a label to whichever instruction comes next.
    pub fn preassign_label_to_next_insn(&mut self, label: BranchOffset)
        ensures
            final(self)@ == old(self)@.assign_next(label),
    {
        let position = self.insns.len();
        self.labels.push(LabelAssignment { label, position, target: JumpTarget::AfterThisInsn });
    }

    /// Ties a label to the position of the next instruction.
    pub fn resolve_label_here(&mut self, label: BranchOffset)
        ensures
            final(self)@ == old(self)@.assign_here(label),
    {
        let position = self.insns.len();
        self.labels.push(LabelAssignment { label, position, target: JumpTarget::ExactlyThisInsn });
    }

    fn push_cursor(&mut self, key: Option<CursorKey>, cursor_type: CursorType) -> (r: usize)
        ensures
            r == old(self)@.cursors.len(),
            final(self)@ == old(self)@.with_cursor(key, cursor_type@),
    {
        let id = self.cursors.len();
        self.cursors.push(Cursor { key, cursor_type });
        assert(self@.cursors =~= old(self)@.with_cursor(key, cursor_type@).cursors);
        id
    }

    /// Opens a cursor that belongs to no table reference.
    pub fn alloc_cursor_id(&mut self, cursor_type: CursorType) -> (r: usize)
        ensures
            r == old(self)@.cursors.len(),
            final(self)@ == old(self)@.with_cursor(None, cursor_type@),
    {
        self.push_cursor(None, cursor_type)
    }

    /// The cursor of a table reference; it is opened if there is none yet.
    pub fn alloc_cursor_id_keyed_if_not_exists(
        &mut self,
        key: CursorKey,
        cursor_type: CursorType,
    ) -> (r: usize)
        ensures
            match keyed_cursor(old(self)@.cursors, key, 0) {
                Some(id) => r == id && final(self)@ == old(self)@,
                None => r == old(self)@.cursors.len() && final(self)@ == old(self)@.with_cursor(
                    Some(key),
                    cursor_type@,
                ),
            },
    {
        let mut i: usize = 0;
        while i < self.cursors.len()
            invariant
                *self == *old(self),
                i <= self.cursors@.len(),
                keyed_cursor(self@.cursors, key, 0) == keyed_cursor(self@.cursors, key, i as nat),
            decreases self.cursors@.len() - i,
        {
            assert(self@.cursors[i as int] == self.cursors@[i as int]@);
            if let Some(k) = self.cursors[i].key {
                if k == key {
                    return i;
                }
            }
            i += 1;
        }
        self.push_cursor(Some(key), cursor_type)
    }

    /// Notes that what follows is one level deeper.
    pub fn incr_nesting(&mut self)
        requires
            old(self)@.nested_level < usize::MAX,
        ensures
            final(self)@ == (ProgramView {
                nested_level: old(self)@.nested_level + 1,
                ..old(self)@
            }),
    {
        self.nested_level = self.nested_level + 1;
    }

    /// Notes that what follows is one level less deep.
    pub fn decr_nesting(&mut self)
        requires
            old(self)@.nested_level > 0,
        ensures
            final(self)@ == (ProgramView {
                nested_level: (old(self)@.nested_level - 1) as nat,
                ..old(self)@
            }),
    {
        self.nested_level = self.nested_level - 1;
    }

    /// Adds a line to the query plan, if that is what was asked for.
    pub fn emit_explain(&mut self, push: bool, detail: String)
        ensures
            final(self)@ == old(self)@.explain(push, detail@),
    {
        if let QueryMode::ExplainQueryPlan = self.query_mode {
            let position = self.insns.len();
            let depth = self.explain_parents.len();
            let parent = if depth > 0 {
                Some(self.explain_parents[depth - 1])
            } else {
                None
            };
            self.emit_insn(Insn::Explain { p1: position, p2: parent, detail });
            if push {
                self.explain_parents.push(position);
            }
        }
    }

    /// Ends what the last plan line encloses.
    pub fn pop_current_parent_explain(&mut self)
        ensures
            final(self)@ == old(self)@.pop_explain(),
    {
        if let QueryMode::ExplainQueryPlan = self.query_mode {
            if self.explain_parents.len() > 0 {
                self.explain_parents.pop();
            }
        }
    }
}

} // verus!
