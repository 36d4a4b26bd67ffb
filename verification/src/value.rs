use vstd::prelude::*;
use vstd::string::*;
use crate::error::Error;
use crate::error::Failure;
use crate::error::outcome;

verus! {

/// A handle on storage of a [`Machine`].
///
/// A plain value owns the cell it names. A reference denotes the cell of
/// another value and owns nothing.
#[derive(Clone, Copy, Debug, PartialEq, Eq, Structural)]
pub struct Value {
    pub cell: usize,
    pub reference: bool,
}

impl Value {
    /// The plain value that a reference points at; a plain value is its own target.
    pub open spec fn target(self) -> Value {
        Value { cell: self.cell, reference: false }
    }

    /// A reference to a plain value; none can be had of a reference.
    pub open spec fn referred(self) -> Result<Value, Failure> {
        if self.reference {
            Err(Failure::CannotReferenceAReference)
        } else {
            Ok(Value { cell: self.cell, reference: true })
        }
    }

    /// Whether the value is a reference.
    pub fn is_ref(&self) -> (r: bool)
        ensures
            r == self.reference,
    {
        self.reference
    }

    /// Produces a reference to this value's storage.
    pub fn refer(&self) -> (r: Result<Value, Error>)
        ensures
            outcome(r) == self.referred(),
    {
        if self.reference {
            Err(Error::CannotReferenceAReference)
        } else {
            Ok(Value { cell: self.cell, reference: true })
        }
    }

    /// Reads through a reference. A plain value is returned as it is.
    pub fn deref(&self) -> (r: Value)
        ensures
            r == self.target(),
    {
        Value { cell: self.cell, reference: false }
    }
}

/// What a cell holds.
#[derive(Clone, Debug, PartialEq, Eq)]
pub enum Datum {
    Empty,
    Byte(u8),
    Word(u32),
    Char(char),
    Text(String),
}

/// The mathematical content of a [`Datum`].
pub enum DatumView {
    Empty,
    Byte(u8),
    Word(u32),
    Char(char),
    Text(Seq<char>),
}

impl DatumView {
    /// Footprint in cells' units: one per byte of an integer, one per character.
    pub open spec fn size(self) -> nat {
        match self {
            DatumView::Empty => 0,
            DatumView::Byte(_) => 1,
            DatumView::Word(_) => 4,
            DatumView::Char(_) => 1,
            DatumView::Text(s) => s.len(),
        }
    }
}

impl View for Datum {
    type V = DatumView;

    open spec fn view(&self) -> DatumView {
        match self {
            Datum::Empty => DatumView::Empty,
            Datum::Byte(b) => DatumView::Byte(*b),
            Datum::Word(w) => DatumView::Word(*w),
            Datum::Char(c) => DatumView::Char(*c),
            Datum::Text(s) => DatumView::Text(s@),
        }
    }
}

impl Datum {
    /// The datum's footprint.
    pub fn size(&self) -> (n: usize)
        ensures
            n == self@.size(),
    {
        match self {
            Datum::Empty => 0,
            Datum::Byte(_) => 1,
            Datum::Word(_) => 4,
            Datum::Char(_) => 1,
            Datum::Text(s) => s.as_str().unicode_len(),
        }
    }

    /// A datum that holds the same.
    pub fn duplicate(&self) -> (d: Datum)
        ensures
            d@ == self@,
    {
        match self {
            Datum::Empty => Datum::Empty,
            Datum::Byte(b) => Datum::Byte(*b),
            Datum::Word(w) => Datum::Word(*w),
            Datum::Char(c) => Datum::Char(*c),
            Datum::Text(s) => Datum::Text(s.clone()),
        }
    }
}

/// One operation emitted for the target, in the order of emission.
#[derive(Clone, Copy, Debug, PartialEq, Eq, Structural)]
pub enum Op {
    /// Fresh storage was filled with a literal.
    Alloc(Value),
    /// The first value was duplicated into the second.
    Copy(Value, Value),
    Zero(Value),
    Free(Value),
    /// The first value's storage was overwritten from the second.
    Assign(Value, Value),
    IfBegin(Value),
    IfEnd,
    WhileBegin(Value),
    WhileEnd,
    /// A frame was left and the stack pointer reset.
    Leave,
}

struct Cell {
    datum: Datum,
    size: usize,
    live: bool,
}

/// The mathematical content of a storage cell.
pub struct CellView {
    pub datum: DatumView,
    pub size: nat,
    pub live: bool,
}

impl View for Cell {
    type V = CellView;

    closed spec fn view(&self) -> CellView {
        CellView { datum: self.datum@, size: self.size as nat, live: self.live }
    }
}

/// The mathematical content of a [`Machine`].
pub struct MachineView {
    pub cells: Seq<CellView>,
    pub stack_ptr: nat,
    pub code: Seq<Op>,
}

/// The cell that carries a callee's result to its caller.
pub open spec fn return_register() -> Value {
    Value { cell: 0, reference: false }
}

impl MachineView {
    /// A machine that holds an empty, live return register and nothing else.
    pub open spec fn initial() -> MachineView {
        MachineView {
            cells: seq![CellView { datum: DatumView::Empty, size: 0, live: true }],
            stack_ptr: 0,
            code: Seq::empty(),
        }
    }

    /// The value names a cell of this machine.
    pub open spec fn holds(self, v: Value) -> bool {
        v.cell < self.cells.len()
    }

    /// What the storage that `v` denotes holds; nothing where `v` names no cell.
    pub open spec fn datum(self, v: Value) -> DatumView {
        if self.holds(v) {
            self.cells[v.cell as int].datum
        } else {
            DatumView::Empty
        }
    }

    /// The footprint of the storage that `v` denotes.
    pub open spec fn size(self, v: Value) -> nat {
        if self.holds(v) {
            self.cells[v.cell as int].size
        } else {
            0
        }
    }

    /// The storage that `v` denotes exists and was not freed.
    pub open spec fn live(self, v: Value) -> bool {
        self.holds(v) && self.cells[v.cell as int].live
    }

    /// The value that the next allocation hands out.
    pub open spec fn fresh(self) -> Value {
        Value { cell: self.cells.len() as usize, reference: false }
    }

    /// The machine with `op` emitted and nothing else changed.
    pub open spec fn emit(self, op: Op) -> MachineView {
        MachineView { code: self.code.push(op), ..self }
    }

    /// Fresh live storage holding `d`; the stack pointer advances by its size.
    pub open spec fn allocate(self, d: DatumView) -> MachineView {
        MachineView {
            cells: self.cells.push(CellView { datum: d, size: d.size(), live: true }),
            stack_ptr: self.stack_ptr + d.size(),
            code: self.code.push(Op::Alloc(self.fresh())),
        }
    }

    /// The value that `copy` hands out: fresh storage for a plain value, the
    /// same reference for a reference.
    pub open spec fn copied(self, v: Value) -> Value {
        if v.reference {
            v
        } else {
            self.fresh()
        }
    }

    /// Duplicates a plain value into fresh live storage of its own. A
    /// reference owns no storage, so nothing is allocated for it.
    pub open spec fn copy(self, v: Value) -> MachineView {
        if v.reference {
            self.emit(Op::Copy(v, v))
        } else {
            MachineView {
                cells: self.cells.push(
                    CellView { datum: self.datum(v), size: self.size(v), live: true },
                ),
                stack_ptr: self.stack_ptr + self.size(v),
                code: self.code.push(Op::Copy(v, self.fresh())),
            }
        }
    }

    /// Clears what a plain value holds and keeps its storage.
    pub open spec fn zero(self, v: Value) -> MachineView {
        if !v.reference && self.holds(v) {
            MachineView {
                cells: self.cells.update(
                    v.cell as int,
                    CellView { datum: DatumView::Empty, ..self.cells[v.cell as int] },
                ),
                ..self
            }.emit(Op::Zero(v))
        } else {
            self.emit(Op::Zero(v))
        }
    }

    /// Releases the storage that a plain value owns.
    pub open spec fn free(self, v: Value) -> MachineView {
        if !v.reference && self.holds(v) {
            MachineView {
                cells: self.cells.update(
                    v.cell as int,
                    CellView { live: false, ..self.cells[v.cell as int] },
                ),
                ..self
            }.emit(Op::Free(v))
        } else {
            self.emit(Op::Free(v))
        }
    }

    /// Overwrites the storage that `dst` denotes with what `src` denotes.
    pub open spec fn assign(self, dst: Value, src: Value) -> MachineView {
        if self.holds(dst) {
            MachineView {
                cells: self.cells.update(
                    dst.cell as int,
                    CellView {
                        datum: self.datum(src),
                        size: self.size(src),
                        live: self.cells[dst.cell as int].live,
                    },
                ),
                ..self
            }.emit(Op::Assign(dst, src))
        } else {
            self.emit(Op::Assign(dst, src))
        }
    }

    /// Clears the return register, then copies `v` into it.
    pub open spec fn set_return(self, v: Value) -> MachineView {
        self.zero(return_register()).assign(return_register(), v)
    }

    /// Resets the stack pointer to where a frame began, plus the room that
    /// the return register's content takes.
    pub open spec fn leave(self, frame: nat) -> MachineView {
        MachineView {
            stack_ptr: frame + self.size(return_register()),
            code: self.code.push(Op::Leave),
            ..self
        }
    }

    /// The return register exists, and the stack pointer is within what the
    /// emitted operations can have moved it by: each moves it by one `usize`
    /// at most, so it cannot run out of its type.
    pub open spec fn wf(self) -> bool {
        &&& self.cells.len() >= 1
        &&& self.stack_ptr <= self.code.len() * 0x1_0000_0000_0000_0000
    }

    /// Nothing emitted is taken back, no cell is lost, and the stack pointer
    /// has not fallen.
    pub open spec fn follows(self, before: MachineView) -> bool {
        &&& before.code.len() <= self.code.len()
        &&& forall|k: int| 0 <= k < before.code.len() ==> #[trigger] self.code[k] == before.code[k]
        &&& before.cells.len() <= self.cells.len()
        &&& before.stack_ptr <= self.stack_ptr
    }
}

/// The target's memory and the operations emitted for it.
///
/// Cell 0 is the return register. Cells are never reused: a value names the
/// same storage for as long as the machine lives.
pub struct Machine {
    cells: Vec<Cell>,
    stack_ptr: u128,
    code: Vec<Op>,
}

impl View for Machine {
    type V = MachineView;

    closed spec fn view(&self) -> MachineView {
        MachineView {
            cells: Seq::new(self.cells@.len(), |i: int| self.cells@[i]@),
            stack_ptr: self.stack_ptr as nat,
            code: self.code@,
        }
    }
}

impl Machine {
    /// A machine with an empty return register and nothing emitted.
    pub fn new() -> (m: Machine)
        ensures
            m@ == MachineView::initial(),
            m@.wf(),
    {
        let mut cells: Vec<Cell> = Vec::new();
        cells.push(Cell { datum: Datum::Empty, size: 0, live: true });
        let m = Machine { cells, stack_ptr: 0, code: Vec::new() };
        assert(m@.cells =~= seq![CellView { datum: DatumView::Empty, size: 0, live: true }]);
        m
    }

    /// The value that names the return register.
    pub fn return_register(&self) -> (v: Value)
        ensures
            v == return_register(),
    {
        Value { cell: 0, reference: false }
    }

    /// Where the next allocation starts, in the units of footprints.
    pub fn stack_ptr(&self) -> (p: u128)
        ensures
            p == self@.stack_ptr,
    {
        self.stack_ptr
    }

    /// The operations emitted so far, oldest first.
    pub fn code(&self) -> (c: &Vec<Op>)
        ensures
            c@ == self@.code,
    {
        &self.code
    }

    /// The footprint of the storage that `v` denotes.
    pub fn size(&self, v: Value) -> (n: usize)
        ensures
            n == self@.size(v),
    {
        if v.cell < self.cells.len() {
            self.cells[v.cell].size
        } else {
            0
        }
    }

    /// Whether the storage that `v` denotes exists and was not freed.
    pub fn is_live(&self, v: Value) -> (b: bool)
        ensures
            b == self@.live(v),
    {
        v.cell < self.cells.len() && self.cells[v.cell].live
    }

    /// What the storage that `v` denotes holds now.
    pub fn read(&self, v: Value) -> (d: Datum)
        ensures
            d@ == self@.datum(v),
    {
        if v.cell < self.cells.len() {
            self.cells[v.cell].datum.duplicate()
        } else {
            Datum::Empty
        }
    }

    /// Puts `datum` into fresh storage and hands out the value that owns it.
    pub fn allocate(&mut self, datum: Datum) -> (v: Value)
        requires
            old(self)@.wf(),
        ensures
            final(self)@.wf(),
            final(self)@ == old(self)@.allocate(datum@),
            v == old(self)@.fresh(),
    {
        let size = datum.size();
        let v = Value { cell: self.cells.len(), reference: false };
        self.code.push(Op::Alloc(v));
        self.cells.push(Cell { datum, size, live: true });
        let emitted = self.code.len();
        assert(self.stack_ptr + size < emitted * 0x1_0000_0000_0000_0000);
        self.stack_ptr = self.stack_ptr + size as u128;
        assert(self@.cells =~= old(self)@.allocate(datum@).cells);
        v
    }

    /// Duplicates `v` into storage of its own. A reference is handed back as it is.
    pub fn copy(&mut self, v: Value) -> (c: Value)
        requires
            old(self)@.wf(),
        ensures
            final(self)@.wf(),
            final(self)@ == old(self)@.copy(v),
            c == old(self)@.copied(v),
    {
        if v.reference {
            self.code.push(Op::Copy(v, v));
            assert(self@.cells =~= old(self)@.cells);
            v
        } else {
            let datum = self.read(v);
            let size = self.size(v);
            let c = Value { cell: self.cells.len(), reference: false };
            self.code.push(Op::Copy(v, c));
            self.cells.push(Cell { datum, size, live: true });
            let emitted = self.code.len();
            assert(self.stack_ptr + size < emitted * 0x1_0000_0000_0000_0000);
            self.stack_ptr = self.stack_ptr + size as u128;
            assert(self@.cells =~= old(self)@.copy(v).cells);
            c
        }
    }

    /// Clears what the plain value `v` holds and keeps its storage.
    pub fn zero(&mut self, v: Value)
        requires
            old(self)@.wf(),
        ensures
            final(self)@.wf(),
            final(self)@ == old(self)@.zero(v),
    {
        self.code.push(Op::Zero(v));
        if !v.reference && v.cell < self.cells.len() {
            let size = self.cells[v.cell].size;
            let live = self.cells[v.cell].live;
            self.cells.set(v.cell, Cell { datum: Datum::Empty, size, live });
        }
        assert(self@.cells =~= old(self)@.zero(v).cells);
    }

    /// Releases the storage that the plain value `v` owns.
    pub fn free(&mut self, v: Value)
        requires
            old(self)@.wf(),
        ensures
            final(self)@.wf(),
            final(self)@ == old(self)@.free(v),
    {
        self.code.push(Op::Free(v));
        if !v.reference && v.cell < self.cells.len() {
            let datum = self.cells[v.cell].datum.duplicate();
            let size = self.cells[v.cell].size;
            self.cells.set(v.cell, Cell { datum, size, live: false });
        }
        assert(self@.cells =~= old(self)@.free(v).cells);
    }

    /// Overwrites the storage that `dst` denotes with what `src` denotes.
    pub fn assign(&mut self, dst: Value, src: Value)
        requires
            old(self)@.wf(),
        ensures
            final(self)@.wf(),
            final(self)@ == old(self)@.assign(dst, src),
    {
        self.code.push(Op::Assign(dst, src));
        if dst.cell < self.cells.len() {
            let datum = self.read(src);
            let size = self.size(src);
            let live = self.cells[dst.cell].live;
            self.cells.set(dst.cell, Cell { datum, size, live });
        }
        assert(self@.cells =~= old(self)@.assign(dst, src).cells);
    }

    /// Clears the return register, then copies `v` into it.
    pub fn set_return(&mut self, v: Value)
        requires
            old(self)@.wf(),
        ensures
            final(self)@.wf(),
            final(self)@ == old(self)@.set_return(v),
    {
        let register = self.return_register();
        self.zero(register);
        self.assign(register, v);
    }

    /// Resets the stack pointer on leaving the frame that began at `frame`.
    pub(crate) fn leave(&mut self, frame: u128)
        requires
            old(self)@.wf(),
            frame <= old(self)@.stack_ptr,
        ensures
            final(self)@.wf(),
            final(self)@ == old(self)@.leave(frame as nat),
    {
        let room = self.size(self.return_register());
        self.code.push(Op::Leave);
        let emitted = self.code.len();
        assert(frame + room < emitted * 0x1_0000_0000_0000_0000);
        self.stack_ptr = frame + room as u128;
        assert(self@.cells =~= old(self)@.cells);
    }

    /// Opens a conditional on the lowered condition.
    pub fn if_begin(&mut self, condition: Value)
        requires
            old(self)@.wf(),
        ensures
            final(self)@.wf(),
            final(self)@ == old(self)@.emit(Op::IfBegin(condition)),
    {
        self.code.push(Op::IfBegin(condition));
        assert(self@.cells =~= old(self)@.cells);
    }

    /// Closes the conditional that was opened last.
    pub fn if_end(&mut self)
        requires
            old(self)@.wf(),
        ensures
            final(self)@.wf(),
            final(self)@ == old(self)@.emit(Op::IfEnd),
    {
        self.code.push(Op::IfEnd);
        assert(self@.cells =~= old(self)@.cells);
    }

    /// Opens a loop on the lowered condition.
    pub fn while_begin(&mut self, condition: Value)
        requires
            old(self)@.wf(),
        ensures
            final(self)@.wf(),
            final(self)@ == old(self)@.emit(Op::WhileBegin(condition)),
    {
        self.code.push(Op::WhileBegin(condition));
        assert(self@.cells =~= old(self)@.cells);
    }

    /// Closes the loop that was opened last.
    pub fn while_end(&mut self)
        requires
            old(self)@.wf(),
        ensures
            final(self)@.wf(),
            final(self)@ == old(self)@.emit(Op::WhileEnd),
    {
        self.code.push(Op::WhileEnd);
        assert(self@.cells =~= old(self)@.cells);
    }
}

} // verus!
