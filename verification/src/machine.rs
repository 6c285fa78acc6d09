//! The state of the machine and the step that carries out one instruction.

use crate::address::{Address, MEMORY_SIZE};
use crate::error::MixError;
use crate::instruction::{
    Instruction, InstructionView, LoadTarget, Operation, OperationKind, StoreSource,
};
use crate::register::{
    index_number, lemma_index_view_injective, lemma_jump_view_injective, lemma_narrow_widen,
    Comparison, Index, Jump, ShortView, Toggle,
};
use crate::word::{
    lemma_add_cancels, lemma_add_magnitude, lemma_add_opposite_signs, lemma_slice_merge_wf,
    lemma_whole_field, lemma_word_view_injective, Word, WordView,
};
use core::ops::Neg;
use vstd::prelude::*;

verus! {

/// The mathematical model of the machine: its registers, its two
/// indicators and its memory.
pub struct MixView {
    /// The accumulator.
    pub a: WordView,
    /// The extension register.
    pub x: WordView,
    /// The six index registers, the first at position 0.
    pub index: Seq<ShortView>,
    /// The jump register.
    pub j: ShortView,
    /// The overflow toggle.
    pub overflow: Toggle,
    /// The comparison indicator.
    pub comparison_indicator: Comparison,
    /// The memory cells.
    pub memory: Seq<WordView>,
}

impl MixView {
    /// Every register and every memory cell is well-formed, and there are
    /// six index registers and [`MEMORY_SIZE`] cells.
    pub open spec fn wf(self) -> bool {
        &&& self.a.wf()
        &&& self.x.wf()
        &&& self.index.len() == 6
        &&& forall|n: int| 0 <= n < 6 ==> (#[trigger] self.index[n]).wf()
        &&& self.j.wf()
        &&& self.j.sign == crate::sign::Sign::Plus
        &&& self.memory.len() == MEMORY_SIZE
        &&& forall|c: int| 0 <= c < MEMORY_SIZE ==> (#[trigger] self.memory[c]).wf()
    }

    /// The machine as it is switched on: every register and every cell is
    /// plus zero, the overflow toggle is off and the comparison indicator
    /// says equal.
    pub open spec fn initial() -> MixView {
        MixView {
            a: WordView::zero(),
            x: WordView::zero(),
            index: Seq::new(6, |n: int| ShortView::zero()),
            j: ShortView::zero(),
            overflow: Toggle::Off,
            comparison_indicator: Comparison::Equal,
            memory: Seq::new(MEMORY_SIZE as nat, |c: int| WordView::zero()),
        }
    }

    /// The word that an instruction fetches: the field that it names of the
    /// cell that it names, right-justified.
    pub open spec fn loaded(self, ins: InstructionView) -> WordView {
        self.memory[ins.cell() as int].slice(ins.field())
    }

    /// The machine after `word` has been stored as an instruction says:
    /// the field that it names, of the cell that it names, is overwritten
    /// from the right end of `word`. Nothing else changes.
    pub open spec fn stored(self, word: WordView, ins: InstructionView) -> MixView {
        MixView {
            memory: self.memory.update(
                ins.cell() as int,
                self.memory[ins.cell() as int].merge(word, ins.field()),
            ),
            ..self
        }
    }

    /// The word that a store takes from its source.
    pub open spec fn source_word(self, source: StoreSource) -> WordView {
        match source {
            StoreSource::A => self.a,
            StoreSource::X => self.x,
            StoreSource::I(n) => self.index[n.position()].widen(),
            StoreSource::J => self.j.widen(),
            StoreSource::Zero => WordView::zero(),
        }
    }

    /// The machine after `word` has been put into the register `target`. An
    /// index register keeps the sign and the two least significant bytes.
    pub open spec fn with_register(self, target: LoadTarget, word: WordView) -> MixView {
        match target {
            LoadTarget::A => MixView { a: word, ..self },
            LoadTarget::X => MixView { x: word, ..self },
            LoadTarget::I(n) => MixView {
                index: self.index.update(n.position(), ShortView::narrow(word)),
                ..self
            },
        }
    }

    /// The machine after one instruction.
    ///
    /// A load fetches a field of a cell, negates what it fetched if the
    /// operation says so, and puts it into its register. A store merges the
    /// word of its source into a field of a cell. An addition fetches a
    /// field of a cell, adds it to the accumulator and sets the overflow
    /// toggle by whether the sum overflowed.
    pub open spec fn step(self, ins: InstructionView) -> MixView {
        match ins.operation.kind() {
            OperationKind::Load { target, negated } => self.with_register(
                target,
                if negated {
                    self.loaded(ins).negate()
                } else {
                    self.loaded(ins)
                },
            ),
            OperationKind::Store { source } => self.stored(self.source_word(source), ins),
            OperationKind::Add => MixView {
                a: self.a.add(self.loaded(ins)).0,
                overflow: Toggle::of(self.a.add(self.loaded(ins)).1),
                ..self
            },
        }
    }
}

/// The machine: accumulator, extension register, six index registers,
/// jump register, overflow toggle, comparison indicator and memory.
pub struct Mix {
    pub a: Word,
    pub x: Word,
    pub i1: Index,
    pub i2: Index,
    pub i3: Index,
    pub i4: Index,
    pub i5: Index,
    pub i6: Index,
    pub j: Jump,
    pub overflow: Toggle,
    pub comparison_indicator: Comparison,
    pub memory: [Word; 4000],
}

impl View for Mix {
    type V = MixView;

    open spec fn view(&self) -> MixView {
        MixView {
            a: self.a@,
            x: self.x@,
            index: seq![self.i1@, self.i2@, self.i3@, self.i4@, self.i5@, self.i6@],
            j: self.j@,
            overflow: self.overflow,
            comparison_indicator: self.comparison_indicator,
            memory: Seq::new(MEMORY_SIZE as nat, |c: int| self.memory[c]@),
        }
    }
}

/// A memory in which every cell is plus zero.
fn cleared_memory() -> (cells: [Word; 4000])
    ensures
        forall|c: int| 0 <= c < 4000 ==> (#[trigger] cells[c])@ == WordView::zero(),
{
    let zero = Word::default();
    let filled = [zero; 4000];
    proof {
        let model = vstd::array::spec_array_fill_for_copy_type::<Word, 4000>(zero);
        assert(filled == model);
        assert forall|c: int| 0 <= c < 4000 implies (#[trigger] filled[c])@
            == WordView::zero() by {
            assert(model@[c] == zero);
        }
    }
    filled
}

impl Default for Mix {
    /// The machine as it is switched on.
    fn default() -> (r: Mix)
        ensures
            r@ == MixView::initial(),
            forall|c: int| 0 <= c < MEMORY_SIZE ==> (#[trigger] r.memory[c])@ == WordView::zero(),
    {
        Mix::switched_on()
    }
}

impl Mix {
    /// The machine with every register and every cell at plus zero, the
    /// overflow toggle off and the comparison indicator at equal.
    fn switched_on() -> (r: Mix)
        ensures
            r@ == MixView::initial(),
            forall|c: int| 0 <= c < MEMORY_SIZE ==> (#[trigger] r.memory[c])@ == WordView::zero(),
    {
        let zero = Word::default();
        let machine = Mix {
            a: zero,
            x: zero,
            i1: Index::default(),
            i2: Index::default(),
            i3: Index::default(),
            i4: Index::default(),
            i5: Index::default(),
            i6: Index::default(),
            j: Jump::default(),
            overflow: Toggle::default(),
            comparison_indicator: Comparison::default(),
            memory: cleared_memory(),
        };
        proof {
            assert(machine@.index =~= MixView::initial().index);
            assert(machine@.memory =~= MixView::initial().memory);
        }
        machine
    }

    /// The word in the cell that `address` names.
    pub fn contents(&self, address: &Address) -> (w: Word)
        requires
            address@.magnitude() < MEMORY_SIZE,
        ensures
            w == self.memory[address@.magnitude() as int],
            w@ == self@.memory[address@.magnitude() as int],
    {
        let i: usize = address.cell();
        self.memory[i]
    }

    /// Puts `word` into the cell that `address` names and leaves every
    /// other cell and every register as it was.
    pub fn save_contents(&mut self, address: &Address, word: Word)
        requires
            address@.magnitude() < MEMORY_SIZE,
        ensures
            final(self).memory@ == old(self).memory@.update(address@.magnitude() as int, word),
            *final(self) == (Mix { memory: final(self).memory, ..*old(self) }),
            final(self)@ == (MixView {
                memory: old(self)@.memory.update(address@.magnitude() as int, word@),
                ..old(self)@
            }),
    {
        let i: usize = address.cell();
        self.memory[i] = word;
        proof {
            assert(self@.memory =~= old(self)@.memory.update(i as int, word@));
        }
    }

    /// The word in the cell that `address` names, if the memory has such a
    /// cell, else the failure that says it has not.
    pub fn try_contents(&self, address: &Address) -> (r: Result<Word, MixError>)
        ensures
            address@.magnitude() < MEMORY_SIZE ==> r == Ok::<Word, MixError>(
                self.memory[address@.magnitude() as int],
            ),
            address@.magnitude() >= MEMORY_SIZE ==> r == Err::<Word, MixError>(
                MixError::AddressOutOfRange { cell: address@.magnitude() as usize },
            ),
    {
        match address.checked_cell() {
            Ok(_) => Ok(self.contents(address)),
            Err(e) => Err(e),
        }
    }

    /// Puts `word` into the cell that `address` names, if the memory has
    /// such a cell; else leaves the machine as it is and gives the failure
    /// that says it has not.
    pub fn try_save_contents(&mut self, address: &Address, word: Word) -> (r: Result<
        (),
        MixError,
    >)
        ensures
            address@.magnitude() < MEMORY_SIZE ==> {
                &&& r == Ok::<(), MixError>(())
                &&& final(self).memory@ == old(self).memory@.update(
                    address@.magnitude() as int,
                    word,
                )
                &&& *final(self) == (Mix { memory: final(self).memory, ..*old(self) })
            },
            address@.magnitude() >= MEMORY_SIZE ==> {
                &&& r == Err::<(), MixError>(
                    MixError::AddressOutOfRange { cell: address@.magnitude() as usize },
                )
                &&& *final(self) == *old(self)
            },
    {
        match address.checked_cell() {
            Ok(_) => {
                self.save_contents(address, word);
                Ok(())
            },
            Err(e) => Err(e),
        }
    }

    /// Fetches the word that `instruction` names: the field of the cell,
    /// right-justified. The machine does not change.
    pub fn load(&self, instruction: Instruction) -> (w: Word)
        requires
            instruction@.valid(),
        ensures
            w@ == self@.loaded(instruction@),
    {
        let field = instruction.field();
        self.contents(&instruction.address).slice(field)
    }

    /// Stores `word` as `instruction` says: merges it into the field of the
    /// cell. Every other cell and every register stays as it was.
    pub fn store(&mut self, word: Word, instruction: Instruction)
        requires
            instruction@.valid(),
        ensures
            final(self)@ == old(self)@.stored(word@, instruction@),
            *final(self) == (Mix { memory: final(self).memory, ..*old(self) }),
    {
        let cell = self.contents(&instruction.address);
        let field = instruction.field();
        self.save_contents(&instruction.address, cell.merge(word, field));
    }

    /// Carries out one instruction and gives the machine that results.
    pub fn exec(self, instruction: Instruction) -> (next: Mix)
        requires
            instruction@.valid(),
        ensures
            next@ == self@.step(instruction@),
            !(instruction.operation.kind() is Store) ==> next.memory == self.memory,
            next.comparison_indicator == self.comparison_indicator,
    {
        let mut state = self;
        match instruction.operation {
            Operation::LDA => {
                state.a = state.load(instruction);
            },
            Operation::LDX => {
                state.x = state.load(instruction);
            },
            Operation::LD1 => {
                state.i1 = Index::from(state.load(instruction));
            },
            Operation::LD2 => {
                state.i2 = Index::from(state.load(instruction));
            },
            Operation::LD3 => {
                state.i3 = Index::from(state.load(instruction));
            },
            Operation::LD4 => {
                state.i4 = Index::from(state.load(instruction));
            },
            Operation::LD5 => {
                state.i5 = Index::from(state.load(instruction));
            },
            Operation::LD6 => {
                state.i6 = Index::from(state.load(instruction));
            },
            Operation::LDAN => {
                state.a = state.load(instruction).neg();
            },
            Operation::LDXN => {
                state.x = state.load(instruction).neg();
            },
            Operation::LD1N => {
                state.i1 = Index::from(state.load(instruction).neg());
            },
            Operation::LD2N => {
                state.i2 = Index::from(state.load(instruction).neg());
            },
            Operation::LD3N => {
                state.i3 = Index::from(state.load(instruction).neg());
            },
            Operation::LD4N => {
                state.i4 = Index::from(state.load(instruction).neg());
            },
            Operation::LD5N => {
                state.i5 = Index::from(state.load(instruction).neg());
            },
            Operation::LD6N => {
                state.i6 = Index::from(state.load(instruction).neg());
            },
            Operation::STA => {
                state.store(state.a, instruction);
            },
            Operation::STX => {
                state.store(state.x, instruction);
            },
            Operation::ST1 => {
                state.store(state.i1.into(), instruction);
            },
            Operation::ST2 => {
                state.store(state.i2.into(), instruction);
            },
            Operation::ST3 => {
                state.store(state.i3.into(), instruction);
            },
            Operation::ST4 => {
                state.store(state.i4.into(), instruction);
            },
            Operation::ST5 => {
                state.store(state.i5.into(), instruction);
            },
            Operation::ST6 => {
                state.store(state.i6.into(), instruction);
            },
            Operation::STJ => {
                state.store(state.j.into(), instruction);
            },
            Operation::STZ => {
                state.store(Word::default(), instruction);
            },
            Operation::ADD => {
                let (sum, overflows) = state.a.overflowing_add(state.load(instruction));
                state.a = sum;
                state.overflow = Toggle::from(overflows);
            },
        };
        proof {
            assert(state@.index =~= self@.step(instruction@).index);
            assert(state@.memory =~= self@.step(instruction@).memory);
        }
        state
    }

    /// Carries out one instruction if the cell that it names is in memory,
    /// and reports the address otherwise. The machine is given up either
    /// way; [`Instruction::check_address`] tells beforehand.
    pub fn try_exec(self, instruction: Instruction) -> (r: Result<Mix, MixError>)
        requires
            instruction@.field().valid(),
        ensures
            instruction@.cell() < MEMORY_SIZE ==> r is Ok && r->Ok_0@ == self@.step(instruction@),
            instruction@.cell() >= MEMORY_SIZE ==> r == Err::<Mix, MixError>(
                MixError::AddressOutOfRange { cell: instruction@.cell() as usize },
            ),
    {
        match instruction.check_address() {
            Ok(_) => Ok(self.exec(instruction)),
            Err(e) => Err(e),
        }
    }
}

/// A machine is determined by its view.
pub proof fn lemma_mix_view_injective(a: Mix, b: Mix)
    requires
        a@ == b@,
    ensures
        a == b,
{
    lemma_word_view_injective(a.a, b.a);
    lemma_word_view_injective(a.x, b.x);
    assert(a@.index[0] == b@.index[0]);
    assert(a@.index[1] == b@.index[1]);
    assert(a@.index[2] == b@.index[2]);
    assert(a@.index[3] == b@.index[3]);
    assert(a@.index[4] == b@.index[4]);
    assert(a@.index[5] == b@.index[5]);
    lemma_index_view_injective(a.i1, b.i1);
    lemma_index_view_injective(a.i2, b.i2);
    lemma_index_view_injective(a.i3, b.i3);
    lemma_index_view_injective(a.i4, b.i4);
    lemma_index_view_injective(a.i5, b.i5);
    lemma_index_view_injective(a.i6, b.i6);
    lemma_jump_view_injective(a.j, b.j);
    assert forall|c: int| 0 <= c < MEMORY_SIZE implies a.memory[c] == b.memory[c] by {
        assert(a@.memory[c] == a.memory[c]@);
        assert(b@.memory[c] == b.memory[c]@);
        lemma_word_view_injective(a.memory[c], b.memory[c]);
    }
    assert(a.memory =~= b.memory);
}

/// A step takes a well-formed machine to a well-formed machine.
pub proof fn lemma_step_keeps_wf(pre: MixView, ins: InstructionView)
    requires
        pre.wf(),
        ins.valid(),
    ensures
        pre.step(ins).wf(),
{
    let cell = ins.cell() as int;
    let field = ins.field();
    let fetched = pre.loaded(ins);
    assert(pre.memory[cell].wf());
    lemma_slice_merge_wf(pre.memory[cell], pre.memory[cell], field);
    lemma_slice_merge_wf(fetched, fetched, field);
    match ins.operation.kind() {
        OperationKind::Load { target, negated } => {
            let word = if negated {
                fetched.negate()
            } else {
                fetched
            };
            lemma_narrow_widen(ShortView::zero(), word);
            let post = pre.with_register(target, word);
            assert forall|n: int| 0 <= n < 6 implies (#[trigger] post.index[n]).wf() by {
                assert(pre.index[n].wf());
            }
        },
        OperationKind::Store { source } => {
            let word = pre.source_word(source);
            match source {
                StoreSource::I(n) => {
                    assert(pre.index[n.position()].wf());
                    lemma_narrow_widen(pre.index[n.position()], WordView::zero());
                },
                StoreSource::J => {
                    lemma_narrow_widen(pre.j, WordView::zero());
                },
                _ => {},
            }
            assert(word.wf());
            lemma_slice_merge_wf(pre.memory[cell], word, field);
            let post = pre.stored(word, ins);
            assert forall|c: int| 0 <= c < MEMORY_SIZE implies (#[trigger] post.memory[c]).wf() by {
                assert(pre.memory[c].wf());
            }
        },
        OperationKind::Add => {
            lemma_add_magnitude(pre.a, fetched);
        },
    }
}

/// Only a store writes to memory: after a load or an addition every cell is
/// as it was.
pub proof fn lemma_only_stores_write_memory(pre: MixView, ins: InstructionView)
    requires
        !(ins.operation.kind() is Store),
    ensures
        pre.step(ins).memory == pre.memory,
{
}

/// A store writes to one cell and to nothing else: every register, both
/// indicators and every other cell are as they were, and the cell holds the
/// merge of the source into what it held.
pub proof fn lemma_store_writes_one_cell(pre: MixView, ins: InstructionView)
    requires
        ins.operation.kind() is Store,
        ins.cell() < pre.memory.len(),
    ensures
        pre.step(ins).a == pre.a,
        pre.step(ins).x == pre.x,
        pre.step(ins).index == pre.index,
        pre.step(ins).j == pre.j,
        pre.step(ins).overflow == pre.overflow,
        pre.step(ins).comparison_indicator == pre.comparison_indicator,
        pre.step(ins).memory.len() == pre.memory.len(),
        forall|c: int|
            0 <= c < pre.memory.len() && c != ins.cell() ==> pre.step(ins).memory[c]
                == pre.memory[c],
        pre.step(ins).memory[ins.cell() as int] == pre.memory[ins.cell() as int].merge(
            pre.source_word(ins.operation.kind()->source),
            ins.field(),
        ),
{
}

/// A load changes the register that it names and nothing else.
pub proof fn lemma_load_writes_one_register(pre: MixView, ins: InstructionView)
    requires
        ins.operation.kind() is Load,
        pre.index.len() == 6,
    ensures
        pre.step(ins).memory == pre.memory,
        pre.step(ins).j == pre.j,
        pre.step(ins).overflow == pre.overflow,
        pre.step(ins).comparison_indicator == pre.comparison_indicator,
        !(ins.operation.kind()->target is A) ==> pre.step(ins).a == pre.a,
        !(ins.operation.kind()->target is X) ==> pre.step(ins).x == pre.x,
        forall|n: int|
            0 <= n < 6 && ins.operation.kind()->target != LoadTarget::I(index_number(n))
                ==> pre.step(ins).index[n] == pre.index[n],
{
    assert forall|n: int|
        0 <= n < 6 && ins.operation.kind()->target != LoadTarget::I(
            index_number(n),
        ) implies pre.step(ins).index[n] == pre.index[n] by {
        match ins.operation.kind()->target {
            LoadTarget::I(m) => {
                assert(index_number(m.position()) == m);
            },
            _ => {},
        }
    }
}

/// No operation of this machine touches the comparison indicator.
pub proof fn lemma_comparison_indicator_stays(pre: MixView, ins: InstructionView)
    ensures
        pre.step(ins).comparison_indicator == pre.comparison_indicator,
{
}

/// An addition changes the accumulator and the overflow toggle and nothing
/// else. Where the accumulator and the word that is fetched have different
/// signs, the overflow toggle is off afterwards; where their magnitudes are
/// equal as well, the accumulator holds a zero under the sign it had.
pub proof fn lemma_add_of_opposite_signs(pre: MixView, ins: InstructionView)
    requires
        ins.operation.kind() is Add,
        pre.a.sign != pre.loaded(ins).sign,
    ensures
        pre.step(ins).overflow == Toggle::Off,
        pre.step(ins).memory == pre.memory,
        pre.step(ins).x == pre.x,
        pre.step(ins).index == pre.index,
        pre.step(ins).j == pre.j,
        pre.a.magnitude() == pre.loaded(ins).magnitude() ==> pre.step(ins).a == (WordView {
            sign: pre.a.sign,
            digits: seq![0, 0, 0, 0, 0],
        }),
{
    lemma_add_opposite_signs(pre.a, pre.loaded(ins));
    if pre.a.magnitude() == pre.loaded(ins).magnitude() {
        lemma_add_cancels(pre.a, pre.loaded(ins));
    }
}

/// An instruction without a field specification of its own works on the
/// whole word, unless it stores the jump register: a load then fetches the
/// cell as it is, and a store replaces the cell by the word of its source.
pub proof fn lemma_whole_word_by_default(pre: MixView, ins: InstructionView)
    requires
        ins.modification is None,
        ins.operation != Operation::STJ,
        ins.cell() < pre.memory.len(),
        pre.memory[ins.cell() as int].digits.len() == 5,
    ensures
        pre.loaded(ins) == pre.memory[ins.cell() as int],
        forall|word: WordView|
            word.digits.len() == 5 ==> (#[trigger] pre.stored(word, ins)).memory[ins.cell() as int]
                == word,
{
    lemma_whole_field(pre.memory[ins.cell() as int], pre.memory[ins.cell() as int]);
    assert forall|word: WordView| word.digits.len() == 5 implies (#[trigger] pre.stored(
        word,
        ins,
    )).memory[ins.cell() as int] == word by {
        lemma_whole_field(pre.memory[ins.cell() as int], word);
    }
}

} // verus!
