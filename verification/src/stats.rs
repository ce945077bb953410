use crate::opcode::{Opcode, OpcodeView};
use crate::operand::{Operand, OperandView};
use vstd::prelude::*;

verus! {

/// Running tallies over the instructions observed so far, in the order in
/// which they were observed.
pub struct Stats {
    /// Every observed instruction.
    pub opcodes: Vec<Opcode>,
    /// The operand of every observed instruction that carried one.
    pub operands: Vec<Operand>,
    /// Number of observed instructions.
    pub opcode_count: usize,
    /// Stack slots read by the observed instructions, added up. The type is
    /// wide enough for any number of instructions that a list can hold.
    pub operand_count: u128,
}

/// Mathematical model of [`Stats`].
pub struct StatsView {
    pub opcodes: Seq<OpcodeView>,
    pub operands: Seq<OperandView>,
    pub opcode_count: nat,
    pub operand_count: nat,
}

/// A quotient of two counts, kept exact.
#[derive(Debug, Clone, Copy, PartialEq, Eq)]
pub struct Ratio {
    pub numerator: u128,
    pub denominator: u128,
}

/// The software-science figures that whole numbers can hold.
#[derive(Debug, Clone, Copy, PartialEq, Eq)]
pub struct Summary {
    pub unique_opcodes: usize,
    pub unique_operands: usize,
    pub total_opcodes: usize,
    pub total_operands: usize,
    pub vocabulary: u128,
    pub length: u128,
    /// `None` where no operand was observed and the quotient is undefined.
    pub difficulty: Option<Ratio>,
}

/// True for an instruction that carries a non-empty immediate.
pub open spec fn carries_operand(opcode: OpcodeView) -> bool {
    opcode.operand.value.len() > 0
}

/// The immediates of the instructions that carry one, in order.
pub open spec fn carried_operands(opcodes: Seq<OpcodeView>) -> Seq<OperandView>
    decreases opcodes.len(),
{
    if opcodes.len() == 0 {
        Seq::empty()
    } else if carries_operand(opcodes.last()) {
        carried_operands(opcodes.drop_last()).push(opcodes.last().operand)
    } else {
        carried_operands(opcodes.drop_last())
    }
}

/// Sum of the stack slots that the instructions read.
pub open spec fn total_stack_inputs(opcodes: Seq<OpcodeView>) -> nat
    decreases opcodes.len(),
{
    if opcodes.len() == 0 {
        0
    } else {
        total_stack_inputs(opcodes.drop_last()) + opcodes.last().stack_input_size
    }
}

/// The mnemonics of the instructions, in order.
pub open spec fn mnemonics(opcodes: Seq<OpcodeView>) -> Seq<Seq<char>> {
    Seq::new(opcodes.len(), |i: int| opcodes[i].name)
}

/// The byte sequences of the operands, in order.
pub open spec fn operand_values(operands: Seq<OperandView>) -> Seq<Seq<u8>> {
    Seq::new(operands.len(), |i: int| operands[i].value)
}

/// Number of different items in `items`.
pub open spec fn distinct<T>(items: Seq<T>) -> nat {
    items.to_set().len()
}

/// The tallies after one more instruction.
pub open spec fn observed(stats: StatsView, opcode: OpcodeView) -> StatsView {
    StatsView {
        opcodes: stats.opcodes.push(opcode),
        operands: if carries_operand(opcode) {
            stats.operands.push(opcode.operand)
        } else {
            stats.operands
        },
        opcode_count: stats.opcode_count + 1,
        operand_count: stats.operand_count + opcode.stack_input_size,
    }
}

/// The figures that the tallies give.
pub open spec fn summary_of(stats: StatsView) -> Summary {
    let unique_opcodes = distinct(mnemonics(stats.opcodes));
    let unique_operands = distinct(operand_values(stats.operands));
    Summary {
        unique_opcodes: unique_opcodes as usize,
        unique_operands: unique_operands as usize,
        total_opcodes: stats.opcodes.len() as usize,
        total_operands: stats.operands.len() as usize,
        vocabulary: (unique_opcodes + unique_operands) as u128,
        length: (stats.opcodes.len() + stats.operands.len()) as u128,
        difficulty: if unique_operands > 0 {
            Some(
                Ratio {
                    numerator: (unique_opcodes * stats.operands.len()) as u128,
                    denominator: (2 * unique_operands) as u128,
                },
            )
        } else {
            None
        },
    }
}

impl StatsView {
    /// The tallies before anything is observed.
    pub open spec fn empty() -> StatsView {
        StatsView { opcodes: Seq::empty(), operands: Seq::empty(), opcode_count: 0, operand_count: 0 }
    }

    /// The counts and the operand list are those of the instruction list.
    pub open spec fn wf(self) -> bool {
        &&& self.opcode_count == self.opcodes.len()
        &&& self.operand_count == total_stack_inputs(self.opcodes)
        &&& self.operands == carried_operands(self.opcodes)
    }
}

impl View for Stats {
    type V = StatsView;

    open spec fn view(&self) -> StatsView {
        StatsView {
            opcodes: Seq::new(self.opcodes@.len(), |i: int| self.opcodes@[i]@),
            operands: Seq::new(self.operands@.len(), |i: int| self.operands@[i]@),
            opcode_count: self.opcode_count as nat,
            operand_count: self.operand_count as nat,
        }
    }
}

/// An empty list has no items to tell apart.
pub proof fn lemma_distinct_empty<T>(items: Seq<T>)
    requires
        items.len() == 0,
    ensures
        distinct(items) == 0,
{
    assert(items.to_set() =~= Set::<T>::empty());
}

/// A list has at most as many different items as items, and one more item
/// adds one to their number exactly when it has not occurred before.
pub proof fn lemma_distinct_step<T>(items: Seq<T>, i: int)
    requires
        0 <= i < items.len(),
    ensures
        distinct(items.take(i)) <= i,
        distinct(items.take(i + 1)) == distinct(items.take(i)) + if items.take(i).contains(
            items[i],
        ) {
            0nat
        } else {
            1nat
        },
    decreases i,
{
    let before = items.take(i);
    vstd::seq_lib::seq_to_set_is_finite(before);
    assert(items.take(i + 1) == before.push(items[i]));
    before.lemma_push_to_set_commute(items[i]);
    assert(before.to_set().contains(items[i]) <==> before.contains(items[i]));
    if i == 0 {
        lemma_distinct_empty(before);
    } else {
        lemma_distinct_step(items, i - 1);
    }
}

/// The stack slots of `opcodes` add up to at most `bound` for each of them.
pub proof fn lemma_total_stack_inputs_bound(opcodes: Seq<OpcodeView>, bound: nat)
    requires
        forall|i: int| 0 <= i < opcodes.len() ==> (#[trigger] opcodes[i]).stack_input_size <= bound,
    ensures
        total_stack_inputs(opcodes) <= opcodes.len() * bound,
    decreases opcodes.len(),
{
    if opcodes.len() > 0 {
        lemma_total_stack_inputs_bound(opcodes.drop_last(), bound);
        assert(opcodes.last().stack_input_size <= bound);
        assert((opcodes.len() - 1) * bound + bound == opcodes.len() * bound) by (nonlinear_arith);
    }
}

/// Where no instruction carries an operand, no distinct operand value is
/// counted and the difficulty is undefined.
pub proof fn lemma_no_operand_no_difficulty(stats: StatsView)
    requires
        stats.wf(),
        forall|i: int| 0 <= i < stats.opcodes.len() ==> !carries_operand(#[trigger] stats.opcodes[i]),
    ensures
        summary_of(stats).unique_operands == 0,
        summary_of(stats).total_operands == 0,
        summary_of(stats).difficulty is None,
{
    lemma_none_carried(stats.opcodes);
    lemma_distinct_empty(operand_values(stats.operands));
}

proof fn lemma_none_carried(opcodes: Seq<OpcodeView>)
    requires
        forall|i: int| 0 <= i < opcodes.len() ==> !carries_operand(#[trigger] opcodes[i]),
    ensures
        carried_operands(opcodes) == Seq::<OperandView>::empty(),
    decreases opcodes.len(),
{
    if opcodes.len() > 0 {
        lemma_none_carried(opcodes.drop_last());
    }
}

/// Two readings of the same tallies give the same figures.
pub proof fn lemma_summary_is_repeatable(stats: Stats, first: Summary, second: Summary)
    requires
        first == summary_of(stats@),
        second == summary_of(stats@),
    ensures
        first == second,
{
}

fn bytes_equal(left: &Vec<u8>, right: &Vec<u8>) -> (same: bool)
    ensures
        same == (left@ == right@),
{
    if left.len() != right.len() {
        return false;
    }
    let mut i: usize = 0;
    while i < left.len()
        invariant
            i <= left@.len() == right@.len(),
            left@.take(i as int) == right@.take(i as int),
        decreases left@.len() - i,
    {
        if left[i] != right[i] {
            return false;
        }
        assert(left@.take(i + 1) == left@.take(i as int).push(left@[i as int]));
        assert(right@.take(i + 1) == right@.take(i as int).push(right@[i as int]));
        i += 1;
    }
    assert(left@ == left@.take(left@.len() as int));
    assert(right@ == right@.take(right@.len() as int));
    true
}

impl Stats {
    /// Tallies with nothing observed.
    pub fn new() -> (stats: Self)
        ensures
            stats@ == StatsView::empty(),
            stats@.wf(),
    {
        let stats = Self {
            opcodes: Vec::new(),
            operands: Vec::new(),
            opcode_count: 0,
            operand_count: 0,
        };
        assert(stats@.opcodes =~= Seq::empty());
        assert(stats@.operands =~= Seq::empty());
        stats
    }

    /// Observes one instruction: it joins the instruction list, its operand
    /// joins the operand list if it is not empty, and both counts grow.
    pub fn add_opcode(&mut self, opcode: Opcode)
        requires
            old(self)@.wf(),
        ensures
            final(self)@ == observed(old(self)@, opcode@),
            final(self)@.wf(),
    {
        proof {
            lemma_total_stack_inputs_bound(self@.opcodes, usize::MAX as nat);
            assert(self@.opcodes.len() * (usize::MAX as nat) + usize::MAX <= u128::MAX)
                by (nonlinear_arith)
                requires
                    self@.opcodes.len() <= usize::MAX,
                    usize::MAX <= 0xffff_ffff_ffff_ffff,
            ;
            assert(self@.opcodes.push(opcode@).drop_last() == self@.opcodes);
        }
        self.operand_count = self.operand_count + opcode.stack_input_size as u128;
        if opcode.operand.value.len() > 0 {
            self.operands.push(opcode.operand.clone());
        }
        self.opcodes.push(opcode);
        self.opcode_count = self.opcodes.len();
        assert(self@.opcodes =~= old(self)@.opcodes.push(opcode@));
        assert(self@.operands =~= observed(old(self)@, opcode@).operands);
    }

    fn name_seen_before(&self, i: usize) -> (seen: bool)
        requires
            i < self.opcodes@.len(),
        ensures
            seen == mnemonics(self@.opcodes).take(i as int).contains(self@.opcodes[i as int].name),
    {
        let ghost names = mnemonics(self@.opcodes);
        let mut j: usize = 0;
        while j < i
            invariant
                j <= i < self.opcodes@.len(),
                names == mnemonics(self@.opcodes),
                forall|k: int| 0 <= k < j ==> names[k] != names[i as int],
            decreases i - j,
        {
            if self.opcodes[j].name == self.opcodes[i].name {
                assert(names.take(i as int)[j as int] == names[i as int]);
                return true;
            }
            j += 1;
        }
        false
    }

    fn value_seen_before(&self, i: usize) -> (seen: bool)
        requires
            i < self.operands@.len(),
        ensures
            seen == operand_values(self@.operands).take(i as int).contains(
                self@.operands[i as int].value,
            ),
    {
        let ghost values = operand_values(self@.operands);
        let mut j: usize = 0;
        while j < i
            invariant
                j <= i < self.operands@.len(),
                values == operand_values(self@.operands),
                forall|k: int| 0 <= k < j ==> values[k] != values[i as int],
            decreases i - j,
        {
            if bytes_equal(&self.operands[j].value, &self.operands[i].value) {
                assert(values.take(i as int)[j as int] == values[i as int]);
                return true;
            }
            j += 1;
        }
        false
    }

    /// Number of different mnemonics among the observed instructions.
    pub fn count_unique_opcodes(&self) -> (count: usize)
        ensures
            count == distinct(mnemonics(self@.opcodes)),
            count <= self@.opcodes.len(),
    {
        let ghost names = mnemonics(self@.opcodes);
        let n = self.opcodes.len();
        let mut count: usize = 0;
        let mut i: usize = 0;
        proof {
            lemma_distinct_empty(names.take(0));
        }
        while i < n
            invariant
                i <= n == self.opcodes@.len(),
                names == mnemonics(self@.opcodes),
                count == distinct(names.take(i as int)),
                count <= i,
            decreases n - i,
        {
            let seen = self.name_seen_before(i);
            proof {
                lemma_distinct_step(names, i as int);
            }
            if !seen {
                count += 1;
            }
            i += 1;
        }
        assert(names.take(n as int) == names);
        count
    }

    /// Number of different byte sequences among the observed operands.
    pub fn count_unique_operands(&self) -> (count: usize)
        ensures
            count == distinct(operand_values(self@.operands)),
            count <= self@.operands.len(),
    {
        let ghost values = operand_values(self@.operands);
        let n = self.operands.len();
        let mut count: usize = 0;
        let mut i: usize = 0;
        proof {
            lemma_distinct_empty(values.take(0));
        }
        while i < n
            invariant
                i <= n == self.operands@.len(),
                values == operand_values(self@.operands),
                count == distinct(values.take(i as int)),
                count <= i,
            decreases n - i,
        {
            let seen = self.value_seen_before(i);
            proof {
                lemma_distinct_step(values, i as int);
            }
            if !seen {
                count += 1;
            }
            i += 1;
        }
        assert(values.take(n as int) == values);
        count
    }

    /// The figures for what has been observed so far. The tallies are only
    /// read, so asking again gives the same figures.
    pub fn summary(&self) -> (summary: Summary)
        ensures
            summary == summary_of(self@),
    {
        let unique_opcodes = self.count_unique_opcodes();
        let unique_operands = self.count_unique_operands();
        let total_opcodes = self.opcodes.len();
        let total_operands = self.operands.len();
        let difficulty = if unique_operands > 0 {
            assert(unique_opcodes * total_operands <= u128::MAX) by (nonlinear_arith)
                requires
                    unique_opcodes <= 0xffff_ffff_ffff_ffff,
                    total_operands <= 0xffff_ffff_ffff_ffff,
            ;
            Some(
                Ratio {
                    numerator: unique_opcodes as u128 * total_operands as u128,
                    denominator: 2 * unique_operands as u128,
                },
            )
        } else {
            None
        };
        Summary {
            unique_opcodes,
            unique_operands,
            total_opcodes,
            total_operands,
            vocabulary: unique_opcodes as u128 + unique_operands as u128,
            length: total_opcodes as u128 + total_operands as u128,
            difficulty,
        }
    }
}

} // verus!
