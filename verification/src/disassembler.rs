use crate::lexer::{normalize, normalized, LexError};
use crate::opcode::{immediate_len, mnemonic, stack_inputs, Opcode, OpcodeView};
use crate::operand::OperandView;
use crate::stats::{observed, summary_of, Stats, StatsView, Summary};
use vstd::prelude::*;

verus! {

/// Why no instruction was decoded.
#[derive(Debug, Clone, Copy, PartialEq, Eq, Structural)]
pub enum DecodeError {
    /// No byte is left: the ordinary end of the bytecode.
    EndOfStream,
    /// The last opcode announces more immediate bytes than are left.
    TruncatedOperand,
}

impl DecodeError {
    /// A short description, for a caller that reports the error.
    pub fn message(&self) -> (text: &'static str)
        ensures
            text@ == match self {
                DecodeError::EndOfStream => "End of bytecode"@,
                DecodeError::TruncatedOperand => "Truncated operand"@,
            },
    {
        match self {
            DecodeError::EndOfStream => "End of bytecode",
            DecodeError::TruncatedOperand => "Truncated operand",
        }
    }
}

/// A cursor over bytecode that decodes one instruction at a time and keeps
/// the tallies of what it has decoded.
pub struct Disassembler {
    pub bytecode: Vec<u8>,
    pub stats: Stats,
    pub line_number: usize,
    index: usize,
}

/// Mathematical model of a [`Disassembler`].
pub struct DisassemblerView {
    pub bytecode: Seq<u8>,
    pub stats: StatsView,
    /// Number of instructions decoded so far.
    pub line_number: nat,
    /// Offset of the next opcode byte.
    pub offset: nat,
}

impl View for Disassembler {
    type V = DisassemblerView;

    closed spec fn view(&self) -> DisassemblerView {
        DisassemblerView {
            bytecode: self.bytecode@,
            stats: self.stats@,
            line_number: self.line_number as nat,
            offset: self.index as nat,
        }
    }
}

/// Bytes that the instruction with opcode `byte` takes: the opcode byte and
/// its immediate.
pub open spec fn instruction_len(byte: u8) -> nat {
    1 + immediate_len(byte)
}

/// The instruction whose opcode byte is at `offset`, as the `position`-th of
/// the run. Meant for an offset at which a whole instruction is left.
pub open spec fn decoded_at(bytecode: Seq<u8>, offset: nat, position: nat) -> OpcodeView {
    let byte = bytecode[offset as int];
    OpcodeView {
        byte,
        name: mnemonic(byte),
        operand: OperandView {
            value: bytecode.subrange(
                (offset + 1) as int,
                (offset + instruction_len(byte)) as int,
            ),
            size: immediate_len(byte),
        },
        stack_input_size: stack_inputs(byte),
        position,
    }
}

impl DisassemblerView {
    /// The model of a disassembler that has decoded nothing of `bytecode`.
    pub open spec fn start(bytecode: Seq<u8>) -> DisassemblerView {
        DisassemblerView { bytecode, stats: StatsView::empty(), line_number: 0, offset: 0 }
    }

    /// The cursor is inside the bytecode, it has passed at least one byte for
    /// each instruction it counted, and the tallies are consistent.
    pub open spec fn wf(self) -> bool {
        &&& self.line_number <= self.offset <= self.bytecode.len()
        &&& self.stats.wf()
    }

    /// What one decoding step yields: the next instruction, or the reason why
    /// there is none.
    pub open spec fn step(self) -> Result<OpcodeView, DecodeError> {
        if self.offset >= self.bytecode.len() {
            Err(DecodeError::EndOfStream)
        } else if self.offset + instruction_len(self.bytecode[self.offset as int])
            > self.bytecode.len() {
            Err(DecodeError::TruncatedOperand)
        } else {
            Ok(decoded_at(self.bytecode, self.offset, self.line_number))
        }
    }

    /// The state after the instruction `opcode` has been decoded: the cursor
    /// is past its bytes and the tallies have observed it.
    pub open spec fn after(self, opcode: OpcodeView) -> DisassemblerView {
        DisassemblerView {
            bytecode: self.bytecode,
            stats: observed(self.stats, opcode),
            line_number: self.line_number + 1,
            offset: self.offset + instruction_len(opcode.byte),
        }
    }

    /// The state in which decoding stops, when steps are taken until one fails.
    pub open spec fn run(self) -> DisassemblerView
        decreases self.bytecode.len() - self.offset,
    {
        match self.step() {
            Ok(opcode) => self.after(opcode).run(),
            Err(_) => self,
        }
    }

    /// The instructions decoded until a step fails, in order.
    pub open spec fn run_output(self) -> Seq<OpcodeView>
        decreases self.bytecode.len() - self.offset,
    {
        match self.step() {
            Ok(opcode) => seq![opcode] + self.after(opcode).run_output(),
            Err(_) => Seq::empty(),
        }
    }

    /// The reason for which decoding stops.
    pub open spec fn run_end(self) -> DecodeError
        decreases self.bytecode.len() - self.offset,
    {
        match self.step() {
            Ok(opcode) => self.after(opcode).run_end(),
            Err(e) => e,
        }
    }
}

/// The models of the instructions in `opcodes`, in order.
pub open spec fn opcode_views(opcodes: Seq<Opcode>) -> Seq<OpcodeView> {
    Seq::new(opcodes.len(), |i: int| opcodes[i]@)
}

/// Bytes that the instructions take together, each counted as its opcode
/// byte and its announced immediate.
pub open spec fn consumed_bytes(opcodes: Seq<OpcodeView>) -> nat
    decreases opcodes.len(),
{
    if opcodes.len() == 0 {
        0
    } else {
        1 + opcodes.first().operand.size + consumed_bytes(opcodes.drop_first())
    }
}

/// The bytes that write the instructions: for each its opcode byte, then its
/// immediate.
pub open spec fn encoded(opcodes: Seq<OpcodeView>) -> Seq<u8>
    decreases opcodes.len(),
{
    if opcodes.len() == 0 {
        Seq::empty()
    } else {
        seq![opcodes.first().byte] + opcodes.first().operand.value + encoded(opcodes.drop_first())
    }
}

/// A step keeps a consistent state consistent, and moves the cursor forward
/// by the length of the instruction it yields.
pub proof fn lemma_step_preserves_wf(d: DisassemblerView)
    requires
        d.wf(),
        d.step() is Ok,
    ensures
        d.after(d.step()->Ok_0).wf(),
        d.after(d.step()->Ok_0).offset == d.offset + 1 + d.step()->Ok_0.operand.size,
        d.step()->Ok_0.operand.value.len() == d.step()->Ok_0.operand.size,
{
    let opcode = d.step()->Ok_0;
    assert(d.stats.opcodes.push(opcode).drop_last() == d.stats.opcodes);
}

/// Bytecode that is one opcode without immediate decodes to exactly that
/// instruction, and the step after it finds the end of the bytecode.
pub proof fn lemma_single_opcode(byte: u8)
    requires
        immediate_len(byte) == 0,
    ensures
        DisassemblerView::start(seq![byte]).step() is Ok,
        DisassemblerView::start(seq![byte]).step()->Ok_0.byte == byte,
        DisassemblerView::start(seq![byte]).run_output().len() == 1,
        DisassemblerView::start(seq![byte]).run_end() == DecodeError::EndOfStream,
{
    let d = DisassemblerView::start(seq![byte]);
    let next = d.after(d.step()->Ok_0);
    assert(next.step() == Err::<OpcodeView, DecodeError>(DecodeError::EndOfStream));
    assert(next.run_output() == Seq::<OpcodeView>::empty());
    assert(next.run_end() == DecodeError::EndOfStream);
}

/// On bytecode that holds whole instructions only, the instructions decoded
/// from a cursor to the end take exactly the bytes that were left, so that
/// those decoded from the start take the whole bytecode.
pub proof fn lemma_round_trip(d: DisassemblerView)
    requires
        d.offset <= d.bytecode.len(),
        d.run_end() == DecodeError::EndOfStream,
    ensures
        consumed_bytes(d.run_output()) == d.bytecode.len() - d.offset,
        d.run().offset == d.bytecode.len(),
    decreases d.bytecode.len() - d.offset,
{
    match d.step() {
        Ok(opcode) => {
            let next = d.after(opcode);
            lemma_round_trip(next);
            let output = d.run_output();
            assert(output.first() == opcode);
            assert(output.drop_first() == next.run_output());
        },
        Err(_) => {},
    }
}

/// Decoding cuts the bytecode and loses nothing: the instructions decoded
/// from a cursor on, written out again, are the bytes from that cursor to
/// the place where decoding stops.
pub proof fn lemma_decoding_partitions_bytecode(d: DisassemblerView)
    requires
        d.offset <= d.bytecode.len(),
    ensures
        d.offset <= d.run().offset <= d.bytecode.len(),
        encoded(d.run_output()) == d.bytecode.subrange(d.offset as int, d.run().offset as int),
    decreases d.bytecode.len() - d.offset,
{
    match d.step() {
        Ok(opcode) => {
            let next = d.after(opcode);
            lemma_decoding_partitions_bytecode(next);
            let output = d.run_output();
            assert(output.first() == opcode);
            assert(output.drop_first() == next.run_output());
            assert(encoded(output) =~= d.bytecode.subrange(
                d.offset as int,
                d.run().offset as int,
            ));
        },
        Err(_) => {
            assert(encoded(d.run_output()) =~= d.bytecode.subrange(
                d.offset as int,
                d.offset as int,
            ));
        },
    }
}

/// The tallies observe what is decoded, in order: after a run they hold the
/// instructions they held before, followed by those of the run, and the
/// instruction counter has grown by their number.
pub proof fn lemma_run_observes_output(d: DisassemblerView)
    requires
        d.wf(),
    ensures
        d.run().wf(),
        d.run().bytecode == d.bytecode,
        d.run().stats.opcodes == d.stats.opcodes + d.run_output(),
        d.run().line_number == d.line_number + d.run_output().len(),
        d.run().step() is Err,
    decreases d.bytecode.len() - d.offset,
{
    match d.step() {
        Ok(opcode) => {
            let next = d.after(opcode);
            lemma_step_preserves_wf(d);
            lemma_run_observes_output(next);
            assert(d.stats.opcodes.push(opcode) + next.run_output() =~= d.stats.opcodes + (
            seq![opcode] + next.run_output()));
        },
        Err(_) => {
            assert(d.stats.opcodes + Seq::<OpcodeView>::empty() =~= d.stats.opcodes);
        },
    }
}

impl Disassembler {
    /// A disassembler at the start of `bytecode`.
    pub fn from_bytes(bytecode: Vec<u8>) -> (disassembler: Disassembler)
        ensures
            disassembler@ == DisassemblerView::start(bytecode@),
            disassembler@.wf(),
    {
        Disassembler { bytecode, stats: Stats::new(), line_number: 0, index: 0 }
    }

    /// Offset of the opcode byte that the next step reads.
    pub fn offset(&self) -> (offset: usize)
        ensures
            offset == self@.offset,
    {
        self.index
    }

    /// Reads `text` as bytecode and places a disassembler at its start. The
    /// metadata trailer is removed when `remove_metadata` asks for it.
    pub fn new(text: &str, remove_metadata: bool) -> (result: Result<Disassembler, LexError>)
        ensures
            match normalized(text@, remove_metadata) {
                Ok(bytes) => result is Ok && result->Ok_0@ == DisassemblerView::start(bytes)
                    && result->Ok_0@.wf(),
                Err(e) => result is Err && result->Err_0 == e,
            },
    {
        match normalize(text, remove_metadata) {
            Ok(bytecode) => Ok(Disassembler::from_bytes(bytecode)),
            Err(e) => Err(e),
        }
    }

    /// Decodes the instruction at the cursor, moves the cursor past it and
    /// lets the tallies observe it. Where no whole instruction is left,
    /// nothing changes and the error says whether the bytecode has ended or
    /// breaks off inside an immediate.
    pub fn next_opcode(&mut self) -> (result: Result<Opcode, DecodeError>)
        requires
            old(self)@.wf(),
        ensures
            final(self)@.wf(),
            match old(self)@.step() {
                Ok(opcode) => result is Ok && result->Ok_0@ == opcode && final(self)@ == old(
                    self,
                )@.after(opcode),
                Err(e) => result is Err && result->Err_0 == e && final(self)@ == old(self)@,
            },
    {
        let len = self.bytecode.len();
        if self.index >= len {
            return Err(DecodeError::EndOfStream);
        }
        let mut opcode = Opcode::from_byte(self.bytecode[self.index]);
        let size = opcode.operand.size;
        if size > len - self.index - 1 {
            return Err(DecodeError::TruncatedOperand);
        }
        let start = self.index + 1;
        if size > 0 {
            opcode.operand.set_value(&self.bytecode, start, start + size);
        }
        opcode.position = self.line_number;
        proof {
            lemma_step_preserves_wf(old(self)@);
            assert(opcode@.operand.value =~= old(self)@.step()->Ok_0.operand.value);
        }
        self.index = start + size;
        self.stats.add_opcode(opcode.clone());
        self.line_number = self.line_number + 1;
        Ok(opcode)
    }

    /// Decodes every instruction from the cursor on. The result is the list
    /// of them when the bytecode ends after a whole instruction, and the
    /// error when it breaks off inside an immediate; either way the cursor
    /// and the tallies stand where decoding stopped.
    pub fn disassemble(&mut self) -> (result: Result<Vec<Opcode>, DecodeError>)
        requires
            old(self)@.wf(),
        ensures
            final(self)@.wf(),
            final(self)@ == old(self)@.run(),
            match old(self)@.run_end() {
                DecodeError::EndOfStream => result is Ok && opcode_views(result->Ok_0@) == old(
                    self,
                )@.run_output(),
                DecodeError::TruncatedOperand => result is Err && result->Err_0
                    == DecodeError::TruncatedOperand,
            },
    {
        let mut output: Vec<Opcode> = Vec::new();
        loop
            invariant
                self@.wf(),
                self@.run() == old(self)@.run(),
                self@.run_end() == old(self)@.run_end(),
                opcode_views(output@) + self@.run_output() == old(self)@.run_output(),
            decreases self@.bytecode.len() - self@.offset,
        {
            let ghost decoded = opcode_views(output@);
            match self.next_opcode() {
                Ok(opcode) => {
                    output.push(opcode);
                    proof {
                        assert(opcode_views(output@) == decoded.push(opcode@));
                        assert(decoded.push(opcode@) + self@.run_output() == decoded + (
                        seq![opcode@] + self@.run_output()));
                    }
                },
                Err(DecodeError::EndOfStream) => {
                    assert(opcode_views(output@) + Seq::<OpcodeView>::empty() == opcode_views(
                        output@,
                    ));
                    return Ok(output);
                },
                Err(DecodeError::TruncatedOperand) => {
                    return Err(DecodeError::TruncatedOperand);
                },
            }
        }
    }

    /// The figures for what has been decoded so far, for the caller to print.
    pub fn print_stats(&self) -> (summary: Summary)
        ensures
            summary == summary_of(self@.stats),
    {
        self.stats.summary()
    }
}

} // verus!
