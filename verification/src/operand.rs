use crate::digits::{append_hex, hex_text};
use vstd::prelude::*;

verus! {

/// The inline immediate of one instruction: the bytes that follow the opcode
/// byte, and how many of them the opcode announces.
#[derive(Debug, PartialEq, Eq, Hash)]
pub struct Operand {
    pub value: Vec<u8>,
    pub size: usize,
}

/// Mathematical model of an [`Operand`].
pub struct OperandView {
    pub value: Seq<u8>,
    pub size: nat,
}

impl View for Operand {
    type V = OperandView;

    open spec fn view(&self) -> OperandView {
        OperandView { value: self.value@, size: self.size as nat }
    }
}

impl Clone for Operand {
    fn clone(&self) -> (copy: Self)
        ensures
            copy@ == self@,
    {
        Operand { value: self.value.clone(), size: self.size }
    }
}

impl Operand {
    /// An operand of `size` announced bytes whose value is not read yet.
    pub fn new(size: usize) -> (operand: Self)
        ensures
            operand@ == (OperandView { value: Seq::empty(), size: size as nat }),
    {
        Self { value: Vec::new(), size }
    }

    /// The value in hexadecimal, two lower-case digits to a byte.
    pub fn to_hex(&self) -> (text: String)
        ensures
            text@ == hex_text(self.value@),
    {
        let mut text = String::new();
        append_hex(&mut text, &self.value);
        text
    }

    /// Replaces the value by the bytes `bytecode[start..end]`; the announced
    /// size is left alone.
    pub fn set_value(&mut self, bytecode: &Vec<u8>, start: usize, end: usize)
        requires
            start <= end <= bytecode@.len(),
        ensures
            final(self)@.value == bytecode@.subrange(start as int, end as int),
            final(self)@.size == old(self)@.size,
    {
        let mut value: Vec<u8> = Vec::new();
        let mut i: usize = start;
        while i < end
            invariant
                start <= i <= end <= bytecode@.len(),
                value@ == bytecode@.subrange(start as int, i as int),
            decreases end - i,
        {
            value.push(bytecode[i]);
            i += 1;
        }
        self.value = value;
    }
}

} // verus!
