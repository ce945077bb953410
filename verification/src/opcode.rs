use crate::digits::{append_decimal, append_hex, decimal_digits, hex_text, pad_to, padded};
use crate::operand::{Operand, OperandView};
use vstd::prelude::*;

verus! {

/// One instruction: the opcode byte, what the table says of it, the immediate
/// that follows it, and its index among the instructions decoded so far.
#[derive(Debug, PartialEq, Eq, Hash)]
pub struct Opcode {
    pub byte: u8,
    pub name: String,
    pub operand: Operand,
    pub stack_input_size: usize,
    pub position: usize,
}

/// Mathematical model of an [`Opcode`].
pub struct OpcodeView {
    pub byte: u8,
    pub name: Seq<char>,
    pub operand: OperandView,
    pub stack_input_size: nat,
    pub position: nat,
}

impl View for Opcode {
    type V = OpcodeView;

    open spec fn view(&self) -> OpcodeView {
        OpcodeView {
            byte: self.byte,
            name: self.name@,
            operand: self.operand@,
            stack_input_size: self.stack_input_size as nat,
            position: self.position as nat,
        }
    }
}

impl Clone for Opcode {
    fn clone(&self) -> (copy: Self)
        ensures
            copy@ == self@,
    {
        Opcode {
            byte: self.byte,
            name: self.name.clone(),
            operand: self.operand.clone(),
            stack_input_size: self.stack_input_size,
            position: self.position,
        }
    }
}

/// True for the bytes of the PUSH family, the only ones with an immediate.
pub open spec fn is_push(byte: u8) -> bool {
    0x5F <= byte <= 0x7F
}

/// True for the bytes of the DUP family.
pub open spec fn is_dup(byte: u8) -> bool {
    0x80 <= byte <= 0x8F
}

/// True for the bytes of the SWAP family.
pub open spec fn is_swap(byte: u8) -> bool {
    0x90 <= byte <= 0x9F
}

/// True for the bytes of the LOG family.
pub open spec fn is_log(byte: u8) -> bool {
    0xA0 <= byte <= 0xA4
}

/// Number of immediate bytes that follow the opcode byte.
pub open spec fn immediate_len(byte: u8) -> nat {
    if is_push(byte) {
        (byte - 0x5F) as nat
    } else {
        0
    }
}

/// Name of a byte outside the four numbered families; a byte that no
/// instruction is assigned to is named `NOP`.
pub open spec fn literal_mnemonic(byte: u8) -> Seq<char> {
    match byte {
        0x00 => "STOP"@,
        0x01 => "ADD"@,
        0x02 => "MUL"@,
        0x03 => "SUB"@,
        0x04 => "DIV"@,
        0x05 => "SDIV"@,
        0x06 => "MOD"@,
        0x07 => "SMOD"@,
        0x08 => "ADDMOD"@,
        0x09 => "MULMOD"@,
        0x0A => "EXP"@,
        0x0B => "SIGNEXTEND"@,
        0x10 => "LT"@,
        0x11 => "GT"@,
        0x12 => "SLT"@,
        0x13 => "SGT"@,
        0x14 => "EQ"@,
        0x15 => "ISZERO"@,
        0x16 => "AND"@,
        0x17 => "OR"@,
        0x18 => "XOR"@,
        0x19 => "NOT"@,
        0x1A => "BYTE"@,
        0x1B => "SHL"@,
        0x1C => "SHR"@,
        0x1D => "SAR"@,
        0x20 => "SHA3"@,
        0x30 => "ADDRESS"@,
        0x31 => "BALANCE"@,
        0x32 => "ORIGIN"@,
        0x33 => "CALLER"@,
        0x34 => "CALLVALUE"@,
        0x35 => "CALLDATALOAD"@,
        0x36 => "CALLDATASIZE"@,
        0x37 => "CALLDATACOPY"@,
        0x38 => "CODESIZE"@,
        0x39 => "CODECOPY"@,
        0x3A => "GASPRICE"@,
        0x3B => "EXTCODESIZE"@,
        0x3C => "EXTCODECOPY"@,
        0x3D => "RETURNDATASIZE"@,
        0x3E => "RETURNDATACOPY"@,
        0x3F => "EXTCODEHASH"@,
        0x40 => "BLOCKHASH"@,
        0x41 => "COINBASE"@,
        0x42 => "TIMESTAMP"@,
        0x43 => "NUMBER"@,
        0x44 => "PREVRANDAO"@,
        0x45 => "GASLIMIT"@,
        0x46 => "CHAINID"@,
        0x47 => "SELFBALANCE"@,
        0x48 => "BASEFEE"@,
        0x50 => "POP"@,
        0x51 => "MLOAD"@,
        0x52 => "MSTORE"@,
        0x53 => "MSTORE8"@,
        0x54 => "SLOAD"@,
        0x55 => "SSTORE"@,
        0x56 => "JUMP"@,
        0x57 => "JUMPI"@,
        0x58 => "PC"@,
        0x59 => "MSIZE"@,
        0x5A => "GAS"@,
        0x5B => "JUMPDEST"@,
        0xF0 => "CREATE"@,
        0xF1 => "CALL"@,
        0xF2 => "CALLCODE"@,
        0xF3 => "RETURN"@,
        0xF4 => "DELEGATECALL"@,
        0xF5 => "CREATE2"@,
        0xFA => "STATICCALL"@,
        0xFD => "REVERT"@,
        0xFE => "INVALID"@,
        0xFF => "SELFDESTRUCT"@,
        _ => "NOP"@,
    }
}

/// Stack slots read by a byte outside the four numbered families.
pub open spec fn literal_stack_inputs(byte: u8) -> nat {
    match byte {
        0x15 | 0x19 | 0x1A | 0x31 | 0x35 | 0x3B | 0x3F | 0x40 | 0x50 | 0x51 | 0x54 | 0x56 | 0xFF => 1,
        0x01 | 0x02 | 0x03 | 0x04 | 0x05 | 0x06 | 0x07 | 0x0A | 0x0B | 0x10 | 0x11 | 0x12 |
        0x13 | 0x14 | 0x16 | 0x17 | 0x18 | 0x1B | 0x1C | 0x1D | 0x20 | 0x52 | 0x53 | 0x55 |
        0x57 | 0xF3 | 0xFD => 2,
        0x08 | 0x09 | 0x37 | 0x39 | 0x3E | 0xF0 => 3,
        0x3C | 0xF5 => 4,
        0xF4 | 0xFA => 6,
        0xF1 | 0xF2 => 7,
        _ => 0,
    }
}

/// Mnemonic of every byte value.
pub open spec fn mnemonic(byte: u8) -> Seq<char> {
    if is_push(byte) {
        "PUSH"@ + decimal_digits((byte - 0x5F) as nat)
    } else if is_dup(byte) {
        "DUP"@ + decimal_digits((byte - 0x7F) as nat)
    } else if is_swap(byte) {
        "SWAP"@ + decimal_digits((byte - 0x8F) as nat)
    } else if is_log(byte) {
        "LOG"@ + decimal_digits((byte - 0xA0) as nat)
    } else {
        literal_mnemonic(byte)
    }
}

/// Number of stack slots that the instruction reads, for every byte value.
pub open spec fn stack_inputs(byte: u8) -> nat {
    if is_push(byte) {
        0
    } else if is_dup(byte) {
        (byte - 0x7F) as nat
    } else if is_swap(byte) {
        2
    } else if is_log(byte) {
        (byte - 0xA0 + 2) as nat
    } else {
        literal_stack_inputs(byte)
    }
}

/// What the table holds for `byte`, as the model of an instruction whose
/// immediate has not been read.
pub open spec fn descriptor(byte: u8) -> OpcodeView {
    OpcodeView {
        byte,
        name: mnemonic(byte),
        operand: OperandView { value: Seq::empty(), size: immediate_len(byte) },
        stack_input_size: stack_inputs(byte),
        position: 0,
    }
}

fn numbered_name(family: &str, n: usize) -> (name: String)
    ensures
        name@ == family@ + decimal_digits(n as nat),
{
    let mut name = String::from_str(family);
    append_decimal(&mut name, n);
    name
}

fn literal_entry(byte: u8) -> (entry: (&'static str, usize))
    ensures
        entry.0@ == literal_mnemonic(byte),
        entry.1 == literal_stack_inputs(byte),
{
    match byte {
        0x00 => ("STOP", 0),
        0x01 => ("ADD", 2),
        0x02 => ("MUL", 2),
        0x03 => ("SUB", 2),
        0x04 => ("DIV", 2),
        0x05 => ("SDIV", 2),
        0x06 => ("MOD", 2),
        0x07 => ("SMOD", 2),
        0x08 => ("ADDMOD", 3),
        0x09 => ("MULMOD", 3),
        0x0A => ("EXP", 2),
        0x0B => ("SIGNEXTEND", 2),
        0x10 => ("LT", 2),
        0x11 => ("GT", 2),
        0x12 => ("SLT", 2),
        0x13 => ("SGT", 2),
        0x14 => ("EQ", 2),
        0x15 => ("ISZERO", 1),
        0x16 => ("AND", 2),
        0x17 => ("OR", 2),
        0x18 => ("XOR", 2),
        0x19 => ("NOT", 1),
        0x1A => ("BYTE", 1),
        0x1B => ("SHL", 2),
        0x1C => ("SHR", 2),
        0x1D => ("SAR", 2),
        0x20 => ("SHA3", 2),
        0x30 => ("ADDRESS", 0),
        0x31 => ("BALANCE", 1),
        0x32 => ("ORIGIN", 0),
        0x33 => ("CALLER", 0),
        0x34 => ("CALLVALUE", 0),
        0x35 => ("CALLDATALOAD", 1),
        0x36 => ("CALLDATASIZE", 0),
        0x37 => ("CALLDATACOPY", 3),
        0x38 => ("CODESIZE", 0),
        0x39 => ("CODECOPY", 3),
        0x3A => ("GASPRICE", 0),
        0x3B => ("EXTCODESIZE", 1),
        0x3C => ("EXTCODECOPY", 4),
        0x3D => ("RETURNDATASIZE", 0),
        0x3E => ("RETURNDATACOPY", 3),
        0x3F => ("EXTCODEHASH", 1),
        0x40 => ("BLOCKHASH", 1),
        0x41 => ("COINBASE", 0),
        0x42 => ("TIMESTAMP", 0),
        0x43 => ("NUMBER", 0),
        0x44 => ("PREVRANDAO", 0),
        0x45 => ("GASLIMIT", 0),
        0x46 => ("CHAINID", 0),
        0x47 => ("SELFBALANCE", 0),
        0x48 => ("BASEFEE", 0),
        0x50 => ("POP", 1),
        0x51 => ("MLOAD", 1),
        0x52 => ("MSTORE", 2),
        0x53 => ("MSTORE8", 2),
        0x54 => ("SLOAD", 1),
        0x55 => ("SSTORE", 2),
        0x56 => ("JUMP", 1),
        0x57 => ("JUMPI", 2),
        0x58 => ("PC", 0),
        0x59 => ("MSIZE", 0),
        0x5A => ("GAS", 0),
        0x5B => ("JUMPDEST", 0),
        0xF0 => ("CREATE", 3),
        0xF1 => ("CALL", 7),
        0xF2 => ("CALLCODE", 7),
        0xF3 => ("RETURN", 2),
        0xF4 => ("DELEGATECALL", 6),
        0xF5 => ("CREATE2", 4),
        0xFA => ("STATICCALL", 6),
        0xFD => ("REVERT", 2),
        0xFE => ("INVALID", 0),
        0xFF => ("SELFDESTRUCT", 1),
        _ => ("NOP", 0),
    }
}

impl Opcode {
    /// The placeholder instruction for `byte`: named `NOP`, without immediate
    /// and without stack inputs.
    pub fn new(byte: u8) -> (opcode: Opcode)
        ensures
            opcode@ == (OpcodeView {
                byte,
                name: "NOP"@,
                operand: OperandView { value: Seq::empty(), size: 0 },
                stack_input_size: 0,
                position: 0,
            }),
    {
        Opcode {
            byte,
            name: String::from_str("NOP"),
            operand: Operand::new(0),
            stack_input_size: 0,
            position: 0,
        }
    }

    /// The instruction as a line of a listing: the mnemonic, padded to five
    /// characters, a space, and the immediate in hexadecimal.
    pub fn to_text(&self) -> (text: String)
        ensures
            text@ == padded(self.name@, 5) + seq![' '] + hex_text(self.operand.value@),
    {
        let mut text = self.name.clone();
        pad_to(&mut text, 5);
        proof {
            reveal_strlit(" ");
        }
        text.append(" ");
        append_hex(&mut text, &self.operand.value);
        text
    }

    /// Looks `byte` up in the opcode table. Every byte has an entry. The
    /// immediate is announced by its size and not read.
    pub fn from_byte(byte: u8) -> (opcode: Opcode)
        ensures
            opcode@ == descriptor(byte),
            is_push(byte) ==> opcode.operand.size == byte - 0x5F && opcode.name@ == "PUSH"@
                + decimal_digits((byte - 0x5F) as nat),
            is_dup(byte) ==> opcode.name@ == "DUP"@ + decimal_digits((byte - 0x7F) as nat),
            is_swap(byte) ==> opcode.name@ == "SWAP"@ + decimal_digits((byte - 0x8F) as nat),
            is_log(byte) ==> opcode.name@ == "LOG"@ + decimal_digits((byte - 0xA0) as nat),
            !is_push(byte) ==> opcode.operand.size == 0,
    {
        let mut opcode = Opcode::new(byte);
        if 0x5F <= byte && byte <= 0x7F {
            let n: usize = (byte - 0x5F) as usize;
            opcode.name = numbered_name("PUSH", n);
            opcode.operand = Operand::new(n);
        } else if 0x80 <= byte && byte <= 0x8F {
            let n: usize = (byte - 0x7F) as usize;
            opcode.name = numbered_name("DUP", n);
            opcode.stack_input_size = n;
        } else if 0x90 <= byte && byte <= 0x9F {
            opcode.name = numbered_name("SWAP", (byte - 0x8F) as usize);
            opcode.stack_input_size = 2;
        } else if 0xA0 <= byte && byte <= 0xA4 {
            let n: usize = (byte - 0xA0) as usize;
            opcode.name = numbered_name("LOG", n);
            opcode.stack_input_size = n + 2;
        } else {
            let entry = literal_entry(byte);
            opcode.name = String::from_str(entry.0);
            opcode.stack_input_size = entry.1;
        }
        opcode
    }
}

} // verus!
