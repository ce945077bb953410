use evm_disassembler::disassembler::{DecodeError, Disassembler};
use evm_disassembler::lexer::LexError;
use evm_disassembler::opcode::Opcode;

fn names(opcodes: &Vec<Opcode>) -> Vec<String> {
    opcodes.iter().map(|opcode| opcode.name.clone()).collect()
}

#[test]
fn single_add_then_end_of_stream() {
    let mut disassembler = Disassembler::from_bytes(vec![0x01]);
    let opcode = disassembler.next_opcode().unwrap();
    assert_eq!(opcode.name, "ADD");
    assert_eq!(opcode.byte, 0x01);
    assert_eq!(opcode.stack_input_size, 2);
    assert_eq!(opcode.position, 0);
    assert!(opcode.operand.value.is_empty());
    assert_eq!(disassembler.line_number, 1);
    assert_eq!(disassembler.next_opcode(), Err(DecodeError::EndOfStream));
    assert_eq!(disassembler.next_opcode(), Err(DecodeError::EndOfStream));
    assert_eq!(disassembler.line_number, 1);
}

#[test]
fn push1_carries_one_byte() {
    let mut disassembler = Disassembler::new("6001", false).ok().unwrap();
    let opcode = disassembler.next_opcode().unwrap();
    assert_eq!(opcode.name, "PUSH1");
    assert_eq!(opcode.operand.value, vec![0x01]);
    assert_eq!(opcode.operand.size, 1);
    assert_eq!(disassembler.next_opcode(), Err(DecodeError::EndOfStream));
}

#[test]
fn lone_push1_is_truncated() {
    let mut disassembler = Disassembler::new("60", false).ok().unwrap();
    assert_eq!(disassembler.next_opcode(), Err(DecodeError::TruncatedOperand));
    assert_eq!(disassembler.next_opcode(), Err(DecodeError::TruncatedOperand));
    assert_eq!(disassembler.line_number, 0);
    assert_eq!(disassembler.stats.opcode_count, 0);
    assert!(disassembler.stats.opcodes.is_empty());
}

#[test]
fn push_add_stop_sequence() {
    let mut disassembler = Disassembler::new("0x600160020100", false).ok().unwrap();
    assert_eq!(disassembler.bytecode, vec![0x60, 0x01, 0x60, 0x02, 0x01, 0x00]);
    let first = disassembler.next_opcode().unwrap();
    assert_eq!((first.name.as_str(), first.operand.value.clone()), ("PUSH1", vec![0x01]));
    let second = disassembler.next_opcode().unwrap();
    assert_eq!((second.name.as_str(), second.operand.value.clone()), ("PUSH1", vec![0x02]));
    let third = disassembler.next_opcode().unwrap();
    assert_eq!((third.name.as_str(), third.operand.value.clone()), ("ADD", vec![]));
    let fourth = disassembler.next_opcode().unwrap();
    assert_eq!((fourth.name.as_str(), fourth.operand.value.clone()), ("STOP", vec![]));
    assert_eq!(
        vec![first.position, second.position, third.position, fourth.position],
        vec![0, 1, 2, 3]
    );
    assert_eq!(disassembler.next_opcode(), Err(DecodeError::EndOfStream));
    assert_eq!(disassembler.line_number, 4);
}

#[test]
fn disassemble_returns_the_whole_sequence() {
    let mut disassembler = Disassembler::new("0x600160020100", false).ok().unwrap();
    let opcodes = disassembler.disassemble().unwrap();
    assert_eq!(names(&opcodes), vec!["PUSH1", "PUSH1", "ADD", "STOP"]);
    assert_eq!(disassembler.stats.opcodes, opcodes);
    assert_eq!(disassembler.disassemble(), Ok(vec![]));
}

#[test]
fn consumed_bytes_add_up_to_the_input() {
    let text = "0x5f6001617fff7f000102030405060708090a0b0c0d0e0f101112131415161718191a1b1c1d1e1f0c80a4ff";
    let mut disassembler = Disassembler::new(text, false).ok().unwrap();
    let total = disassembler.bytecode.len();
    let opcodes = disassembler.disassemble().unwrap();
    let consumed: usize = opcodes.iter().map(|opcode| 1 + opcode.operand.size).sum();
    assert_eq!(consumed, total);
    assert_eq!(total, (text.len() - 2) / 2);
    assert_eq!(
        names(&opcodes),
        vec!["PUSH0", "PUSH1", "PUSH2", "PUSH32", "NOP", "DUP1", "LOG4", "SELFDESTRUCT"]
    );
    for opcode in &opcodes {
        assert_eq!(opcode.operand.value.len(), opcode.operand.size);
    }
    assert_eq!(opcodes[3].operand.value, (0u8..32).collect::<Vec<u8>>());
}

#[test]
fn truncation_stops_the_run_where_it_occurs() {
    let mut disassembler = Disassembler::from_bytes(vec![0x01, 0x61, 0xaa]);
    assert_eq!(disassembler.disassemble(), Err(DecodeError::TruncatedOperand));
    assert_eq!(disassembler.line_number, 1);
    assert_eq!(names(&disassembler.stats.opcodes), vec!["ADD"]);
    assert_eq!(disassembler.next_opcode(), Err(DecodeError::TruncatedOperand));
}

#[test]
fn push32_needs_all_its_bytes() {
    let mut bytes: Vec<u8> = vec![0x7f];
    bytes.extend(std::iter::repeat(0xee).take(31));
    let mut short = Disassembler::from_bytes(bytes.clone());
    assert_eq!(short.next_opcode(), Err(DecodeError::TruncatedOperand));
    bytes.push(0xee);
    let mut exact = Disassembler::from_bytes(bytes);
    let opcode = exact.next_opcode().unwrap();
    assert_eq!(opcode.name, "PUSH32");
    assert_eq!(opcode.operand.value, vec![0xee; 32]);
    assert_eq!(exact.next_opcode(), Err(DecodeError::EndOfStream));
}

#[test]
fn operand_bytes_are_not_decoded_as_opcodes() {
    let mut disassembler = Disassembler::from_bytes(vec![0x60, 0x60, 0x01]);
    let opcodes = disassembler.disassemble().unwrap();
    assert_eq!(names(&opcodes), vec!["PUSH1", "ADD"]);
    assert_eq!(opcodes[0].operand.value, vec![0x60]);
}

#[test]
fn empty_bytecode_ends_at_once() {
    let mut disassembler = Disassembler::new("0x", false).ok().unwrap();
    assert_eq!(disassembler.next_opcode(), Err(DecodeError::EndOfStream));
    assert_eq!(disassembler.disassemble(), Ok(vec![]));
}

#[test]
fn new_reports_lexical_errors() {
    assert_eq!(Disassembler::new("0x600", false).err(), Some(LexError::MalformedInput));
    assert_eq!(Disassembler::new("60zz", false).err(), Some(LexError::MalformedInput));
    assert_eq!(Disassembler::new("0x600133", true).err(), Some(LexError::TruncatedMetadata));
}

#[test]
fn new_strips_metadata_on_request() {
    let mut disassembler = Disassembler::new("0x6001aabb0002", true).ok().unwrap();
    assert_eq!(disassembler.bytecode, vec![0x60, 0x01]);
    assert_eq!(names(&disassembler.disassemble().unwrap()), vec!["PUSH1"]);
    let mut whole = Disassembler::new("0x6001aabb0002", false).ok().unwrap();
    assert_eq!(
        names(&whole.disassemble().unwrap()),
        vec!["PUSH1", "NOP", "NOP", "STOP", "MUL"]
    );
}

#[test]
fn unassigned_bytes_do_not_stop_decoding() {
    let mut disassembler = Disassembler::from_bytes(vec![0x0c, 0x01, 0xef, 0x00]);
    assert_eq!(names(&disassembler.disassemble().unwrap()), vec!["NOP", "ADD", "NOP", "STOP"]);
}

#[test]
fn print_stats_reports_the_run_so_far() {
    let mut disassembler = Disassembler::new("0x600160020100", false).ok().unwrap();
    assert_eq!(disassembler.print_stats().length, 0);
    disassembler.next_opcode().unwrap();
    let partial = disassembler.print_stats();
    assert_eq!((partial.total_opcodes, partial.total_operands), (1, 1));
    disassembler.disassemble().unwrap();
    let summary = disassembler.print_stats();
    assert_eq!(summary, disassembler.stats.summary());
    assert_eq!(summary.unique_opcodes, 3);
    assert_eq!(summary.unique_operands, 2);
    assert_eq!(summary.vocabulary, 5);
    assert_eq!(summary.length, 6);
}

#[test]
fn decode_errors_describe_themselves() {
    assert_eq!(DecodeError::EndOfStream.message(), "End of bytecode");
    assert_eq!(DecodeError::TruncatedOperand.message(), "Truncated operand");
}

#[test]
fn every_lone_opcode_without_immediate_decodes_once() {
    for byte in 0u8..=255 {
        let mut disassembler = Disassembler::from_bytes(vec![byte]);
        if (0x60..=0x7f).contains(&byte) {
            assert_eq!(disassembler.next_opcode(), Err(DecodeError::TruncatedOperand));
        } else {
            assert_eq!(disassembler.next_opcode().unwrap().byte, byte);
            assert_eq!(disassembler.next_opcode(), Err(DecodeError::EndOfStream));
        }
    }
}
