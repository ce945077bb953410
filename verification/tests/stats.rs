use evm_disassembler::disassembler::Disassembler;
use evm_disassembler::opcode::Opcode;
use evm_disassembler::stats::{Ratio, Stats, Summary};

fn decoded(byte: u8, operand: Vec<u8>) -> Opcode {
    let mut opcode = Opcode::from_byte(byte);
    opcode.operand.value = operand;
    opcode
}

#[test]
fn new_stats_are_empty() {
    let stats = Stats::new();
    assert!(stats.opcodes.is_empty());
    assert!(stats.operands.is_empty());
    assert_eq!(stats.opcode_count, 0);
    assert_eq!(stats.operand_count, 0);
    assert_eq!(stats.count_unique_opcodes(), 0);
    assert_eq!(stats.count_unique_operands(), 0);
}

#[test]
fn empty_summary_is_all_zero_and_undefined() {
    let summary = Stats::new().summary();
    assert_eq!(
        summary,
        Summary {
            unique_opcodes: 0,
            unique_operands: 0,
            total_opcodes: 0,
            total_operands: 0,
            vocabulary: 0,
            length: 0,
            difficulty: None,
        }
    );
}

#[test]
fn add_opcode_updates_the_tallies() {
    let mut stats = Stats::new();
    stats.add_opcode(decoded(0x60, vec![0x01]));
    assert_eq!(stats.opcode_count, 1);
    assert_eq!(stats.operand_count, 0);
    assert_eq!(stats.opcodes.len(), 1);
    assert_eq!(stats.operands.len(), 1);
    assert_eq!(stats.operands[0].value, vec![0x01]);
    stats.add_opcode(decoded(0x01, vec![]));
    assert_eq!(stats.opcode_count, 2);
    assert_eq!(stats.operand_count, 2);
    assert_eq!(stats.opcodes.len(), 2);
    assert_eq!(stats.operands.len(), 1);
    stats.add_opcode(decoded(0xf1, vec![]));
    stats.add_opcode(decoded(0x8f, vec![]));
    assert_eq!(stats.opcode_count, 4);
    assert_eq!(stats.operand_count, 2 + 7 + 16);
    assert_eq!(stats.opcodes[3].name, "DUP16");
}

#[test]
fn push0_carries_no_operand() {
    let mut stats = Stats::new();
    stats.add_opcode(decoded(0x5f, vec![]));
    assert_eq!(stats.opcodes.len(), 1);
    assert!(stats.operands.is_empty());
    assert_eq!(stats.summary().difficulty, None);
}

#[test]
fn unique_counts_ignore_repetitions() {
    let mut stats = Stats::new();
    stats.add_opcode(decoded(0x60, vec![0x01]));
    stats.add_opcode(decoded(0x60, vec![0x02]));
    stats.add_opcode(decoded(0x60, vec![0x01]));
    stats.add_opcode(decoded(0x61, vec![0x00, 0x01]));
    stats.add_opcode(decoded(0x01, vec![]));
    stats.add_opcode(decoded(0x01, vec![]));
    stats.add_opcode(decoded(0x0c, vec![]));
    stats.add_opcode(decoded(0x0d, vec![]));
    assert_eq!(stats.count_unique_opcodes(), 4);
    assert_eq!(stats.count_unique_operands(), 3);
}

#[test]
fn operands_are_told_apart_by_bytes_and_length() {
    let mut stats = Stats::new();
    stats.add_opcode(decoded(0x61, vec![0x00, 0x01]));
    stats.add_opcode(decoded(0x60, vec![0x01]));
    stats.add_opcode(decoded(0x61, vec![0x01, 0x00]));
    stats.add_opcode(decoded(0x61, vec![0x00, 0x01]));
    assert_eq!(stats.count_unique_operands(), 3);
    assert_eq!(stats.count_unique_opcodes(), 2);
}

#[test]
fn summary_follows_the_formulas() {
    let mut disassembler = Disassembler::new("0x600160020100", false).ok().unwrap();
    disassembler.disassemble().unwrap();
    let summary = disassembler.stats.summary();
    assert_eq!(
        summary,
        Summary {
            unique_opcodes: 3,
            unique_operands: 2,
            total_opcodes: 4,
            total_operands: 2,
            vocabulary: 5,
            length: 6,
            difficulty: Some(Ratio { numerator: 6, denominator: 4 }),
        }
    );
    let difficulty = summary.difficulty.unwrap();
    let as_float = difficulty.numerator as f64 / difficulty.denominator as f64;
    assert_eq!(as_float, (3.0 / 2.0) * (2.0 / 2.0));
    let volume = summary.length as f64 * (summary.vocabulary as f64).log2();
    assert!((volume - 13.931568569324174).abs() < 1e-9);
}

#[test]
fn summary_is_the_same_when_asked_twice() {
    let mut disassembler = Disassembler::new("0x60016002017f", false).ok().unwrap();
    assert!(disassembler.disassemble().is_err());
    let first = disassembler.stats.summary();
    let second = disassembler.stats.summary();
    assert_eq!(first, second);
    assert_eq!(first, disassembler.print_stats());
    assert_eq!(first.total_opcodes, 3);
}

#[test]
fn distinct_mnemonics_without_operands_leave_difficulty_undefined() {
    let mut disassembler = Disassembler::from_bytes(vec![0x01, 0x02, 0x03, 0x00]);
    disassembler.disassemble().unwrap();
    let summary = disassembler.stats.summary();
    assert_eq!(summary.unique_opcodes, 4);
    assert_eq!(summary.unique_operands, 0);
    assert_eq!(summary.total_operands, 0);
    assert_eq!(summary.vocabulary, 4);
    assert_eq!(summary.length, 4);
    assert_eq!(summary.difficulty, None);
}

#[test]
fn tallies_match_what_the_disassembler_decoded() {
    let mut disassembler = Disassembler::new("0x6001600201808f00", false).ok().unwrap();
    let opcodes = disassembler.disassemble().unwrap();
    assert_eq!(disassembler.stats.opcode_count, opcodes.len());
    assert_eq!(disassembler.stats.opcode_count, 6);
    assert_eq!(disassembler.stats.operand_count, 0 + 0 + 2 + 1 + 16 + 0);
    assert_eq!(disassembler.stats.operands.len(), 2);
    assert_eq!(disassembler.stats.opcodes, opcodes);
}
