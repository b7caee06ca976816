use sb_assembler::assemble;
use sb_assembler::check::check;
use sb_assembler::codec::{decode_word, encode_word};
use sb_assembler::convert::{command_convert, convert, inst_convert};
use sb_assembler::dmem;
use sb_assembler::dmem::Command;
use sb_assembler::error::AsmError;
use sb_assembler::imem;
use sb_assembler::resolve::resolve;
use sb_assembler::resolved;

#[test]
fn data_bytes_one_per_line() {
    // byte1 operands render one byte per chunk of size one.
    let datas = dmem::parse("byte1 65, 66").unwrap();
    let out = command_convert(datas, 1).unwrap();
    assert_eq!(out, "41\n42");
}

#[test]
fn addi_encodes_exactly() {
    // addi r1 = r0, 1: opcode 00010, function 001, rd 00001, rs1 000,
    // immediate 1 over 32 bits; six little-endian bytes, least first.
    let (data_img, inst_img) = assemble("===\naddi r1 = r0, 1", 1).unwrap();
    assert_eq!(data_img, "");
    assert_eq!(inst_img, "22\n01\n01\n00\n00\n00");
}

#[test]
fn backward_branch_displacement() {
    // @loop at index 0; the branch at index 2 (address 12) resolves to
    // displacement 0 - 12 = -12.
    let src = "@loop\naddi r1 = r0, 1\naddi r2 = r0, 2\nbeq r0, (r0, r0) -> @loop";
    let insts = imem::parse(src).unwrap();
    let datas = Vec::new();
    let rinsts = resolve(&datas, insts).unwrap();
    assert_eq!(rinsts[2], resolved::Inst::Beq { rd: 0, rs1: 0, rs2: 0, imm: -12 });
}

#[test]
fn string_bytes_with_terminator() {
    // string "AB" emits 0x41, 0x42 and one zero byte.
    let datas = dmem::parse("string \"AB\"").unwrap();
    let out = command_convert(datas, 1).unwrap();
    assert_eq!(out, "41\n42\n00");
}

#[test]
fn undeclared_label_is_rejected() {
    let r = assemble("===\naddi r1 = r0, $nope", 1);
    assert!(matches!(r, Err(AsmError::UnknownLabel(ref s)) if s.as_str() == "nope"));
}

#[test]
fn undeclared_instruction_label_is_rejected() {
    let r = assemble("===\nbeq r0, (r0, r0) -> @nowhere", 1);
    assert!(matches!(r, Err(AsmError::UnknownLabel(ref s)) if s.as_str() == "nowhere"));
}

#[test]
fn assembling_twice_is_deterministic() {
    let src = "$greet\nstring \"hi\"\nbyte2 0x1234\n===\n@top\naddi r1 = r0, $greet\nbeq r0, (r1, r2) -> @top";
    let a = assemble(src, 4).unwrap();
    let b = assemble(src, 4).unwrap();
    assert_eq!(a, b);
}

#[test]
fn word_round_trip_every_mnemonic() {
    let cases = vec![
        resolved::Inst::Add { rd: 1, rs1: 2, rs2: 3 },
        resolved::Inst::Sub { rd: 31, rs1: 30, rs2: 29 },
        resolved::Inst::And { rd: 4, rs1: 5, rs2: 6 },
        resolved::Inst::Or { rd: 7, rs1: 8, rs2: 9 },
        resolved::Inst::Xor { rd: 10, rs1: 11, rs2: 12 },
        resolved::Inst::Srl { rd: 13, rs1: 14, rs2: 15 },
        resolved::Inst::Sra { rd: 16, rs1: 17, rs2: 18 },
        resolved::Inst::Sll { rd: 19, rs1: 20, rs2: 21 },
        resolved::Inst::Addi { rd: 1, rs1: 2, imm: 0xdeadbeef },
        resolved::Inst::Subi { rd: 3, rs1: 4, imm: 1 },
        resolved::Inst::Andi { rd: 5, rs1: 6, imm: 0xffffffff },
        resolved::Inst::Ori { rd: 7, rs1: 0, imm: 0 },
        resolved::Inst::Xori { rd: 8, rs1: 1, imm: 12345 },
        resolved::Inst::Srli { rd: 9, rs1: 2, imm: 31 },
        resolved::Inst::Srai { rd: 10, rs1: 3, imm: 7 },
        resolved::Inst::Slli { rd: 11, rs1: 4, imm: 2 },
        resolved::Inst::Beq { rd: 0, rs1: 1, rs2: 2, imm: -12 },
        resolved::Inst::Bne { rd: 3, rs1: 4, rs2: 5, imm: 16777215 },
        resolved::Inst::Blt { rd: 6, rs1: 7, rs2: 8, imm: -16777216 },
        resolved::Inst::Ble { rd: 9, rs1: 10, rs2: 11, imm: 0 },
        resolved::Inst::Jal { rd: 1, rs1: 2, imm: -6 },
        resolved::Inst::Lw { rd: 3, rs1: 4, imm: 100 },
        resolved::Inst::Lh { rd: 5, rs1: 6, imm: -100 },
        resolved::Inst::Lb { rd: 7, rs1: 7, imm: 0 },
        resolved::Inst::Lhu { rd: 8, rs1: 0, imm: 2147483647 },
        resolved::Inst::Lbu { rd: 9, rs1: 1, imm: -2147483648 },
        resolved::Inst::In { rd: 10, rs1: 2, imm: 4 },
        resolved::Inst::Sw { rs1: 3, rs2: 11, imm: 8 },
        resolved::Inst::Sh { rs1: 4, rs2: 12, imm: -8 },
        resolved::Inst::Sb { rs1: 5, rs2: 13, imm: 1 },
        resolved::Inst::Out { rs1: 6, rs2: 14, imm: 4 },
        resolved::Inst::Isb { rs1: 7, rs2: 15, imm: 2 },
    ];
    for inst in cases {
        let w = encode_word(&inst);
        assert!(w < (1u64 << 48));
        assert_eq!(decode_word(w), Some(inst));
    }
}

#[test]
fn data_label_in_branch_is_invalid_usage() {
    let src = "$d\nbyte1 1\n===\nbeq r0, (r0, r0) -> $d";
    let r = assemble(src, 1);
    assert!(matches!(r, Err(AsmError::InvalidLabelUsage(ref s)) if s.as_str() == "d"));
}

#[test]
fn register_eight_in_three_bit_slot_is_rejected() {
    // rs1 of the I format is a 3-bit slot: index 8 is out of range.
    let r = assemble("===\naddi r1 = r8, 1", 1);
    assert!(matches!(r, Err(AsmError::RegisterRange(ref s)) if s.as_str() == "addi"));
}

#[test]
fn register_thirty_two_in_five_bit_slot_is_rejected() {
    // rd is a 5-bit slot: index 32 is out of range.
    let r = assemble("===\nadd r32 = r0, r1", 1);
    assert!(matches!(r, Err(AsmError::RegisterRange(ref s)) if s.as_str() == "add"));
}

#[test]
fn branch_displacement_out_of_range_is_rejected() {
    // 2^24 exceeds the signed 25-bit displacement interval.
    let r = assemble("===\nbeq r0, (r0, r0) -> 16777216", 1);
    assert!(matches!(r, Err(AsmError::ImmediateRange(ref s)) if s.as_str() == "beq"));
    // -2^24 is the lower bound and still fits.
    assert!(assemble("===\nbeq r0, (r0, r0) -> -16777216", 1).is_ok());
}

#[test]
fn alu_immediate_out_of_range_is_rejected() {
    // ALU immediates must fit an unsigned 32-bit value.
    let r = assemble("===\naddi r1 = r0, -1", 1);
    assert!(matches!(r, Err(AsmError::ImmediateRange(ref s)) if s.as_str() == "addi"));
    let r = assemble("===\naddi r1 = r0, 4294967296", 1);
    assert!(matches!(r, Err(AsmError::ImmediateRange(ref s)) if s.as_str() == "addi"));
}

#[test]
fn padding_fills_chunks_with_zeros() {
    // One byte at chunk size four pads with three zero bytes; the chunk
    // renders reversed, so the padding leads the line.
    let datas = dmem::parse("byte1 65").unwrap();
    let out = command_convert(datas, 4).unwrap();
    assert_eq!(out, "00000041");
}

#[test]
fn data_offsets_accumulate_by_byte_length() {
    // Offsets: a at 0, b after the two-byte directive, c after the
    // four-byte one.
    let src = "$a\nbyte2 5\n$b\nbyte4 7\n$c\nbyte1 1\n===\naddi r1 = r0, $a\naddi r2 = r0, $b\naddi r3 = r0, $c";
    let lines: Vec<&str> = src.split("===").collect();
    let datas = dmem::parse(lines[0]).unwrap();
    let insts = imem::parse(lines[1]).unwrap();
    check(&datas, &insts).unwrap();
    let rinsts = resolve(&datas, insts).unwrap();
    assert_eq!(rinsts[0], resolved::Inst::Addi { rd: 1, rs1: 0, imm: 0 });
    assert_eq!(rinsts[1], resolved::Inst::Addi { rd: 2, rs1: 0, imm: 2 });
    assert_eq!(rinsts[2], resolved::Inst::Addi { rd: 3, rs1: 0, imm: 6 });
}

#[test]
fn multi_operand_label_attaches_to_first() {
    let src = "$x\nbyte1 65, 66\n===\naddi r1 = r0, $x";
    let lines: Vec<&str> = src.split("===").collect();
    let datas = dmem::parse(lines[0]).unwrap();
    assert_eq!(datas.len(), 2);
    assert_eq!(datas[0].label.as_deref(), Some("x"));
    assert!(datas[1].label.is_none());
}

#[test]
fn numeric_literal_radixes() {
    let datas = dmem::parse("byte2 0x1234\nbyte1 0b101\nbyte1 -1").unwrap();
    let out = command_convert(datas, 1).unwrap();
    assert_eq!(out, "34\n12\n05\nFF");
}

#[test]
fn char_directive_emits_one_byte() {
    let datas = dmem::parse("char 'a'").unwrap();
    let out = command_convert(datas, 1).unwrap();
    assert_eq!(out, "61");
}

#[test]
fn byte_lengths_per_command() {
    assert_eq!(Command::Byte1(0).len(), 1);
    assert_eq!(Command::Byte2(0).len(), 2);
    assert_eq!(Command::Byte4(0).len(), 4);
    assert_eq!(Command::Byte6(0).len(), 6);
    assert_eq!(Command::Char('a').len(), 1);
    assert_eq!(Command::String(String::from("AB")).len(), 3);
}

#[test]
fn unknown_data_command_is_rejected() {
    let r = dmem::parse("bytez 1");
    assert!(matches!(r, Err(AsmError::UnknownDataCommand(ref s)) if s.as_str() == "bytez"));
}

#[test]
fn malformed_literal_is_syntax_error() {
    let r = dmem::parse("byte1 zz");
    assert!(matches!(r, Err(AsmError::Syntax(ref s)) if s.as_str() == "zz"));
}

#[test]
fn out_of_range_data_literal_is_syntax_error() {
    let r = dmem::parse("byte1 256");
    assert!(matches!(r, Err(AsmError::Syntax(_))));
}

#[test]
fn unknown_mnemonic_is_rejected() {
    let r = imem::parse("frob r1 = r0, 1");
    assert!(matches!(r, Err(AsmError::UnknownMnemonic(ref s)) if s.as_str() == "frob"));
}

#[test]
fn unsigiled_label_operand_is_syntax_error() {
    // Neither a number nor a sigiled label: a hard error, not a guess.
    let r = imem::parse("addi r1 = r0, loop");
    assert!(matches!(r, Err(AsmError::Syntax(_))));
}

#[test]
fn missing_separator_is_syntax_error() {
    let r = assemble("byte1 1", 1);
    assert!(matches!(r, Err(AsmError::Syntax(_))));
}

#[test]
fn empty_program_renders_empty_images() {
    let (d, i) = assemble("===", 1).unwrap();
    assert_eq!(d, "");
    assert_eq!(i, "");
}

#[test]
fn comments_and_blank_lines_are_ignored() {
    let src = "// data below\n\nbyte1 65 // the letter A\n===\n\n// nothing here\naddi r1 = r0, 1\n";
    let (d, i) = assemble(src, 1).unwrap();
    assert_eq!(d, "41");
    assert_eq!(i, "22\n01\n01\n00\n00\n00");
}

#[test]
fn all_instruction_forms_parse_and_encode() {
    let src = "===\nadd r1 = r2, r3\naddi r1 = r0, 7\nlw r7 = r0[4]\nsw r0[4] = r7\nin r2 = r1[0]\nout r0[4] = r1\nisb r0[1] = r2\njal r1, r0[0]\nble r0, (r1, r2) -> 6";
    let (_, img) = assemble(src, 6).unwrap();
    // Nine instructions, one six-byte chunk each.
    assert_eq!(img.lines().count(), 9);
}

#[test]
fn convert_returns_both_images() {
    let datas = dmem::parse("byte1 1").unwrap();
    let insts = imem::parse("addi r1 = r0, 1").unwrap();
    let rinsts = resolve(&datas, insts).unwrap();
    let (d, i) = convert(datas, rinsts, 2).unwrap();
    assert_eq!(d, "0001");
    assert_eq!(i, "0122\n0001\n0000");
}

#[test]
fn inst_convert_pads_to_chunk() {
    let insts = imem::parse("addi r1 = r0, 1").unwrap();
    let rinsts = resolve(&Vec::new(), insts).unwrap();
    let out = inst_convert(rinsts, 4).unwrap();
    // Six bytes pad to eight: two chunks of four, reversed per chunk.
    assert_eq!(out, "00010122\n00000000");
}

#[test]
fn wide_directives_emit_little_endian() {
    let datas = dmem::parse("byte4 0x12345678\nbyte6 0x123456789ABC").unwrap();
    let out = command_convert(datas, 1).unwrap();
    assert_eq!(out, "78\n56\n34\n12\nBC\n9A\n78\n56\n34\n12");
}

#[test]
fn negative_values_fold_to_twos_complement() {
    let datas = dmem::parse("byte2 -2\nbyte4 -1").unwrap();
    let out = command_convert(datas, 1).unwrap();
    assert_eq!(out, "FE\nFF\nFF\nFF\nFF\nFF");
}

#[test]
fn multibyte_text_encodes_as_utf8() {
    // One two-byte character, then the terminating zero byte.
    let datas = dmem::parse("string \"\u{e9}\"").unwrap();
    let out = command_convert(datas, 1).unwrap();
    assert_eq!(out, "C3\nA9\n00");
}

#[test]
fn jal_encodes_exactly() {
    let (_, img) = assemble("===\njal r1, r0[8]", 1).unwrap();
    assert_eq!(img, "83\n01\n08\n00\n00\n00");
}

#[test]
fn store_encodes_exactly() {
    // sw places rs2 in the five-bit register field and rs1 in the
    // three-bit one.
    let (_, img) = assemble("===\nsw r0[4] = r7", 1).unwrap();
    assert_eq!(img, "05\n07\n04\n00\n00\n00");
}

#[test]
fn forward_branch_displacement() {
    // The target is declared after the branch: address 12 minus the
    // branch's own address 0.
    let src = "beq r0, (r0, r0) -> @end\naddi r1 = r0, 1\n@end\naddi r2 = r0, 2";
    let insts = imem::parse(src).unwrap();
    let rinsts = resolve(&Vec::new(), insts).unwrap();
    assert_eq!(rinsts[0], resolved::Inst::Beq { rd: 0, rs1: 0, rs2: 0, imm: 12 });
}

#[test]
fn repeated_label_keeps_last_declaration() {
    let datas = dmem::parse("$a\nbyte1 1\n$a\nbyte2 2").unwrap();
    let insts = imem::parse("addi r1 = r0, $a").unwrap();
    let rinsts = resolve(&datas, insts).unwrap();
    assert_eq!(rinsts[0], resolved::Inst::Addi { rd: 1, rs1: 0, imm: 1 });
}
