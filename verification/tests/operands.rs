use reki::assembly::{parse_instruction, parse_operand, Operand};

#[test]
fn plain_operand_forms() {
    assert_eq!(parse_operand("vcc"), Operand::VCC);
    assert_eq!(parse_operand("s0"), Operand::SReg(0));
    assert_eq!(parse_operand("v12"), Operand::VReg(12));
    assert_eq!(parse_operand("s[2:3]"), Operand::SRegs(2, 3));
    assert_eq!(parse_operand("v[8:9]"), Operand::VRegs(8, 9));
    assert_eq!(parse_operand("0x1f"), Operand::Lit(31));
    assert_eq!(parse_operand("42"), Operand::Lit(42));
    assert_eq!(parse_operand("offset:16"), Operand::Offset(16));
    assert_eq!(parse_operand("offset:-16"), Operand::Offset(-16));
    assert_eq!(
        parse_operand("lgkmcnt(0)"),
        Operand::Keyseq("lgkmcnt(0)".to_string())
    );
}

#[test]
fn malformed_numbers_fall_back_to_keyseq() {
    assert_eq!(parse_operand("0xzz"), Operand::Keyseq("0xzz".to_string()));
    // Overflows a 32-bit literal.
    assert_eq!(
        parse_operand("0x100000000"),
        Operand::Keyseq("0x100000000".to_string())
    );
    assert_eq!(
        parse_operand("4294967296"),
        Operand::Keyseq("4294967296".to_string())
    );
    assert_eq!(parse_operand("s[2:3"), Operand::Keyseq("s[2:3".to_string()));
    assert_eq!(parse_operand(""), Operand::Keyseq(String::new()));
}

#[test]
fn hex_literal_boundaries() {
    assert_eq!(parse_operand("0xffffffff"), Operand::Lit(u32::MAX));
    assert_eq!(parse_operand("0xffff"), Operand::Lit(65535));
}

#[test]
fn instruction_lines_split_mnemonic_and_operands() {
    let (m, ops) = parse_instruction("s_load_dwordx2 s[0:1], s[4:5], 0x0");
    assert_eq!(m, "s_load_dwordx2");
    assert_eq!(
        ops,
        vec![Operand::SRegs(0, 1), Operand::SRegs(4, 5), Operand::Lit(0)]
    );

    let (m, ops) = parse_instruction("s_endpgm");
    assert_eq!(m, "s_endpgm");
    assert!(ops.is_empty());

    let (m, ops) = parse_instruction("global_load_dword v1, v[2:3], off, offset:-8");
    assert_eq!(m, "global_load_dword");
    assert_eq!(
        ops,
        vec![
            Operand::VReg(1),
            Operand::VRegs(2, 3),
            Operand::Keyseq("off".to_string()),
            Operand::Offset(-8),
        ]
    );
}
