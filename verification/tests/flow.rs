use reki::assembly::{Instruction, Operand};
use reki::control_flow::{build_map, BranchKind};
use reki::error::AnalyzeError;

fn ins(m: &str, ops: Vec<Operand>) -> Instruction {
    (m.to_string(), ops)
}

#[test]
fn branches_get_labels() {
    let instrs = vec![
        ins("s_nop_or_anything", vec![]),
        ins("s_cbranch_scc1", vec![Operand::Lit(2)]),
        ins("v_mov_b32_e32", vec![Operand::VReg(0), Operand::VReg(1)]),
        ins("s_branch", vec![Operand::Lit(0)]),
        ins("s_endpgm", vec![]),
    ];
    let cf = build_map(&instrs).unwrap();
    // Branch at 1 jumps 2 forward of instruction 2: target 4.
    assert_eq!(cf.branch_at_instruction(1), Some((BranchKind::SCCSet, 0, 4)));
    // Branch at 3 jumps 0 forward of instruction 4: target 4.
    assert_eq!(cf.branch_at_instruction(3), Some((BranchKind::Uncond, 1, 4)));
    assert_eq!(cf.branch_at_instruction(0), None);
    assert_eq!(cf.branch_at_instruction(2), None);
    // Both labels land on 4; the lookup reports the first by index.
    assert_eq!(cf.label_at_instruction(4), Some(0));
    assert_eq!(cf.label_at_instruction(2), None);
}

#[test]
fn backward_destinations_sign_extend() {
    let instrs = vec![
        ins("s_endpgm", vec![]),
        ins("s_endpgm", vec![]),
        ins("s_cbranch_scc0", vec![Operand::Lit(0xffff)]),
        ins("s_endpgm", vec![]),
    ];
    let cf = build_map(&instrs).unwrap();
    // 0xffff sign-extends to -1: target is 2 + 1 - 1 = 2.
    assert_eq!(cf.branch_at_instruction(2), Some((BranchKind::SCCUnset, 0, 2)));
}

#[test]
fn branch_operand_must_be_an_immediate() {
    let instrs = vec![ins("s_branch", vec![Operand::SReg(0)])];
    assert!(matches!(
        build_map(&instrs),
        Err(AnalyzeError::UnknownBranchOperand)
    ));

    let instrs = vec![ins("s_branch", vec![])];
    assert!(matches!(
        build_map(&instrs),
        Err(AnalyzeError::UnknownBranchOperand)
    ));
}

#[test]
fn destination_before_entry_is_rejected() {
    // A backward offset that would land before instruction zero.
    let instrs = vec![ins("s_branch", vec![Operand::Lit(0xfff0)])];
    assert!(matches!(
        build_map(&instrs),
        Err(AnalyzeError::UnknownBranchOperand)
    ));
}
