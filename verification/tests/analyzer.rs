use reki::assembly::{Instruction, Operand};
use reki::control_flow::build_map;
use reki::error::AnalyzeError;
use reki::eval::{analyze, eval_pgm};
use reki::ops::eval_gcn_instruction;
use reki::state::{
    Binding, Condition, DataKind, ExecutionState, Expr, Program, Reg, Statement, Variable,
};

fn ins(m: &str, ops: Vec<Operand>) -> Instruction {
    (m.to_string(), ops)
}

/// A state whose SGPRs 0-1 hold the kernarg pointer, as after a
/// kernarg-enabled header.
fn kernarg_state() -> ExecutionState {
    ExecutionState {
        sgprs: vec![Reg(0, 0), Reg(0, 1)],
        vgprs: vec![Reg(1, 0)],
        bindings: vec![Binding::PtrKernarg, Binding::WorkitemIdX],
        variables: vec![],
        scc: None,
        vcc: None,
    }
}

#[test]
fn scalar_load_builds_a_dereference() {
    // s_load_dwordx2 s[4:5], s[0:1], 0x10 against the kernarg pointer:
    // one new quadword dereference at offset 16, spread over s4/s5.
    let mut st = kernarg_state();
    let instrs = vec![ins(
        "s_load_dwordx2",
        vec![
            Operand::SRegs(4, 5),
            Operand::SRegs(0, 1),
            Operand::Lit(0x10),
        ],
    )];
    let cf = build_map(&instrs).unwrap();
    let pgm = analyze(&mut st, &instrs, &cf).unwrap();
    assert!(pgm.is_empty());
    assert_eq!(st.bindings.len(), 3);
    assert_eq!(
        st.bindings[2],
        Binding::Deref { ptr: 0, offset: 16, kind: DataKind::Qword }
    );
    // Slots 2 and 3 were never written: they hold the sentinel.
    assert_eq!(st.sgprs[2], Reg(usize::MAX, 0));
    assert_eq!(st.sgprs[3], Reg(usize::MAX, 0));
    assert_eq!(st.sgprs[4], Reg(2, 0));
    assert_eq!(st.sgprs[5], Reg(2, 1));
}

#[test]
fn bad_pointer_pair_is_rejected() {
    // The address range names two different bindings: no dereference
    // can be built.
    let mut st = ExecutionState {
        sgprs: vec![Reg(0, 0), Reg(1, 0)],
        vgprs: vec![],
        bindings: vec![Binding::PtrKernarg, Binding::WorkgroupIdX],
        variables: vec![],
        scc: None,
        vcc: None,
    };
    let instrs = vec![ins(
        "s_load_dword",
        vec![Operand::SReg(4), Operand::SRegs(0, 1), Operand::Lit(0)],
    )];
    let cf = build_map(&instrs).unwrap();
    let r = analyze(&mut st, &instrs, &cf);
    assert_eq!(
        r,
        Err(AnalyzeError::UnsupportedMnemonic("s_load_dword".to_string()))
    );
}

#[test]
fn unknown_mnemonic_is_reported() {
    let mut st = kernarg_state();
    let instrs = vec![ins("flat_atomic_swap", vec![])];
    let cf = build_map(&instrs).unwrap();
    assert_eq!(
        analyze(&mut st, &instrs, &cf),
        Err(AnalyzeError::UnsupportedMnemonic("flat_atomic_swap".to_string()))
    );
}

#[test]
fn backward_unconditional_jump_is_fatal() {
    let instrs = vec![
        ins("s_endpgm", vec![]),
        // 0xffff sign-extends to -1: destination 1, i.e. itself.
        ins("s_branch", vec![Operand::Lit(0xfffe)]),
    ];
    let cf = build_map(&instrs).unwrap();
    let mut st = kernarg_state();
    assert_eq!(
        eval_pgm(&mut st, &instrs, &cf),
        Err(AnalyzeError::BackwardUnconditional)
    );
}

#[test]
fn sixty_four_bit_add_promotion() {
    // v0 := v2 + v3 then v1 := v4 +c v5 with (v2,v3) the low dwords
    // and (v4,v5) the high dwords of one quadword Q: the add binding
    // is rewritten in place to a quadword add and v0/v1 point at its
    // two dwords.
    let q = 1usize;
    let mut st = ExecutionState {
        sgprs: vec![],
        vgprs: vec![
            Reg(usize::MAX, 0),
            Reg(usize::MAX, 0),
            Reg(q, 0),
            Reg(q, 0),
            Reg(q, 1),
            Reg(q, 1),
        ],
        bindings: vec![
            Binding::PtrKernarg,
            Binding::Deref { ptr: 0, offset: 0, kind: DataKind::Qword },
        ],
        variables: vec![],
        scc: None,
        vcc: None,
    };
    let mut pgm: Program = Vec::new();
    eval_gcn_instruction(
        &mut st,
        &mut pgm,
        0,
        &"v_add_co_u32_e32".to_string(),
        &vec![
            Operand::VReg(0),
            Operand::VCC,
            Operand::VReg(2),
            Operand::VReg(3),
        ],
    )
    .unwrap();
    let add_idx = st.bindings.len() - 1;
    assert_eq!(
        st.bindings[add_idx],
        Binding::Computed { expr: Expr::Add(q, q), kind: DataKind::Dword }
    );
    assert_eq!(st.vgprs[0], Reg(add_idx, 0));

    eval_gcn_instruction(
        &mut st,
        &mut pgm,
        1,
        &"v_addc_co_u32_e32".to_string(),
        &vec![
            Operand::VReg(1),
            Operand::VCC,
            Operand::VReg(4),
            Operand::VReg(5),
            Operand::VCC,
        ],
    )
    .unwrap();
    assert_eq!(
        st.bindings[add_idx],
        Binding::Computed { expr: Expr::Add(q, q), kind: DataKind::Qword }
    );
    assert_eq!(st.vgprs[0], Reg(add_idx, 0));
    assert_eq!(st.vgprs[1], Reg(add_idx, 1));
    assert!(pgm.is_empty());
}

#[test]
fn addc_with_zero_is_a_no_op() {
    let mut st = kernarg_state();
    let before = st.bindings.clone();
    let mut pgm: Program = Vec::new();
    eval_gcn_instruction(
        &mut st,
        &mut pgm,
        0,
        &"v_addc_co_u32_e32".to_string(),
        &vec![
            Operand::VReg(1),
            Operand::VCC,
            Operand::Lit(0),
            Operand::VReg(0),
            Operand::VCC,
        ],
    )
    .unwrap();
    assert_eq!(st.bindings, before);
}

#[test]
fn addc_without_a_low_add_is_a_heuristic_failure() {
    let mut st = ExecutionState {
        sgprs: vec![],
        vgprs: vec![Reg(0, 0), Reg(0, 0), Reg(0, 0), Reg(0, 0)],
        bindings: vec![Binding::WorkitemIdX],
        variables: vec![],
        scc: None,
        vcc: None,
    };
    let mut pgm: Program = Vec::new();
    let r = eval_gcn_instruction(
        &mut st,
        &mut pgm,
        0,
        &"v_addc_co_u32_e32".to_string(),
        &vec![
            Operand::VReg(1),
            Operand::VCC,
            Operand::VReg(2),
            Operand::VReg(3),
            Operand::VCC,
        ],
    );
    assert_eq!(r, Err(AnalyzeError::HeuristicFailure));
}

#[test]
fn compare_and_forward_branch_emit_jump_and_label() {
    // s_cmp_lt_i32 s2, s3; s_cbranch_scc1 to the next instruction:
    // the program holds the conditional jump, then the label.
    let mut st = ExecutionState {
        sgprs: vec![Reg(0, 0), Reg(0, 1), Reg(1, 0), Reg(2, 0)],
        vgprs: vec![],
        bindings: vec![
            Binding::PtrKernarg,
            Binding::WorkgroupIdX,
            Binding::WorkitemIdX,
        ],
        variables: vec![],
        scc: None,
        vcc: None,
    };
    let instrs = vec![
        ins(
            "s_cmp_lt_i32",
            vec![Operand::SReg(2), Operand::SReg(3)],
        ),
        ins("s_cbranch_scc1", vec![Operand::Lit(0)]),
        ins("s_endpgm", vec![]),
    ];
    let cf = build_map(&instrs).unwrap();
    let pgm = analyze(&mut st, &instrs, &cf).unwrap();
    assert_eq!(st.scc, Some(Condition::Lt(1, 2)));
    assert_eq!(
        pgm,
        vec![
            (2, Statement::JumpIf { cond: Condition::Lt(1, 2), label_idx: 0 }),
            (3, Statement::Label { index: 0 }),
        ]
    );
}

#[test]
fn divergent_register_gets_a_variable() {
    // A conditional block overwrites v0; on join the analyzer must
    // introduce a dword variable assigned on both sides.
    let mut st = ExecutionState {
        sgprs: vec![Reg(0, 0), Reg(1, 0)],
        vgprs: vec![Reg(2, 0)],
        bindings: vec![
            Binding::WorkgroupIdX,
            Binding::WorkgroupIdY,
            Binding::WorkitemIdX,
        ],
        variables: vec![],
        scc: None,
        vcc: None,
    };
    let instrs = vec![
        ins("s_cmp_eq_u32", vec![Operand::SReg(0), Operand::SReg(1)]),
        ins("s_cbranch_scc1", vec![Operand::Lit(1)]),
        ins(
            "v_mov_b32_e32",
            vec![Operand::VReg(0), Operand::SReg(1)],
        ),
        ins("s_endpgm", vec![]),
    ];
    let cf = build_map(&instrs).unwrap();
    let pgm = analyze(&mut st, &instrs, &cf).unwrap();

    assert_eq!(st.variables, vec![Variable::Dword]);
    // The merged v0 points at the variable's binding.
    let var_binding = st.bindings.len() - 1;
    assert_eq!(st.bindings[var_binding], Binding::Variable { idx: 0 });
    assert_eq!(st.vgprs[0], Reg(var_binding, 0));

    // Declaration and skipped-side assignment, the jump, the
    // taken-side assignment, then the label.
    assert_eq!(
        pgm,
        vec![
            (2, Statement::VarDecl { var_idx: 0 }),
            (
                2,
                Statement::DwordVarAssignment {
                    var_idx: 0,
                    binding_idx: 2,
                    binding_dword: 0,
                    var_dword: 0,
                },
            ),
            (
                2,
                Statement::JumpIf { cond: Condition::Eql(0, 1), label_idx: 0 },
            ),
            (
                3,
                Statement::DwordVarAssignment {
                    var_idx: 0,
                    binding_idx: 1,
                    binding_dword: 0,
                    var_dword: 0,
                },
            ),
            (4, Statement::Label { index: 0 }),
        ]
    );
}

#[test]
fn store_requires_consecutive_address_dwords() {
    let mut st = ExecutionState {
        sgprs: vec![],
        vgprs: vec![Reg(1, 0), Reg(1, 1), Reg(2, 0)],
        bindings: vec![
            Binding::PtrKernarg,
            Binding::Deref { ptr: 0, offset: 0, kind: DataKind::Qword },
            Binding::WorkitemIdX,
        ],
        variables: vec![],
        scc: None,
        vcc: None,
    };
    let instrs = vec![ins(
        "global_store_dword",
        vec![
            Operand::VRegs(0, 1),
            Operand::VReg(2),
            Operand::Keyseq("off".to_string()),
        ],
    )];
    let cf = build_map(&instrs).unwrap();
    let pgm = analyze(&mut st, &instrs, &cf).unwrap();
    assert_eq!(
        pgm,
        vec![(1, Statement::Store { addr: 1, data: 2, kind: DataKind::Dword })]
    );
}
