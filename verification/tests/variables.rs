use reki::error::AnalyzeError;
use reki::eval::compare_regs_extract_vars;
use reki::lower::resolve_dereference;
use reki::state::{Binding, DataKind, Reg, Statement, Variable};

#[test]
fn equal_files_introduce_nothing() {
    let regs = vec![Reg(0, 0), Reg(1, 0)];
    let mut vars: Vec<Variable> = vec![];
    let mut binds = vec![Binding::WorkgroupIdX, Binding::WorkgroupIdY];
    let (merged, taken, skipped) =
        compare_regs_extract_vars(&regs, &regs.clone(), &mut vars, &mut binds).unwrap();
    assert_eq!(merged, regs);
    assert!(taken.is_empty());
    assert!(skipped.is_empty());
    assert!(vars.is_empty());
    assert_eq!(binds.len(), 2);
}

#[test]
fn qword_against_dword_is_a_partial_qword() {
    // The taken side wrote a two-dword run where the skipped side has
    // a single dword (and an untouched slot after it).
    let exec_side = vec![Reg(3, 0), Reg(3, 1)];
    let skip_side = vec![Reg(1, 0), Reg(usize::MAX, 0)];
    let mut vars: Vec<Variable> = vec![];
    let mut binds = vec![
        Binding::WorkgroupIdX,
        Binding::WorkitemIdX,
        Binding::PtrKernarg,
        Binding::Deref { ptr: 2, offset: 0, kind: DataKind::Qword },
    ];
    let (merged, taken, skipped) =
        compare_regs_extract_vars(&exec_side, &skip_side, &mut vars, &mut binds).unwrap();
    assert_eq!(vars, vec![Variable::PartialQword]);
    assert_eq!(binds[4], Binding::Variable { idx: 0 });
    assert_eq!(merged, vec![Reg(4, 0), Reg(4, 1)]);
    assert_eq!(
        taken,
        vec![Statement::QwordVarAssignment {
            var_idx: 0,
            binding_idx: 3,
            binding_dword: 0,
            var_dword: 0,
        }]
    );
    // The skipped side copies its dword runs separately.
    assert_eq!(
        skipped,
        vec![
            Statement::DwordVarAssignment {
                var_idx: 0,
                binding_idx: 1,
                binding_dword: 0,
                var_dword: 0,
            },
            Statement::DwordVarAssignment {
                var_idx: 0,
                binding_idx: usize::MAX,
                binding_dword: 0,
                var_dword: 1,
            },
        ]
    );
}

#[test]
fn dqword_against_qword_is_a_partial_dqword() {
    let exec_side = vec![Reg(1, 0), Reg(1, 1), Reg(1, 2), Reg(1, 3)];
    let skip_side = vec![Reg(2, 0), Reg(2, 1), Reg(usize::MAX, 0), Reg(usize::MAX, 0)];
    let mut vars: Vec<Variable> = vec![];
    let mut binds = vec![
        Binding::PtrKernarg,
        Binding::Deref { ptr: 0, offset: 0, kind: DataKind::DQword },
        Binding::Deref { ptr: 0, offset: 0, kind: DataKind::Qword },
    ];
    compare_regs_extract_vars(&exec_side, &skip_side, &mut vars, &mut binds).unwrap();
    assert_eq!(vars, vec![Variable::PartialDQword]);
}

#[test]
fn unsupported_run_width_is_a_size_mismatch() {
    // Three-dword runs on both sides fit no supported variable kind.
    let exec_side = vec![Reg(1, 0), Reg(1, 1), Reg(1, 2)];
    let skip_side = vec![Reg(2, 0), Reg(2, 1), Reg(2, 2)];
    let mut vars: Vec<Variable> = vec![];
    let mut binds = vec![
        Binding::PtrKernarg,
        Binding::Deref { ptr: 0, offset: 0, kind: DataKind::DQword },
        Binding::Deref { ptr: 0, offset: 16, kind: DataKind::DQword },
    ];
    let r = compare_regs_extract_vars(&exec_side, &skip_side, &mut vars, &mut binds);
    assert_eq!(r, Err(AnalyzeError::VariableSizeMismatch));
}

#[test]
fn non_kernarg_pointer_reports_unresolved() {
    let bindings = vec![
        Binding::PtrQueue,
        Binding::Deref { ptr: 0, offset: 0, kind: DataKind::Dword },
    ];
    let args = reki::kernel_args::KernelArgs::new(vec![]);
    assert_eq!(
        resolve_dereference(&bindings, &args, 0, 4),
        Err(AnalyzeError::UnresolvedPointer)
    );
}
