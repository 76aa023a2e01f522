use reki::error::AnalyzeError;
use reki::kernel_args::{KernelArg, KernelArgs};
use reki::lower::{build, BoundExpr, ProgramStatement};
use reki::state::{
    Binding, Condition, DataKind, ExecutionState, Expr, Program, Reg, Statement,
};

fn arg(name: &str, size: u32, offset: u32) -> KernelArg {
    KernelArg {
        name: name.to_string(),
        size,
        offset,
        typename: None,
        is_const: false,
    }
}

fn state(bindings: Vec<Binding>) -> ExecutionState {
    ExecutionState {
        sgprs: vec![],
        vgprs: vec![],
        bindings,
        variables: vec![],
        scc: None,
        vcc: None,
    }
}

#[test]
fn kernarg_deref_resolves_to_its_argument() {
    // A dereference of the kernarg pointer at an argument's offset
    // lowers to a reference to that argument; this includes hidden
    // arguments such as the global offset, which keep a distinguished
    // argument reference for the emitter to substitute.
    let args = KernelArgs::new(vec![
        arg("HiddenGlobalOffsetX", 8, 0),
        arg("out", 8, 8),
    ]);
    let st = state(vec![
        Binding::PtrKernarg,
        Binding::Deref { ptr: 0, offset: 0, kind: DataKind::Qword },
        Binding::Deref { ptr: 0, offset: 8, kind: DataKind::Qword },
    ]);
    let program: Program = vec![
        (
            1,
            Statement::DwordVarAssignment {
                var_idx: 0,
                binding_idx: 1,
                binding_dword: 0,
                var_dword: 0,
            },
        ),
        (
            2,
            Statement::DwordVarAssignment {
                var_idx: 1,
                binding_idx: 2,
                binding_dword: 0,
                var_dword: 0,
            },
        ),
    ];
    let out = build(&args, &st, &program).unwrap();
    assert_eq!(
        out,
        vec![
            ProgramStatement::Assignment {
                var_idx: 0,
                expr: BoundExpr::DwordArg { arg_idx: 0, dword: 0 },
            },
            ProgramStatement::Assignment {
                var_idx: 1,
                expr: BoundExpr::DwordArg { arg_idx: 1, dword: 0 },
            },
        ]
    );
}

#[test]
fn non_kernarg_pointer_becomes_a_placeholder() {
    let args = KernelArgs::new(vec![arg("a", 8, 0)]);
    let st = state(vec![
        Binding::PtrQueue,
        Binding::Deref { ptr: 0, offset: 4, kind: DataKind::Dword },
    ]);
    let program: Program = vec![(
        1,
        Statement::DwordVarAssignment {
            var_idx: 0,
            binding_idx: 1,
            binding_dword: 0,
            var_dword: 0,
        },
    )];
    let out = build(&args, &st, &program).unwrap();
    assert_eq!(
        out,
        vec![ProgramStatement::Assignment { var_idx: 0, expr: BoundExpr::Placeholder }]
    );
}

#[test]
fn computed_expressions_fold_recursively() {
    // (arg0.dword0 * 4) + arg1.dword0, built out of a multiply whose
    // operands are a dereference and a literal.
    let args = KernelArgs::new(vec![arg("a", 4, 0), arg("b", 4, 4)]);
    let st = state(vec![
        Binding::PtrKernarg,
        Binding::Deref { ptr: 0, offset: 0, kind: DataKind::Dword },
        Binding::U32(4),
        Binding::Computed { expr: Expr::Mul(1, 2), kind: DataKind::Dword },
        Binding::Deref { ptr: 0, offset: 4, kind: DataKind::Dword },
        Binding::Computed { expr: Expr::Add(3, 4), kind: DataKind::Dword },
    ]);
    let program: Program = vec![(
        1,
        Statement::DwordVarAssignment {
            var_idx: 0,
            binding_idx: 5,
            binding_dword: 0,
            var_dword: 0,
        },
    )];
    let out = build(&args, &st, &program).unwrap();
    assert_eq!(
        out,
        vec![ProgramStatement::Assignment {
            var_idx: 0,
            expr: BoundExpr::Add(
                Box::new(BoundExpr::Mul(
                    Box::new(BoundExpr::DwordArg { arg_idx: 0, dword: 0 }),
                    Box::new(BoundExpr::U32(4)),
                )),
                Box::new(BoundExpr::DwordArg { arg_idx: 1, dword: 0 }),
            ),
        }]
    );
}

#[test]
fn jump_unless_negates_its_condition() {
    let args = KernelArgs::new(vec![]);
    let st = state(vec![Binding::U32(1), Binding::U32(2)]);
    let program: Program = vec![
        (1, Statement::Label { index: 0 }),
        (2, Statement::VarDecl { var_idx: 0 }),
        (
            3,
            Statement::JumpUnless { cond: Condition::Lt(0, 1), label_idx: 0 },
        ),
        (
            4,
            Statement::JumpIf { cond: Condition::Eql(0, 1), label_idx: 0 },
        ),
    ];
    let out = build(&args, &st, &program).unwrap();
    assert_eq!(
        out,
        vec![
            ProgramStatement::Label { label_idx: 0 },
            ProgramStatement::Declaration { var_idx: 0 },
            ProgramStatement::JumpIf {
                label_idx: 0,
                cond: BoundExpr::Negate(Box::new(BoundExpr::CompareLt(
                    Box::new(BoundExpr::U32(1)),
                    Box::new(BoundExpr::U32(2)),
                ))),
            },
            ProgramStatement::JumpIf {
                label_idx: 0,
                cond: BoundExpr::CompareEql(
                    Box::new(BoundExpr::U32(1)),
                    Box::new(BoundExpr::U32(2)),
                ),
            },
        ]
    );
}

#[test]
fn element_of_deref_narrows_the_dereference() {
    // The second dword of a quadword argument load: the projection
    // narrows the dereference by the element's dword count.
    let args = KernelArgs::new(vec![arg("a", 16, 0)]);
    let st = state(vec![
        Binding::PtrKernarg,
        Binding::Deref { ptr: 0, offset: 8, kind: DataKind::Qword },
        Binding::DwordElement { of: 1, dword: 1 },
    ]);
    let program: Program = vec![(
        1,
        Statement::DwordVarAssignment {
            var_idx: 0,
            binding_idx: 2,
            binding_dword: 0,
            var_dword: 0,
        },
    )];
    let out = build(&args, &st, &program).unwrap();
    // Offset 8 plus one element dword looks up byte offset 9 within
    // argument 0: half-word index (9 - 0) / 2 = 4.
    assert_eq!(
        out,
        vec![ProgramStatement::Assignment {
            var_idx: 0,
            expr: BoundExpr::DwordArg { arg_idx: 0, dword: 4 },
        }]
    );
}

#[test]
fn assigned_bindings_are_read_back_as_variables() {
    // Once a binding has been assigned to a variable, an element
    // projection of it names the variable.
    let args = KernelArgs::new(vec![arg("a", 8, 0)]);
    let st = state(vec![
        Binding::PtrKernarg,
        Binding::Deref { ptr: 0, offset: 0, kind: DataKind::Qword },
        Binding::DwordElement { of: 1, dword: 1 },
        Binding::Variable { idx: 3 },
    ]);
    let program: Program = vec![
        (
            1,
            Statement::QwordVarAssignment {
                var_idx: 7,
                binding_idx: 1,
                binding_dword: 0,
                var_dword: 0,
            },
        ),
        (
            2,
            Statement::DwordVarAssignment {
                var_idx: 8,
                binding_idx: 2,
                binding_dword: 0,
                var_dword: 0,
            },
        ),
        (3, Statement::Store { addr: 1, data: 3, kind: DataKind::Dword }),
    ];
    let out = build(&args, &st, &program).unwrap();
    assert_eq!(
        out,
        vec![
            ProgramStatement::Assignment {
                var_idx: 7,
                expr: BoundExpr::DwordArg { arg_idx: 0, dword: 0 },
            },
            // Binding 1 now maps to variable 7, so its element names
            // that variable's dword.
            ProgramStatement::Assignment {
                var_idx: 8,
                expr: BoundExpr::Variable { idx: 7, dword: 1 },
            },
            // A variable-reference binding lowers to the variable.
            ProgramStatement::Store {
                addr: 1,
                data: BoundExpr::Variable { idx: 3, dword: 0 },
                kind: DataKind::Dword,
            },
        ]
    );
}

#[test]
fn sentinel_assignments_are_dropped() {
    let args = KernelArgs::new(vec![]);
    let st = state(vec![Binding::U32(7)]);
    let program: Program = vec![(
        1,
        Statement::DwordVarAssignment {
            var_idx: 0,
            binding_idx: usize::MAX,
            binding_dword: 0,
            var_dword: 0,
        },
    )];
    let out = build(&args, &st, &program).unwrap();
    assert!(out.is_empty());
}

#[test]
fn kernarg_offset_without_arguments_is_a_metadata_error() {
    let args = KernelArgs::new(vec![]);
    let st = state(vec![
        Binding::PtrKernarg,
        Binding::Deref { ptr: 0, offset: 0, kind: DataKind::Dword },
    ]);
    let program: Program = vec![(
        1,
        Statement::DwordVarAssignment {
            var_idx: 0,
            binding_idx: 1,
            binding_dword: 0,
            var_dword: 0,
        },
    )];
    assert_eq!(build(&args, &st, &program), Err(AnalyzeError::MetadataParse));
}
