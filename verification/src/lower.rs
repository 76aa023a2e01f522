use vstd::prelude::*;

use crate::error::AnalyzeError;
use crate::kernel_args::{find_idx_dword_spec, KernelArgView, KernelArgs};
use crate::state::{Binding, Condition, DataKind, ExecutionState, Expr, Program, Statement};

verus! {

/// A value the hardware sets up before the first instruction.
#[derive(Debug, Clone, Copy, PartialEq, Eq, Structural)]
pub enum BuiltIn {
    PrivateSegmentBuffer,
    PtrDispatchPacket,
    PtrQueue,
    PtrKernarg,
    DispatchId,
    FlatScratchInit,
    WorkgroupCountX,
    WorkgroupCountY,
    WorkgroupCountZ,
    WorkgroupIdX,
    WorkgroupIdY,
    WorkgroupIdZ,
    WorkgroupInfo,
    PrivateSegmentWavefrontOffset,
    WorkitemIdX,
    WorkitemIdY,
    WorkitemIdZ,
}

/// A typed expression of the recovered source program.
#[derive(Debug, PartialEq)]
pub enum BoundExpr {
    Mul(Box<BoundExpr>, Box<BoundExpr>),
    Add(Box<BoundExpr>, Box<BoundExpr>),
    And(Box<BoundExpr>, Box<BoundExpr>),
    Shl(Box<BoundExpr>, Box<BoundExpr>),
    CompareLt(Box<BoundExpr>, Box<BoundExpr>),
    CompareEql(Box<BoundExpr>, Box<BoundExpr>),
    Negate(Box<BoundExpr>),
    Cast(Box<BoundExpr>, DataKind),
    I32(i32),
    U32(u32),
    InitState(BuiltIn),
    DwordArg { arg_idx: usize, dword: u8 },
    Variable { idx: usize, dword: u8 },
    Placeholder,
}

/// A statement of the recovered source program.
#[derive(Debug, PartialEq)]
pub enum ProgramStatement {
    Declaration { var_idx: usize },
    Assignment { var_idx: usize, expr: BoundExpr },
    JumpIf { label_idx: usize, cond: BoundExpr },
    Label { label_idx: usize },
    Store { addr: usize, data: BoundExpr, kind: DataKind },
}

/// The builtin a binding stands for, if it is one.
pub open spec fn builtin_of(b: Binding) -> Option<BuiltIn> {
    match b {
        Binding::PrivateSegmentBuffer => Some(BuiltIn::PrivateSegmentBuffer),
        Binding::PtrDispatchPacket => Some(BuiltIn::PtrDispatchPacket),
        Binding::PtrQueue => Some(BuiltIn::PtrQueue),
        Binding::PtrKernarg => Some(BuiltIn::PtrKernarg),
        Binding::DispatchId => Some(BuiltIn::DispatchId),
        Binding::FlatScratchInit => Some(BuiltIn::FlatScratchInit),
        Binding::WorkgroupCountX => Some(BuiltIn::WorkgroupCountX),
        Binding::WorkgroupCountY => Some(BuiltIn::WorkgroupCountY),
        Binding::WorkgroupCountZ => Some(BuiltIn::WorkgroupCountZ),
        Binding::WorkgroupIdX => Some(BuiltIn::WorkgroupIdX),
        Binding::WorkgroupIdY => Some(BuiltIn::WorkgroupIdY),
        Binding::WorkgroupIdZ => Some(BuiltIn::WorkgroupIdZ),
        Binding::WorkgroupInfo => Some(BuiltIn::WorkgroupInfo),
        Binding::PrivateSegmentWavefrontOffset => Some(BuiltIn::PrivateSegmentWavefrontOffset),
        Binding::WorkitemIdX => Some(BuiltIn::WorkitemIdX),
        Binding::WorkitemIdY => Some(BuiltIn::WorkitemIdY),
        Binding::WorkitemIdZ => Some(BuiltIn::WorkitemIdZ),
        _ => None,
    }
}

fn builtin_of_exec(b: &Binding) -> (r: Option<BuiltIn>)
    ensures
        r == builtin_of(*b),
{
    match b {
        Binding::PrivateSegmentBuffer => Some(BuiltIn::PrivateSegmentBuffer),
        Binding::PtrDispatchPacket => Some(BuiltIn::PtrDispatchPacket),
        Binding::PtrQueue => Some(BuiltIn::PtrQueue),
        Binding::PtrKernarg => Some(BuiltIn::PtrKernarg),
        Binding::DispatchId => Some(BuiltIn::DispatchId),
        Binding::FlatScratchInit => Some(BuiltIn::FlatScratchInit),
        Binding::WorkgroupCountX => Some(BuiltIn::WorkgroupCountX),
        Binding::WorkgroupCountY => Some(BuiltIn::WorkgroupCountY),
        Binding::WorkgroupCountZ => Some(BuiltIn::WorkgroupCountZ),
        Binding::WorkgroupIdX => Some(BuiltIn::WorkgroupIdX),
        Binding::WorkgroupIdY => Some(BuiltIn::WorkgroupIdY),
        Binding::WorkgroupIdZ => Some(BuiltIn::WorkgroupIdZ),
        Binding::WorkgroupInfo => Some(BuiltIn::WorkgroupInfo),
        Binding::PrivateSegmentWavefrontOffset => Some(BuiltIn::PrivateSegmentWavefrontOffset),
        Binding::WorkitemIdX => Some(BuiltIn::WorkitemIdX),
        Binding::WorkitemIdY => Some(BuiltIn::WorkitemIdY),
        Binding::WorkitemIdZ => Some(BuiltIn::WorkitemIdZ),
        _ => None,
    }
}

// ------------------------------------------------------------------
// Pointer resolution.
// ------------------------------------------------------------------

/// A dereference of the kernarg pointer resolves to the argument its
/// offset falls into; an empty argument table cannot resolve it; any
/// other pointer is left unresolved (recoverably).
pub open spec fn resolve_deref_spec(
    bindings: Seq<Binding>,
    args: Seq<KernelArgView>,
    ptr: usize,
    offset: u32,
) -> Result<BoundExpr, AnalyzeError> {
    if ptr >= bindings.len() {
        Err(AnalyzeError::UnreducibleBinding)
    } else if bindings[ptr as int] is PtrKernarg {
        match find_idx_dword_spec(args, offset) {
            Some((arg_idx, dword)) => Ok(BoundExpr::DwordArg { arg_idx, dword }),
            None => Err(AnalyzeError::MetadataParse),
        }
    } else {
        Err(AnalyzeError::UnresolvedPointer)
    }
}

/// Resolves a kernarg dereference against the argument table.
pub fn resolve_dereference(
    st_bindings: &Vec<Binding>,
    args: &KernelArgs,
    ptr: usize,
    offset: u32,
) -> (r: Result<BoundExpr, AnalyzeError>)
    ensures
        r == resolve_deref_spec(st_bindings@, args@, ptr, offset),
{
    if ptr >= st_bindings.len() {
        return Err(AnalyzeError::UnreducibleBinding);
    }
    match st_bindings[ptr] {
        Binding::PtrKernarg => {
            match args.find_idx_and_dword(offset) {
                Some((arg_idx, dword)) => Ok(BoundExpr::DwordArg { arg_idx, dword }),
                None => Err(AnalyzeError::MetadataParse),
            }
        },
        _ => Err(AnalyzeError::UnresolvedPointer),
    }
}

// ------------------------------------------------------------------
// Folding a binding into an expression tree.
// ------------------------------------------------------------------

/// Folds binding `idx` into an expression: computations recurse into
/// their operands, literals and builtins map directly, dereferences
/// resolve against the argument table (an unresolvable pointer becomes
/// a placeholder), element projections either name an assigned
/// variable or narrow the dereference they project from, and casts
/// recurse.  The fuel bounds the recursion through the finite DAG.
pub open spec fn reduce_spec(
    bindings: Seq<Binding>,
    args: Seq<KernelArgView>,
    vars: Seq<Option<usize>>,
    idx: usize,
    fuel: nat,
) -> Result<BoundExpr, AnalyzeError>
    decreases fuel, 0int,
{
    if fuel == 0 {
        Err(AnalyzeError::UnreducibleBinding)
    } else if idx >= bindings.len() {
        Err(AnalyzeError::UnreducibleBinding)
    } else {
        match bindings[idx as int] {
            Binding::Computed { expr, .. } => match expr {
                Expr::Mul(l, r) => reduce_bin_spec(bindings, args, vars, l, r, (fuel - 1) as nat, 0),
                Expr::Add(l, r) => reduce_bin_spec(bindings, args, vars, l, r, (fuel - 1) as nat, 1),
                Expr::And(l, r) => reduce_bin_spec(bindings, args, vars, l, r, (fuel - 1) as nat, 2),
                Expr::Shl(l, r) => reduce_bin_spec(bindings, args, vars, l, r, (fuel - 1) as nat, 3),
                Expr::AddHiLo { .. } => Err(AnalyzeError::UnreducibleBinding),
            },
            Binding::U32(v) => Ok(BoundExpr::U32(v)),
            Binding::I32(v) => Ok(BoundExpr::I32(v)),
            Binding::Deref { ptr, offset, .. } => match resolve_deref_spec(
                bindings,
                args,
                ptr,
                offset as u32,
            ) {
                Ok(e) => Ok(e),
                Err(AnalyzeError::UnresolvedPointer) => Ok(BoundExpr::Placeholder),
                Err(e) => Err(e),
            },
            Binding::DwordElement { of, dword } => reduce_element_spec(
                bindings,
                args,
                vars,
                of,
                dword,
            ),
            Binding::QwordElement { of, dword } => reduce_element_spec(
                bindings,
                args,
                vars,
                of,
                dword,
            ),
            Binding::Cast { source, kind } => match reduce_spec(
                bindings,
                args,
                vars,
                source,
                (fuel - 1) as nat,
            ) {
                Ok(e) => Ok(BoundExpr::Cast(Box::new(e), kind)),
                Err(e) => Err(e),
            },
            Binding::Variable { idx: v } => Ok(BoundExpr::Variable { idx: v, dword: 0 }),
            b => match builtin_of(b) {
                Some(bi) => Ok(BoundExpr::InitState(bi)),
                None => Err(AnalyzeError::UnreducibleBinding),
            },
        }
    }
}

/// Both operands of a computation, folded and recombined; `which`
/// selects the operator.
pub open spec fn reduce_bin_spec(
    bindings: Seq<Binding>,
    args: Seq<KernelArgView>,
    vars: Seq<Option<usize>>,
    l: usize,
    r: usize,
    fuel: nat,
    which: int,
) -> Result<BoundExpr, AnalyzeError>
    decreases fuel, 1int,
{
    match reduce_spec(bindings, args, vars, l, fuel) {
        Err(e) => Err(e),
        Ok(le) => match reduce_spec(bindings, args, vars, r, fuel) {
            Err(e) => Err(e),
            Ok(re) => Ok(
                if which == 0 {
                    BoundExpr::Mul(Box::new(le), Box::new(re))
                } else if which == 1 {
                    BoundExpr::Add(Box::new(le), Box::new(re))
                } else if which == 2 {
                    BoundExpr::And(Box::new(le), Box::new(re))
                } else {
                    BoundExpr::Shl(Box::new(le), Box::new(re))
                },
            ),
        },
    }
}

/// An element projection: a projection out of a binding assigned to a
/// variable names that variable's dword; one out of a dereference
/// narrows the dereference by the element's dword; one out of a
/// variable reference names the variable directly.
pub open spec fn reduce_element_spec(
    bindings: Seq<Binding>,
    args: Seq<KernelArgView>,
    vars: Seq<Option<usize>>,
    of: usize,
    dword: u8,
) -> Result<BoundExpr, AnalyzeError> {
    if of < vars.len() && vars[of as int] is Some {
        Ok(BoundExpr::Variable { idx: vars[of as int].unwrap(), dword })
    } else if of < bindings.len() {
        match bindings[of as int] {
            Binding::Deref { ptr, offset, .. } => {
                match resolve_deref_spec(
                    bindings,
                    args,
                    ptr,
                    ((offset as u32) as int + dword as int) as u32,
                ) {
                    Ok(e) => Ok(e),
                    Err(AnalyzeError::UnresolvedPointer) => Ok(BoundExpr::Placeholder),
                    Err(e) => Err(e),
                }
            },
            Binding::Variable { idx: v } => Ok(BoundExpr::Variable { idx: v, dword }),
            _ => Err(AnalyzeError::UnreducibleBinding),
        }
    } else {
        Err(AnalyzeError::UnreducibleBinding)
    }
}

/// Folds one binding of the DAG into an expression tree.
pub fn reduce_binding_to_expr(
    bindings: &Vec<Binding>,
    args: &KernelArgs,
    vars: &Vec<Option<usize>>,
    idx: usize,
    fuel: usize,
) -> (r: Result<BoundExpr, AnalyzeError>)
    ensures
        r == reduce_spec(bindings@, args@, vars@, idx, fuel as nat),
    decreases fuel,
{
    if fuel == 0 {
        return Err(AnalyzeError::UnreducibleBinding);
    }
    if idx >= bindings.len() {
        return Err(AnalyzeError::UnreducibleBinding);
    }
    match bindings[idx] {
        Binding::Computed { expr, .. } => {
            let (l, r, which): (usize, usize, u8) = match expr {
                Expr::Mul(l, r) => (l, r, 0),
                Expr::Add(l, r) => (l, r, 1),
                Expr::And(l, r) => (l, r, 2),
                Expr::Shl(l, r) => (l, r, 3),
                Expr::AddHiLo { .. } => {
                    return Err(AnalyzeError::UnreducibleBinding);
                },
            };
            proof {
                assert(reduce_spec(bindings@, args@, vars@, idx, fuel as nat)
                    == reduce_bin_spec(
                    bindings@,
                    args@,
                    vars@,
                    l,
                    r,
                    (fuel - 1) as nat,
                    which as int,
                ));
            }
            let le = match reduce_binding_to_expr(bindings, args, vars, l, fuel - 1) {
                Ok(e) => e,
                Err(e) => {
                    return Err(e);
                },
            };
            let re = match reduce_binding_to_expr(bindings, args, vars, r, fuel - 1) {
                Ok(e) => e,
                Err(e) => {
                    return Err(e);
                },
            };
            Ok(
                if which == 0 {
                    BoundExpr::Mul(Box::new(le), Box::new(re))
                } else if which == 1 {
                    BoundExpr::Add(Box::new(le), Box::new(re))
                } else if which == 2 {
                    BoundExpr::And(Box::new(le), Box::new(re))
                } else {
                    BoundExpr::Shl(Box::new(le), Box::new(re))
                },
            )
        },
        Binding::U32(v) => Ok(BoundExpr::U32(v)),
        Binding::I32(v) => Ok(BoundExpr::I32(v)),
        Binding::Deref { ptr, offset, .. } => {
            match resolve_dereference(bindings, args, ptr, offset as u32) {
                Ok(e) => Ok(e),
                Err(e) => {
                    if matches!(e, AnalyzeError::UnresolvedPointer) {
                        Ok(BoundExpr::Placeholder)
                    } else {
                        Err(e)
                    }
                },
            }
        },
        Binding::DwordElement { of, dword } => reduce_element(bindings, args, vars, of, dword),
        Binding::QwordElement { of, dword } => reduce_element(bindings, args, vars, of, dword),
        Binding::Cast { source, kind } => {
            match reduce_binding_to_expr(bindings, args, vars, source, fuel - 1) {
                Ok(e) => Ok(BoundExpr::Cast(Box::new(e), kind)),
                Err(e) => Err(e),
            }
        },
        Binding::Variable { idx: v } => Ok(BoundExpr::Variable { idx: v, dword: 0 }),
        b => {
            match builtin_of_exec(&b) {
                Some(bi) => Ok(BoundExpr::InitState(bi)),
                None => Err(AnalyzeError::UnreducibleBinding),
            }
        },
    }
}

fn reduce_element(
    bindings: &Vec<Binding>,
    args: &KernelArgs,
    vars: &Vec<Option<usize>>,
    of: usize,
    dword: u8,
) -> (r: Result<BoundExpr, AnalyzeError>)
    ensures
        r == reduce_element_spec(bindings@, args@, vars@, of, dword),
{
    if of < vars.len() {
        match vars[of] {
            Some(v) => {
                return Ok(BoundExpr::Variable { idx: v, dword });
            },
            None => {},
        }
    }
    if of < bindings.len() {
        match bindings[of] {
            Binding::Deref { ptr, offset, .. } => {
                let off2: u32 = ((offset as u32) as u64 + dword as u64) as u32;
                proof {
                    assert(off2 == ((offset as u32) as int + dword as int) as u32);
                }
                match resolve_dereference(bindings, args, ptr, off2) {
                    Ok(e) => Ok(e),
                    Err(e) => {
                        if matches!(e, AnalyzeError::UnresolvedPointer) {
                            Ok(BoundExpr::Placeholder)
                        } else {
                            Err(e)
                        }
                    },
                }
            },
            Binding::Variable { idx: v } => Ok(BoundExpr::Variable { idx: v, dword }),
            _ => Err(AnalyzeError::UnreducibleBinding),
        }
    } else {
        Err(AnalyzeError::UnreducibleBinding)
    }
}


// ------------------------------------------------------------------
// Lowering the whole program.
// ------------------------------------------------------------------

/// The recursion budget that surely covers any path through the
/// binding DAG.
pub open spec fn reduce_fuel(bindings: Seq<Binding>) -> int {
    2 * (bindings.len() as int) + 2
}

/// One low-level statement lowered: a variable assignment records
/// which binding the variable holds and folds it; declarations,
/// labels, jumps and stores map across, a `JumpUnless` negating its
/// condition.  Assignments out of a never-written register slot are
/// dropped.
pub open spec fn lower_stmt_spec(
    bindings: Seq<Binding>,
    args: Seq<KernelArgView>,
    vars: Seq<Option<usize>>,
    stmt: Statement,
) -> Result<(Seq<Option<usize>>, Seq<ProgramStatement>), AnalyzeError> {
    let fuel = reduce_fuel(bindings) as nat;
    match stmt {
        Statement::DwordVarAssignment { var_idx, binding_idx, .. } => lower_assign_spec(
            bindings,
            args,
            vars,
            var_idx,
            binding_idx,
        ),
        Statement::QwordVarAssignment { var_idx, binding_idx, .. } => lower_assign_spec(
            bindings,
            args,
            vars,
            var_idx,
            binding_idx,
        ),
        Statement::DQwordVarAssignment { var_idx, binding_idx, .. } => lower_assign_spec(
            bindings,
            args,
            vars,
            var_idx,
            binding_idx,
        ),
        Statement::VarDecl { var_idx } => Ok(
            (vars, seq![ProgramStatement::Declaration { var_idx }]),
        ),
        Statement::Label { index } => Ok(
            (vars, seq![ProgramStatement::Label { label_idx: index }]),
        ),
        Statement::JumpIf { cond, label_idx } => match lower_cond_spec(bindings, args, vars, cond) {
            Err(e) => Err(e),
            Ok(ce) => Ok((vars, seq![ProgramStatement::JumpIf { label_idx, cond: ce }])),
        },
        Statement::JumpUnless { cond, label_idx } => match lower_cond_spec(
            bindings,
            args,
            vars,
            cond,
        ) {
            Err(e) => Err(e),
            Ok(ce) => Ok(
                (
                    vars,
                    seq![
                        ProgramStatement::JumpIf {
                            label_idx,
                            cond: BoundExpr::Negate(Box::new(ce)),
                        },
                    ],
                ),
            ),
        },
        Statement::Store { addr, data, kind } => match reduce_spec(
            bindings,
            args,
            vars,
            data,
            fuel,
        ) {
            Err(e) => Err(e),
            Ok(de) => Ok((vars, seq![ProgramStatement::Store { addr, data: de, kind }])),
        },
    }
}

/// A variable assignment: the binding index is recorded as held by the
/// variable and folded to the assigned expression; the never-written
/// sentinel is skipped.
pub open spec fn lower_assign_spec(
    bindings: Seq<Binding>,
    args: Seq<KernelArgView>,
    vars: Seq<Option<usize>>,
    var_idx: usize,
    binding_idx: usize,
) -> Result<(Seq<Option<usize>>, Seq<ProgramStatement>), AnalyzeError> {
    if binding_idx == usize::MAX {
        Ok((vars, Seq::empty()))
    } else if binding_idx >= vars.len() {
        Err(AnalyzeError::UnreducibleBinding)
    } else {
        let vars2 = vars.update(binding_idx as int, Some(var_idx));
        match reduce_spec(bindings, args, vars2, binding_idx, reduce_fuel(bindings) as nat) {
            Err(e) => Err(e),
            Ok(expr) => Ok((vars2, seq![ProgramStatement::Assignment { var_idx, expr }])),
        }
    }
}

/// A recorded condition, folded into a comparison expression.
pub open spec fn lower_cond_spec(
    bindings: Seq<Binding>,
    args: Seq<KernelArgView>,
    vars: Seq<Option<usize>>,
    cond: Condition,
) -> Result<BoundExpr, AnalyzeError> {
    let fuel = reduce_fuel(bindings) as nat;
    match cond {
        Condition::Lt(l, r) => match reduce_spec(bindings, args, vars, l, fuel) {
            Err(e) => Err(e),
            Ok(le) => match reduce_spec(bindings, args, vars, r, fuel) {
                Err(e) => Err(e),
                Ok(re) => Ok(BoundExpr::CompareLt(Box::new(le), Box::new(re))),
            },
        },
        Condition::Eql(l, r) => match reduce_spec(bindings, args, vars, l, fuel) {
            Err(e) => Err(e),
            Ok(le) => match reduce_spec(bindings, args, vars, r, fuel) {
                Err(e) => Err(e),
                Ok(re) => Ok(BoundExpr::CompareEql(Box::new(le), Box::new(re))),
            },
        },
    }
}

/// The whole program lowered in order, threading the binding-to-
/// variable map.
pub open spec fn build_spec_rec(
    bindings: Seq<Binding>,
    args: Seq<KernelArgView>,
    program: Seq<(usize, Statement)>,
    i: int,
    vars: Seq<Option<usize>>,
) -> Result<Seq<ProgramStatement>, AnalyzeError>
    decreases program.len() - i,
{
    if i < 0 || i >= program.len() {
        Ok(Seq::empty())
    } else {
        match lower_stmt_spec(bindings, args, vars, program[i].1) {
            Err(e) => Err(e),
            Ok((vars2, piece)) => match build_spec_rec(bindings, args, program, i + 1, vars2) {
                Err(e) => Err(e),
                Ok(rest) => Ok(piece + rest),
            },
        }
    }
}

/// What lowering a program against a state and argument table yields.
/// An oversized binding list cannot be budgeted for.
pub open spec fn build_spec(
    bindings: Seq<Binding>,
    args: Seq<KernelArgView>,
    program: Seq<(usize, Statement)>,
) -> Result<Seq<ProgramStatement>, AnalyzeError> {
    if reduce_fuel(bindings) > usize::MAX {
        Err(AnalyzeError::UnreducibleBinding)
    } else {
        build_spec_rec(bindings, args, program, 0, Seq::new(bindings.len(), |j: int| None))
    }
}

fn lower_cond(
    bindings: &Vec<Binding>,
    args: &KernelArgs,
    vars: &Vec<Option<usize>>,
    cond: Condition,
    fuel: usize,
) -> (r: Result<BoundExpr, AnalyzeError>)
    requires
        fuel == reduce_fuel(bindings@),
    ensures
        r == lower_cond_spec(bindings@, args@, vars@, cond),
{
    match cond {
        Condition::Lt(l, r) => {
            let le = match reduce_binding_to_expr(bindings, args, vars, l, fuel) {
                Ok(e) => e,
                Err(e) => {
                    return Err(e);
                },
            };
            let re = match reduce_binding_to_expr(bindings, args, vars, r, fuel) {
                Ok(e) => e,
                Err(e) => {
                    return Err(e);
                },
            };
            Ok(BoundExpr::CompareLt(Box::new(le), Box::new(re)))
        },
        Condition::Eql(l, r) => {
            let le = match reduce_binding_to_expr(bindings, args, vars, l, fuel) {
                Ok(e) => e,
                Err(e) => {
                    return Err(e);
                },
            };
            let re = match reduce_binding_to_expr(bindings, args, vars, r, fuel) {
                Ok(e) => e,
                Err(e) => {
                    return Err(e);
                },
            };
            Ok(BoundExpr::CompareEql(Box::new(le), Box::new(re)))
        },
    }
}

/// Lowers the analyzer's flat program into the typed statement list:
/// the final stage of the decompiler core.
pub fn build(args: &KernelArgs, st: &ExecutionState, program: &Program) -> (r: Result<
    Vec<ProgramStatement>,
    AnalyzeError,
>)
    ensures
        match build_spec(st@.bindings, args@, program@) {
            Ok(out) => r matches Ok(v) && (r matches Ok(v) ==> v@ == out),
            Err(e) => r == Err::<Vec<ProgramStatement>, AnalyzeError>(e),
        },
{
    let nb = st.bindings.len();
    if nb > (usize::MAX - 2) / 2 {
        proof {
            assert(reduce_fuel(st@.bindings) > usize::MAX);
        }
        return Err(AnalyzeError::UnreducibleBinding);
    }
    let fuel: usize = 2 * nb + 2;

    let mut vars: Vec<Option<usize>> = Vec::new();
    let mut j: usize = 0;
    while j < nb
        invariant
            0 <= j <= nb,
            vars@ =~= Seq::new(j as nat, |k: int| None::<usize>),
        decreases nb - j,
    {
        vars.push(None);
        proof {
            assert(vars@ =~= Seq::new((j + 1) as nat, |k: int| None::<usize>));
        }
        j += 1;
    }

    let mut out: Vec<ProgramStatement> = Vec::new();
    let ghost build0 = build_spec_rec(
        st@.bindings,
        args@,
        program@,
        0,
        Seq::new(st@.bindings.len(), |k: int| None::<usize>),
    );
    proof {
        assert(vars@ =~= Seq::new(st@.bindings.len(), |k: int| None::<usize>));
    }
    let mut i: usize = 0;
    while i < program.len()
        invariant
            0 <= i <= program@.len(),
            nb == st@.bindings.len(),
            fuel == reduce_fuel(st@.bindings),
            vars@.len() == st@.bindings.len(),
            build0 == build_spec_rec(
                st@.bindings,
                args@,
                program@,
                0,
                Seq::new(st@.bindings.len(), |k: int| None::<usize>),
            ),
            match build_spec_rec(st@.bindings, args@, program@, i as int, vars@) {
                Ok(rest) => build0 == Ok::<Seq<ProgramStatement>, AnalyzeError>(out@ + rest),
                Err(e) => build0 == Err::<Seq<ProgramStatement>, AnalyzeError>(e),
            },
        decreases program@.len() - i,
    {
        let stmt: Statement = program[i].1;
        let ghost vars_pre = vars@;
        let ghost out_pre = out@;
        match stmt {
            Statement::DwordVarAssignment { var_idx, binding_idx, .. }
            | Statement::QwordVarAssignment { var_idx, binding_idx, .. }
            | Statement::DQwordVarAssignment { var_idx, binding_idx, .. } => {
                if binding_idx != usize::MAX {
                    if binding_idx >= vars.len() {
                        return Err(AnalyzeError::UnreducibleBinding);
                    }
                    vars[binding_idx] = Some(var_idx);
                    match reduce_binding_to_expr(&st.bindings, args, &vars, binding_idx, fuel) {
                        Ok(expr) => {
                            out.push(ProgramStatement::Assignment { var_idx, expr });
                        },
                        Err(e) => {
                            return Err(e);
                        },
                    }
                }
            },
            Statement::VarDecl { var_idx } => {
                out.push(ProgramStatement::Declaration { var_idx });
            },
            Statement::Label { index } => {
                out.push(ProgramStatement::Label { label_idx: index });
            },
            Statement::JumpIf { cond, label_idx } => {
                match lower_cond(&st.bindings, args, &vars, cond, fuel) {
                    Ok(ce) => {
                        out.push(ProgramStatement::JumpIf { label_idx, cond: ce });
                    },
                    Err(e) => {
                        return Err(e);
                    },
                }
            },
            Statement::JumpUnless { cond, label_idx } => {
                match lower_cond(&st.bindings, args, &vars, cond, fuel) {
                    Ok(ce) => {
                        out.push(
                            ProgramStatement::JumpIf {
                                label_idx,
                                cond: BoundExpr::Negate(Box::new(ce)),
                            },
                        );
                    },
                    Err(e) => {
                        return Err(e);
                    },
                }
            },
            Statement::Store { addr, data, kind } => {
                match reduce_binding_to_expr(&st.bindings, args, &vars, data, fuel) {
                    Ok(de) => {
                        out.push(ProgramStatement::Store { addr, data: de, kind });
                    },
                    Err(e) => {
                        return Err(e);
                    },
                }
            },
        }
        proof {
            let step = lower_stmt_spec(st@.bindings, args@, vars_pre, program@[i as int].1);
            assert(step matches Ok(t) && t.0 == vars@ && out@ == out_pre + t.1) by {
                assert(out@ =~= out_pre + step.unwrap().1);
            }
            assert(forall|x: Seq<ProgramStatement>, y: Seq<ProgramStatement>, z: Seq<
                ProgramStatement,
            >| (x + y) + z =~= x + (y + z));
        }
        i += 1;
    }
    proof {
        assert(out@ + Seq::<ProgramStatement>::empty() =~= out@);
    }
    Ok(out)
}

} // verus!
