use vstd::prelude::*;

use crate::kernel_code::{KernelCode, VGPRWorkItemId};

verus! {

/// A register dword slot: which binding it holds, and which dword of
/// that binding.  `REG_UNSET` as the binding index marks a slot that
/// has never been written.
#[derive(Debug, Copy, Clone, PartialEq, Eq, Structural)]
pub struct Reg(pub usize, pub u8);

pub const REG_UNSET: usize = usize::MAX;

/// Width and interpretation of a loaded or computed value.
#[derive(Debug, Copy, Clone, PartialEq, Eq, Structural)]
pub enum DataKind {
    Dword,
    Qword,
    DQword,
    U16,
    I64,
}

/// A declared local variable's shape.  The `Partial` kinds mark a
/// variable whose skipped branch assigns fewer dwords than its taken
/// branch.
#[derive(Debug, Copy, Clone, PartialEq, Eq, Structural)]
pub enum Variable {
    Dword,
    Qword,
    DQword,
    PartialQword,
    PartialDQword,
}

/// An operation over binding indices.
#[derive(Debug, Copy, Clone, PartialEq, Eq, Structural)]
pub enum Expr {
    Mul(usize, usize),
    Add(usize, usize),
    And(usize, usize),
    Shl(usize, usize),
    AddHiLo { hi_op1: usize, hi_op2: usize, lo_op1: usize, lo_op2: usize },
}

/// A node of the expression DAG.  Registers reference these by index;
/// the list only grows, except for the 64-bit add promotion.
#[derive(Debug, Copy, Clone, PartialEq, Eq, Structural)]
pub enum Binding {
    U32(u32),
    I32(i32),
    Deref { ptr: usize, offset: i32, kind: DataKind },
    Computed { expr: Expr, kind: DataKind },
    DwordElement { of: usize, dword: u8 },
    QwordElement { of: usize, dword: u8 },
    Cast { source: usize, kind: DataKind },
    Variable { idx: usize },
    /* Built-ins (initial register state) */
    PrivateSegmentBuffer,
    PtrDispatchPacket,
    PtrQueue,
    PtrKernarg,
    DispatchId,
    FlatScratchInit,
    WorkgroupCountX,
    WorkgroupCountY,
    WorkgroupCountZ,
    WorkgroupIdX,
    WorkgroupIdY,
    WorkgroupIdZ,
    WorkgroupInfo,
    PrivateSegmentWavefrontOffset,
    WorkitemIdX,
    WorkitemIdY,
    WorkitemIdZ,
}

/// A comparison recorded in a condition register.
#[derive(Debug, Copy, Clone, PartialEq, Eq, Structural)]
pub enum Condition {
    Lt(usize, usize),
    Eql(usize, usize),
}

/// A low-level statement of the recovered program.
#[derive(Debug, Copy, Clone, PartialEq, Eq, Structural)]
pub enum Statement {
    JumpIf { cond: Condition, label_idx: usize },
    JumpUnless { cond: Condition, label_idx: usize },
    Store { addr: usize, data: usize, kind: DataKind },
    Label { index: usize },
    VarDecl { var_idx: usize },
    DwordVarAssignment { var_idx: usize, binding_idx: usize, binding_dword: u8, var_dword: u8 },
    QwordVarAssignment { var_idx: usize, binding_idx: usize, binding_dword: u8, var_dword: u8 },
    DQwordVarAssignment { var_idx: usize, binding_idx: usize, binding_dword: u8, var_dword: u8 },
}

/// The recovered program: statements tagged with the index of the
/// instruction after the one that produced them, for stable ordering.
pub type Program = Vec<(usize, Statement)>;

/// The simulated machine: scalar and vector register files pointing
/// into the binding DAG, the declared variables, and the condition
/// registers.
#[derive(Debug)]
pub struct ExecutionState {
    pub sgprs: Vec<Reg>,
    pub vgprs: Vec<Reg>,
    pub bindings: Vec<Binding>,
    pub variables: Vec<Variable>,
    pub scc: Option<Condition>,
    pub vcc: Option<Condition>,
}

pub ghost struct StateView {
    pub sgprs: Seq<Reg>,
    pub vgprs: Seq<Reg>,
    pub bindings: Seq<Binding>,
    pub variables: Seq<Variable>,
    pub scc: Option<Condition>,
    pub vcc: Option<Condition>,
}

impl View for ExecutionState {
    type V = StateView;

    open spec fn view(&self) -> StateView {
        StateView {
            sgprs: self.sgprs@,
            vgprs: self.vgprs@,
            bindings: self.bindings@,
            variables: self.variables@,
            scc: self.scc,
            vcc: self.vcc,
        }
    }
}

impl ExecutionState {
    /// An exact copy, used to evaluate a conditional block
    /// speculatively.
    pub fn duplicate(&self) -> (r: ExecutionState)
        ensures
            r@ == self@,
    {
        let sgprs = self.sgprs.clone();
        let vgprs = self.vgprs.clone();
        let bindings = self.bindings.clone();
        let variables = self.variables.clone();
        proof {
            assert(sgprs@ =~= self.sgprs@);
            assert(vgprs@ =~= self.vgprs@);
            assert(bindings@ =~= self.bindings@);
            assert(variables@ =~= self.variables@);
        }
        ExecutionState { sgprs, vgprs, bindings, variables, scc: self.scc, vcc: self.vcc }
    }
}

// ------------------------------------------------------------------
// Binding-list evolution (the monotonicity law).
// ------------------------------------------------------------------

/// True of a binding written by the 64-bit add promotion.
pub open spec fn promoted_to_qword(b: Binding) -> bool {
    b matches Binding::Computed { kind: DataKind::Qword, .. }
}

/// How a binding list may change across any analyzer step: it only
/// grows, and an existing slot changes only by being promoted in place
/// to a quadword computation.
pub open spec fn bindings_evolve(pre: Seq<Binding>, post: Seq<Binding>) -> bool {
    &&& pre.len() <= post.len()
    &&& forall|i: int|
        0 <= i < pre.len() ==> post[i] == pre[i] || promoted_to_qword(#[trigger] post[i])
}

/// The monotonicity guarantee composes across successive steps.
pub proof fn lemma_bindings_evolve_trans(a: Seq<Binding>, b: Seq<Binding>, c: Seq<Binding>)
    requires
        bindings_evolve(a, b),
        bindings_evolve(b, c),
    ensures
        bindings_evolve(a, c),
{
}

// ------------------------------------------------------------------
// Initial register state.
// ------------------------------------------------------------------

/// Appends a builtin binding spanning one register dword.
pub open spec fn push_dword_binding(t: (Seq<Binding>, Seq<Reg>), b: Binding) -> (
    Seq<Binding>,
    Seq<Reg>,
) {
    (t.0.push(b), t.1.push(Reg(t.0.len() as usize, 0)))
}

/// Appends a builtin binding spanning two register dwords.
pub open spec fn push_qword_binding(t: (Seq<Binding>, Seq<Reg>), b: Binding) -> (
    Seq<Binding>,
    Seq<Reg>,
) {
    (t.0.push(b), t.1.push(Reg(t.0.len() as usize, 0)).push(Reg(t.0.len() as usize, 1)))
}

/// Appends a builtin binding spanning four register dwords.
pub open spec fn push_dqword_binding(t: (Seq<Binding>, Seq<Reg>), b: Binding) -> (
    Seq<Binding>,
    Seq<Reg>,
) {
    (
        t.0.push(b),
        t.1.push(Reg(t.0.len() as usize, 0)).push(Reg(t.0.len() as usize, 1)).push(
            Reg(t.0.len() as usize, 2),
        ).push(Reg(t.0.len() as usize, 3)),
    )
}

pub open spec fn sgprs_after_psb(k: KernelCode) -> (Seq<Binding>, Seq<Reg>) {
    if k.code_props.enable_sgpr_private_segment_buffer {
        push_dqword_binding((Seq::<Binding>::empty(), Seq::<Reg>::empty()), Binding::PrivateSegmentBuffer)
    } else {
        (Seq::<Binding>::empty(), Seq::<Reg>::empty())
    }
}

pub open spec fn sgprs_after_dispatch_ptr(k: KernelCode) -> (Seq<Binding>, Seq<Reg>) {
    if k.code_props.enable_sgpr_dispatch_ptr {
        push_qword_binding(sgprs_after_psb(k), Binding::PtrDispatchPacket)
    } else {
        sgprs_after_psb(k)
    }
}

pub open spec fn sgprs_after_queue_ptr(k: KernelCode) -> (Seq<Binding>, Seq<Reg>) {
    if k.code_props.enable_sgpr_queue_ptr {
        push_qword_binding(sgprs_after_dispatch_ptr(k), Binding::PtrQueue)
    } else {
        sgprs_after_dispatch_ptr(k)
    }
}

pub open spec fn sgprs_after_kernarg_ptr(k: KernelCode) -> (Seq<Binding>, Seq<Reg>) {
    if k.code_props.enable_sgpr_kernarg_segment_ptr {
        push_qword_binding(sgprs_after_queue_ptr(k), Binding::PtrKernarg)
    } else {
        sgprs_after_queue_ptr(k)
    }
}

pub open spec fn sgprs_after_dispatch_id(k: KernelCode) -> (Seq<Binding>, Seq<Reg>) {
    if k.code_props.enable_sgpr_dispatch_id {
        push_qword_binding(sgprs_after_kernarg_ptr(k), Binding::DispatchId)
    } else {
        sgprs_after_kernarg_ptr(k)
    }
}

pub open spec fn sgprs_after_flat_scratch(k: KernelCode) -> (Seq<Binding>, Seq<Reg>) {
    if k.code_props.enable_sgpr_flat_scratch_init {
        push_qword_binding(sgprs_after_dispatch_id(k), Binding::FlatScratchInit)
    } else {
        sgprs_after_dispatch_id(k)
    }
}

pub open spec fn sgprs_after_count_x(k: KernelCode) -> (Seq<Binding>, Seq<Reg>) {
    if k.code_props.enable_sgpr_grid_workgroup_count_x {
        push_dword_binding(sgprs_after_flat_scratch(k), Binding::WorkgroupCountX)
    } else {
        sgprs_after_flat_scratch(k)
    }
}

pub open spec fn sgprs_after_count_y(k: KernelCode) -> (Seq<Binding>, Seq<Reg>) {
    if k.code_props.enable_sgpr_grid_workgroup_count_y && sgprs_after_count_x(k).1.len() < 16 {
        push_dword_binding(sgprs_after_count_x(k), Binding::WorkgroupCountY)
    } else {
        sgprs_after_count_x(k)
    }
}

pub open spec fn sgprs_after_count_z(k: KernelCode) -> (Seq<Binding>, Seq<Reg>) {
    if k.code_props.enable_sgpr_grid_workgroup_count_z && sgprs_after_count_y(k).1.len() < 16 {
        push_dword_binding(sgprs_after_count_y(k), Binding::WorkgroupCountZ)
    } else {
        sgprs_after_count_y(k)
    }
}

pub open spec fn sgprs_after_id_x(k: KernelCode) -> (Seq<Binding>, Seq<Reg>) {
    if k.pgm_props.enable_sgpr_workgroup_id_x {
        push_dword_binding(sgprs_after_count_z(k), Binding::WorkgroupIdX)
    } else {
        sgprs_after_count_z(k)
    }
}

pub open spec fn sgprs_after_id_y(k: KernelCode) -> (Seq<Binding>, Seq<Reg>) {
    if k.pgm_props.enable_sgpr_workgroup_id_y {
        push_dword_binding(sgprs_after_id_x(k), Binding::WorkgroupIdY)
    } else {
        sgprs_after_id_x(k)
    }
}

pub open spec fn sgprs_after_id_z(k: KernelCode) -> (Seq<Binding>, Seq<Reg>) {
    if k.pgm_props.enable_sgpr_workgroup_id_z {
        push_dword_binding(sgprs_after_id_y(k), Binding::WorkgroupIdZ)
    } else {
        sgprs_after_id_y(k)
    }
}

pub open spec fn sgprs_after_info(k: KernelCode) -> (Seq<Binding>, Seq<Reg>) {
    if k.pgm_props.enable_sgpr_workgroup_info {
        push_dword_binding(sgprs_after_id_z(k), Binding::WorkgroupInfo)
    } else {
        sgprs_after_id_z(k)
    }
}

pub open spec fn sgprs_after_wave_offset(k: KernelCode) -> (Seq<Binding>, Seq<Reg>) {
    if k.pgm_props.enable_sgpr_private_segment_wavefront_offset {
        push_dword_binding(sgprs_after_info(k), Binding::PrivateSegmentWavefrontOffset)
    } else {
        sgprs_after_info(k)
    }
}

/// The SGPR file and bindings the hardware sets up before the first
/// instruction, in the architected order.  The grid workgroup count
/// registers past X are only set up while fewer than 16 SGPRs are
/// used.
pub open spec fn initial_sgprs_spec(k: KernelCode) -> (Seq<Binding>, Seq<Reg>) {
    sgprs_after_wave_offset(k)
}

/// The VGPR file holds one work-item id per enabled dimension.
pub open spec fn initial_vgprs_spec(k: KernelCode, t: (Seq<Binding>, Seq<Reg>)) -> (
    Seq<Binding>,
    Seq<Reg>,
) {
    match k.pgm_props.enable_vgpr_workitem_id {
        VGPRWorkItemId::X => {
            let t = (t.0, Seq::<Reg>::empty());
            push_dword_binding(t, Binding::WorkitemIdX)
        },
        VGPRWorkItemId::XY => {
            let t = (t.0, Seq::<Reg>::empty());
            let t = push_dword_binding(t, Binding::WorkitemIdX);
            push_dword_binding(t, Binding::WorkitemIdY)
        },
        VGPRWorkItemId::XYZ => {
            let t = (t.0, Seq::<Reg>::empty());
            let t = push_dword_binding(t, Binding::WorkitemIdX);
            let t = push_dword_binding(t, Binding::WorkitemIdY);
            push_dword_binding(t, Binding::WorkitemIdZ)
        },
    }
}

/// The complete machine state at kernel entry.
pub open spec fn initial_state_spec(k: KernelCode) -> StateView {
    let s = initial_sgprs_spec(k);
    let v = initial_vgprs_spec(k, (s.0, Seq::<Reg>::empty()));
    StateView {
        sgprs: s.1,
        vgprs: v.1,
        bindings: v.0,
        variables: Seq::empty(),
        scc: None,
        vcc: None,
    }
}

#[verifier::rlimit(100)]
fn setup_sgprs_head(kcode: &KernelCode, bindings: &mut Vec<Binding>, sgprs: &mut Vec<Reg>)
    requires
        old(bindings)@.len() == 0,
        old(sgprs)@.len() == 0,
    ensures
        (final(bindings)@, final(sgprs)@) == sgprs_after_count_x(*kcode),
{
    proof {
        assert(old(bindings)@ =~= Seq::<Binding>::empty());
        assert(old(sgprs)@ =~= Seq::<Reg>::empty());
    }
    if kcode.code_props.enable_sgpr_private_segment_buffer {
        bindings.push(Binding::PrivateSegmentBuffer);
        let b = bindings.len() - 1;
        sgprs.push(Reg(b, 0));
        sgprs.push(Reg(b, 1));
        sgprs.push(Reg(b, 2));
        sgprs.push(Reg(b, 3));
    }
    proof {
        assert((bindings@, sgprs@) == sgprs_after_psb(*kcode));
    }
    if kcode.code_props.enable_sgpr_dispatch_ptr {
        bindings.push(Binding::PtrDispatchPacket);
        let b = bindings.len() - 1;
        sgprs.push(Reg(b, 0));
        sgprs.push(Reg(b, 1));
    }
    proof {
        assert((bindings@, sgprs@) == sgprs_after_dispatch_ptr(*kcode));
    }
    if kcode.code_props.enable_sgpr_queue_ptr {
        bindings.push(Binding::PtrQueue);
        let b = bindings.len() - 1;
        sgprs.push(Reg(b, 0));
        sgprs.push(Reg(b, 1));
    }
    proof {
        assert((bindings@, sgprs@) == sgprs_after_queue_ptr(*kcode));
    }
    if kcode.code_props.enable_sgpr_kernarg_segment_ptr {
        bindings.push(Binding::PtrKernarg);
        let b = bindings.len() - 1;
        sgprs.push(Reg(b, 0));
        sgprs.push(Reg(b, 1));
    }
    proof {
        assert((bindings@, sgprs@) == sgprs_after_kernarg_ptr(*kcode));
    }
    if kcode.code_props.enable_sgpr_dispatch_id {
        bindings.push(Binding::DispatchId);
        let b = bindings.len() - 1;
        sgprs.push(Reg(b, 0));
        sgprs.push(Reg(b, 1));
    }
    proof {
        assert((bindings@, sgprs@) == sgprs_after_dispatch_id(*kcode));
    }
    if kcode.code_props.enable_sgpr_flat_scratch_init {
        bindings.push(Binding::FlatScratchInit);
        let b = bindings.len() - 1;
        sgprs.push(Reg(b, 0));
        sgprs.push(Reg(b, 1));
    }
    proof {
        assert((bindings@, sgprs@) == sgprs_after_flat_scratch(*kcode));
    }
    if kcode.code_props.enable_sgpr_grid_workgroup_count_x {
        bindings.push(Binding::WorkgroupCountX);
        sgprs.push(Reg(bindings.len() - 1, 0));
    }
    proof {
        assert((bindings@, sgprs@) == sgprs_after_count_x(*kcode));
    }
}

#[verifier::rlimit(100)]
fn setup_sgprs_mid(kcode: &KernelCode, bindings: &mut Vec<Binding>, sgprs: &mut Vec<Reg>)
    requires
        (old(bindings)@, old(sgprs)@) == sgprs_after_count_x(*kcode),
    ensures
        (final(bindings)@, final(sgprs)@) == sgprs_after_id_x(*kcode),
{
    if kcode.code_props.enable_sgpr_grid_workgroup_count_y && sgprs.len() < 16 {
        bindings.push(Binding::WorkgroupCountY);
        sgprs.push(Reg(bindings.len() - 1, 0));
    }
    proof {
        assert((bindings@, sgprs@) == sgprs_after_count_y(*kcode));
    }
    if kcode.code_props.enable_sgpr_grid_workgroup_count_z && sgprs.len() < 16 {
        bindings.push(Binding::WorkgroupCountZ);
        sgprs.push(Reg(bindings.len() - 1, 0));
    }
    proof {
        assert((bindings@, sgprs@) == sgprs_after_count_z(*kcode));
    }
    if kcode.pgm_props.enable_sgpr_workgroup_id_x {
        bindings.push(Binding::WorkgroupIdX);
        sgprs.push(Reg(bindings.len() - 1, 0));
    }
    proof {
        assert((bindings@, sgprs@) == sgprs_after_id_x(*kcode));
    }
}

#[verifier::rlimit(100)]
fn setup_sgprs_tail(kcode: &KernelCode, bindings: &mut Vec<Binding>, sgprs: &mut Vec<Reg>)
    requires
        (old(bindings)@, old(sgprs)@) == sgprs_after_id_x(*kcode),
    ensures
        (final(bindings)@, final(sgprs)@) == initial_sgprs_spec(*kcode),
{
    if kcode.pgm_props.enable_sgpr_workgroup_id_y {
        bindings.push(Binding::WorkgroupIdY);
        sgprs.push(Reg(bindings.len() - 1, 0));
    }
    proof {
        assert((bindings@, sgprs@) == sgprs_after_id_y(*kcode));
    }
    if kcode.pgm_props.enable_sgpr_workgroup_id_z {
        bindings.push(Binding::WorkgroupIdZ);
        sgprs.push(Reg(bindings.len() - 1, 0));
    }
    proof {
        assert((bindings@, sgprs@) == sgprs_after_id_z(*kcode));
    }
    if kcode.pgm_props.enable_sgpr_workgroup_info {
        bindings.push(Binding::WorkgroupInfo);
        sgprs.push(Reg(bindings.len() - 1, 0));
    }
    proof {
        assert((bindings@, sgprs@) == sgprs_after_info(*kcode));
    }
    if kcode.pgm_props.enable_sgpr_private_segment_wavefront_offset {
        bindings.push(Binding::PrivateSegmentWavefrontOffset);
        sgprs.push(Reg(bindings.len() - 1, 0));
    }
    proof {
        assert((bindings@, sgprs@) == sgprs_after_wave_offset(*kcode));
    }

}

fn setup_vgprs(kcode: &KernelCode, bindings: &mut Vec<Binding>, vgprs: &mut Vec<Reg>)
    requires
        old(vgprs)@.len() == 0,
    ensures
        (final(bindings)@, final(vgprs)@) == initial_vgprs_spec(
            *kcode,
            (old(bindings)@, Seq::<Reg>::empty()),
        ),
{
    proof {
        assert(old(vgprs)@ =~= Seq::<Reg>::empty());
    }
    match kcode.pgm_props.enable_vgpr_workitem_id {
        VGPRWorkItemId::X => {
            bindings.push(Binding::WorkitemIdX);
            vgprs.push(Reg(bindings.len() - 1, 0));
        },
        VGPRWorkItemId::XY => {
            bindings.push(Binding::WorkitemIdX);
            vgprs.push(Reg(bindings.len() - 1, 0));
            bindings.push(Binding::WorkitemIdY);
            vgprs.push(Reg(bindings.len() - 1, 0));
        },
        VGPRWorkItemId::XYZ => {
            bindings.push(Binding::WorkitemIdX);
            vgprs.push(Reg(bindings.len() - 1, 0));
            bindings.push(Binding::WorkitemIdY);
            vgprs.push(Reg(bindings.len() - 1, 0));
            bindings.push(Binding::WorkitemIdZ);
            vgprs.push(Reg(bindings.len() - 1, 0));
        },
    }

}

/// Builds the entry state a kernel-code descriptor asks for.
#[verifier::rlimit(100)]
pub fn initial_state(kcode: &KernelCode) -> (r: ExecutionState)
    ensures
        r@ == initial_state_spec(*kcode),
{
    let mut sgprs: Vec<Reg> = Vec::new();
    let mut bindings: Vec<Binding> = Vec::new();
    setup_sgprs_head(kcode, &mut bindings, &mut sgprs);
    setup_sgprs_mid(kcode, &mut bindings, &mut sgprs);
    setup_sgprs_tail(kcode, &mut bindings, &mut sgprs);

    let mut vgprs: Vec<Reg> = Vec::new();
    setup_vgprs(kcode, &mut bindings, &mut vgprs);

    let r = ExecutionState {
        sgprs,
        vgprs,
        bindings,
        variables: Vec::new(),
        scc: None,
        vcc: None,
    };
    proof {
        assert(r@.variables =~= initial_state_spec(*kcode).variables);
        assert(r@ == initial_state_spec(*kcode));
    }
    r
}

// ------------------------------------------------------------------
// The architected register names, for reporting.
// ------------------------------------------------------------------

pub open spec fn names_after_psb(k: KernelCode) -> Seq<&'static str> {
    if k.code_props.enable_sgpr_private_segment_buffer {
        Seq::<&'static str>::empty() + seq!["", "", "", ""]
    } else {
        Seq::<&'static str>::empty()
    }
}

pub open spec fn names_after_dispatch_ptr(k: KernelCode) -> Seq<&'static str> {
    if k.code_props.enable_sgpr_dispatch_ptr {
        names_after_psb(k) + seq!["AQL_DISPATCH_PACKET_LO", "AQL_DISPATCH_PACKET_HI"]
    } else {
        names_after_psb(k)
    }
}

pub open spec fn names_after_queue_ptr(k: KernelCode) -> Seq<&'static str> {
    if k.code_props.enable_sgpr_queue_ptr {
        names_after_dispatch_ptr(k) + seq!["AMD_QUEUE_T_LO", "AMD_QUEUE_T_HI"]
    } else {
        names_after_dispatch_ptr(k)
    }
}

pub open spec fn names_after_kernarg_ptr(k: KernelCode) -> Seq<&'static str> {
    if k.code_props.enable_sgpr_kernarg_segment_ptr {
        names_after_queue_ptr(k) + seq!["KERNARG_LO", "KERNARG_HI"]
    } else {
        names_after_queue_ptr(k)
    }
}

pub open spec fn names_after_dispatch_id(k: KernelCode) -> Seq<&'static str> {
    if k.code_props.enable_sgpr_dispatch_id {
        names_after_kernarg_ptr(k) + seq!["DISPATCH_ID_LO", "DISPATCH_ID_HI"]
    } else {
        names_after_kernarg_ptr(k)
    }
}

pub open spec fn names_after_flat_scratch(k: KernelCode) -> Seq<&'static str> {
    if k.code_props.enable_sgpr_flat_scratch_init {
        names_after_dispatch_id(k) + seq!["FLAT_SCRATCH_INIT_LO", "FLAT_SCRATCH_INIT_HI"]
    } else {
        names_after_dispatch_id(k)
    }
}

pub open spec fn names_after_count_x(k: KernelCode) -> Seq<&'static str> {
    if k.code_props.enable_sgpr_grid_workgroup_count_x {
        names_after_flat_scratch(k) + seq!["WORKGROUP_COUNT_X"]
    } else {
        names_after_flat_scratch(k)
    }
}

pub open spec fn names_after_count_y(k: KernelCode) -> Seq<&'static str> {
    if k.code_props.enable_sgpr_grid_workgroup_count_y && names_after_count_x(k).len() < 16 {
        names_after_count_x(k) + seq!["WORKGROUP_COUNT_Y"]
    } else {
        names_after_count_x(k)
    }
}

pub open spec fn names_after_count_z(k: KernelCode) -> Seq<&'static str> {
    if k.code_props.enable_sgpr_grid_workgroup_count_z && names_after_count_y(k).len() < 16 {
        names_after_count_y(k) + seq!["WORKGROUP_COUNT_Z"]
    } else {
        names_after_count_y(k)
    }
}

pub open spec fn names_after_id_x(k: KernelCode) -> Seq<&'static str> {
    if k.pgm_props.enable_sgpr_workgroup_id_x {
        names_after_count_z(k) + seq!["WORKGROUP_ID_X"]
    } else {
        names_after_count_z(k)
    }
}

pub open spec fn names_after_id_y(k: KernelCode) -> Seq<&'static str> {
    if k.pgm_props.enable_sgpr_workgroup_id_y {
        names_after_id_x(k) + seq!["WORKGROUP_ID_Y"]
    } else {
        names_after_id_x(k)
    }
}

pub open spec fn names_after_id_z(k: KernelCode) -> Seq<&'static str> {
    if k.pgm_props.enable_sgpr_workgroup_id_z {
        names_after_id_y(k) + seq!["WORKGROUP_ID_Z"]
    } else {
        names_after_id_y(k)
    }
}

pub open spec fn names_after_info(k: KernelCode) -> Seq<&'static str> {
    if k.pgm_props.enable_sgpr_workgroup_info {
        names_after_id_z(k) + seq!["WORKGROUP_INFO"]
    } else {
        names_after_id_z(k)
    }
}

pub open spec fn names_after_wave_offset(k: KernelCode) -> Seq<&'static str> {
    if k.pgm_props.enable_sgpr_private_segment_wavefront_offset {
        names_after_info(k) + seq!["PRIVATE_SEGMENT_WAVEFRONT_OFFSET"]
    } else {
        names_after_info(k)
    }
}

/// The names of the initial SGPRs, in set-up order.
pub open spec fn initial_sgpr_names_spec(k: KernelCode) -> Seq<&'static str> {
    names_after_wave_offset(k)
}

/// The names of the initial VGPRs.
pub open spec fn initial_vgpr_names_spec(k: KernelCode) -> Seq<&'static str> {
    match k.pgm_props.enable_vgpr_workitem_id {
        VGPRWorkItemId::X => seq!["WORKITEM_ID_X"],
        VGPRWorkItemId::XY => seq!["WORKITEM_ID_X", "WORKITEM_ID_Y"],
        VGPRWorkItemId::XYZ => seq!["WORKITEM_ID_X", "WORKITEM_ID_Y", "WORKITEM_ID_Z"],
    }
}

#[verifier::rlimit(100)]
fn setup_names_head(kcode: &KernelCode, sgprs: &mut Vec<&'static str>)
    requires
        old(sgprs)@.len() == 0,
    ensures
        final(sgprs)@ == names_after_count_x(*kcode),
{
    proof {
        assert(old(sgprs)@ =~= Seq::<&'static str>::empty());
    }
    if kcode.code_props.enable_sgpr_private_segment_buffer {
        sgprs.push("");
        sgprs.push("");
        sgprs.push("");
        sgprs.push("");
    }
    proof {
        assert(sgprs@ =~= names_after_psb(*kcode));
    }
    if kcode.code_props.enable_sgpr_dispatch_ptr {
        sgprs.push("AQL_DISPATCH_PACKET_LO");
        sgprs.push("AQL_DISPATCH_PACKET_HI");
    }
    proof {
        assert(sgprs@ =~= names_after_dispatch_ptr(*kcode));
    }
    if kcode.code_props.enable_sgpr_queue_ptr {
        sgprs.push("AMD_QUEUE_T_LO");
        sgprs.push("AMD_QUEUE_T_HI");
    }
    proof {
        assert(sgprs@ =~= names_after_queue_ptr(*kcode));
    }
    if kcode.code_props.enable_sgpr_kernarg_segment_ptr {
        sgprs.push("KERNARG_LO");
        sgprs.push("KERNARG_HI");
    }
    proof {
        assert(sgprs@ =~= names_after_kernarg_ptr(*kcode));
    }
    if kcode.code_props.enable_sgpr_dispatch_id {
        sgprs.push("DISPATCH_ID_LO");
        sgprs.push("DISPATCH_ID_HI");
    }
    proof {
        assert(sgprs@ =~= names_after_dispatch_id(*kcode));
    }
    if kcode.code_props.enable_sgpr_flat_scratch_init {
        sgprs.push("FLAT_SCRATCH_INIT_LO");
        sgprs.push("FLAT_SCRATCH_INIT_HI");
    }
    proof {
        assert(sgprs@ =~= names_after_flat_scratch(*kcode));
    }
    if kcode.code_props.enable_sgpr_grid_workgroup_count_x {
        sgprs.push("WORKGROUP_COUNT_X");
    }
    proof {
        assert(sgprs@ =~= names_after_count_x(*kcode));
    }
}

#[verifier::rlimit(100)]
fn setup_names_tail(kcode: &KernelCode, sgprs: &mut Vec<&'static str>)
    requires
        old(sgprs)@ == names_after_count_x(*kcode),
    ensures
        final(sgprs)@ == initial_sgpr_names_spec(*kcode),
{
    if kcode.code_props.enable_sgpr_grid_workgroup_count_y && sgprs.len() < 16 {
        sgprs.push("WORKGROUP_COUNT_Y");
    }
    proof {
        assert(sgprs@ =~= names_after_count_y(*kcode));
    }
    if kcode.code_props.enable_sgpr_grid_workgroup_count_z && sgprs.len() < 16 {
        sgprs.push("WORKGROUP_COUNT_Z");
    }
    proof {
        assert(sgprs@ =~= names_after_count_z(*kcode));
    }
    if kcode.pgm_props.enable_sgpr_workgroup_id_x {
        sgprs.push("WORKGROUP_ID_X");
    }
    proof {
        assert(sgprs@ =~= names_after_id_x(*kcode));
    }
    if kcode.pgm_props.enable_sgpr_workgroup_id_y {
        sgprs.push("WORKGROUP_ID_Y");
    }
    proof {
        assert(sgprs@ =~= names_after_id_y(*kcode));
    }
    if kcode.pgm_props.enable_sgpr_workgroup_id_z {
        sgprs.push("WORKGROUP_ID_Z");
    }
    proof {
        assert(sgprs@ =~= names_after_id_z(*kcode));
    }
    if kcode.pgm_props.enable_sgpr_workgroup_info {
        sgprs.push("WORKGROUP_INFO");
    }
    proof {
        assert(sgprs@ =~= names_after_info(*kcode));
    }
    if kcode.pgm_props.enable_sgpr_private_segment_wavefront_offset {
        sgprs.push("PRIVATE_SEGMENT_WAVEFRONT_OFFSET");
    }
    proof {
        assert(sgprs@ =~= names_after_wave_offset(*kcode));
    }
}

/// Names of the SGPRs the hardware sets up, in order.
pub fn initial_sgprs(kcode: &KernelCode) -> (r: Vec<&'static str>)
    ensures
        r@ == initial_sgpr_names_spec(*kcode),
{
    let mut sgprs: Vec<&'static str> = Vec::new();
    setup_names_head(kcode, &mut sgprs);
    setup_names_tail(kcode, &mut sgprs);
    sgprs
}

/// Names of the VGPRs the hardware sets up, in order.
pub fn initial_vgprs(kcode: &KernelCode) -> (r: Vec<&'static str>)
    ensures
        r@ == initial_vgpr_names_spec(*kcode),
{
    let mut vgprs: Vec<&'static str> = Vec::new();
    match kcode.pgm_props.enable_vgpr_workitem_id {
        VGPRWorkItemId::X => {
            vgprs.push("WORKITEM_ID_X");
        },
        VGPRWorkItemId::XY => {
            vgprs.push("WORKITEM_ID_X");
            vgprs.push("WORKITEM_ID_Y");
        },
        VGPRWorkItemId::XYZ => {
            vgprs.push("WORKITEM_ID_X");
            vgprs.push("WORKITEM_ID_Y");
            vgprs.push("WORKITEM_ID_Z");
        },
    }
    proof {
        assert(vgprs@ =~= initial_vgpr_names_spec(*kcode));
    }
    vgprs
}

} // verus!
