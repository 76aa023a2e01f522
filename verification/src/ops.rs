use vstd::prelude::*;

use crate::assembly::{ovs, Operand, OperandView};
use crate::error::AnalyzeError;
use crate::state::{
    bindings_evolve, Binding, Condition, DataKind, ExecutionState, Expr, Program, Reg, Statement, StateView,
    REG_UNSET,
};
use crate::text::{str_eq, str_starts_with};
use vstd::string::StrSliceExecFns;

verus! {

// ------------------------------------------------------------------
// Register-file writes.
// ------------------------------------------------------------------

/// Writing slot `i`: existing slots are overwritten; a write past the
/// end pads the file with never-written sentinel slots.
pub open spec fn insert_reg(regs: Seq<Reg>, i: int, r: Reg) -> Seq<Reg> {
    if i < regs.len() {
        regs.update(i, r)
    } else {
        regs + Seq::new((i - regs.len()) as nat, |j: int| Reg(REG_UNSET, 0)).push(r)
    }
}

fn insert_into(regs: &mut Vec<Reg>, i: usize, r: Reg)
    ensures
        final(regs)@ == insert_reg(old(regs)@, i as int, r),
{
    if i < regs.len() {
        regs[i] = r;
        proof {
            assert(regs@ =~= insert_reg(old(regs)@, i as int, r));
        }
    } else {
        while regs.len() < i
            invariant
                old(regs)@.len() <= regs@.len() <= i,
                regs@ == old(regs)@ + Seq::new(
                    (regs@.len() - old(regs)@.len()) as nat,
                    |j: int| Reg(REG_UNSET, 0),
                ),
            decreases i - regs@.len(),
        {
            let ghost pre = regs@;
            regs.push(Reg(REG_UNSET, 0));
            proof {
                assert(regs@ =~= old(regs)@ + Seq::new(
                    (regs@.len() - old(regs)@.len()) as nat,
                    |j: int| Reg(REG_UNSET, 0),
                ));
            }
        }
        regs.push(r);
        proof {
            assert(regs@ =~= insert_reg(old(regs)@, i as int, r));
        }
    }
}

// ------------------------------------------------------------------
// Operand resolution.
// ------------------------------------------------------------------

/// What a plain operand denotes: a register slot's current contents,
/// or a fresh literal binding (signed or unsigned by the instruction's
/// type hint).  Register reads past the file are unresolvable.
pub open spec fn op_reg_spec(s: StateView, op: OperandView, signed: bool) -> Option<
    (StateView, Reg),
> {
    match op {
        OperandView::SReg(i) => if i < s.sgprs.len() {
            Some((s, s.sgprs[i as int]))
        } else {
            None
        },
        OperandView::VReg(i) => if i < s.vgprs.len() {
            Some((s, s.vgprs[i as int]))
        } else {
            None
        },
        OperandView::Lit(c) => {
            let b = if signed {
                Binding::I32(c as i32)
            } else {
                Binding::U32(c)
            };
            Some(
                (
                    StateView { bindings: s.bindings.push(b), ..s },
                    Reg(s.bindings.len() as usize, 0),
                ),
            )
        },
        _ => None,
    }
}

fn operand_reg(st: &mut ExecutionState, op: &Operand, signed: bool) -> (r: Option<Reg>)
    ensures
        match op_reg_spec(old(st)@, op@, signed) {
            Some((s2, reg)) => r == Some(reg) && final(st)@ == s2,
            None => r is None && final(st)@ == old(st)@,
        },
{
    match op {
        Operand::SReg(i) => {
            if *i < st.sgprs.len() {
                Some(st.sgprs[*i])
            } else {
                None
            }
        },
        Operand::VReg(i) => {
            if *i < st.vgprs.len() {
                Some(st.vgprs[*i])
            } else {
                None
            }
        },
        Operand::Lit(c) => {
            let idx = st.bindings.len();
            if signed {
                st.bindings.push(Binding::I32(*c as i32));
            } else {
                st.bindings.push(Binding::U32(*c));
            }
            Some(Reg(idx, 0))
        },
        _ => None,
    }
}

/// An operand as a whole-binding index: a dword read out of a
/// quadword-or-wider binding, or out of any non-zero dword, goes
/// through a fresh `DwordElement` projection.
pub open spec fn op_binding_dw_spec(s: StateView, op: OperandView, signed: bool) -> Option<
    (StateView, usize),
> {
    match op_reg_spec(s, op, signed) {
        None => None,
        Some((s1, reg)) => {
            let of = reg.0;
            let dword = reg.1;
            if of < s1.bindings.len() {
                if (s1.bindings[of as int] matches Binding::Deref {
                    kind: DataKind::DQword,
                    ..
                }) || dword != 0 {
                    Some(
                        (
                            StateView {
                                bindings: s1.bindings.push(Binding::DwordElement { of, dword }),
                                ..s1
                            },
                            s1.bindings.len() as usize,
                        ),
                    )
                } else {
                    Some((s1, of))
                }
            } else {
                None
            }
        },
    }
}

fn operand_binding_dw(st: &mut ExecutionState, op: &Operand, signed: bool) -> (r: Option<usize>)
    ensures
        match op_binding_dw_spec(old(st)@, op@, signed) {
            Some((s2, idx)) => r == Some(idx) && final(st)@ == s2 && idx < s2.bindings.len(),
            None => r is None && bindings_evolve(old(st)@.bindings, final(st)@.bindings)
                && final(st)@.sgprs == old(st)@.sgprs && final(st)@.vgprs == old(st)@.vgprs
                && final(st)@.variables == old(st)@.variables && final(st)@.scc == old(st)@.scc
                && final(st)@.vcc == old(st)@.vcc,
        },
{
    let reg = match operand_reg(st, op, signed) {
        Some(reg) => reg,
        None => {
            return None;
        },
    };
    let Reg(of, dword) = reg;
    if of >= st.bindings.len() {
        return None;
    }
    let is_dq_deref = match st.bindings[of] {
        Binding::Deref { kind: DataKind::DQword, .. } => true,
        _ => false,
    };
    if is_dq_deref || dword != 0 {
        let idx = st.bindings.len();
        st.bindings.push(Binding::DwordElement { of, dword });
        Some(idx)
    } else {
        Some(of)
    }
}

/// A valid pointer pair: two consecutive dwords of one binding.
pub open spec fn ptr_pair_spec(lo: Reg, hi: Reg) -> Option<usize> {
    if lo.1 == 0 && hi.1 == 1 && lo.0 == hi.0 {
        Some(lo.0)
    } else {
        None
    }
}

/// The binding a load's address operand points at: the operand must be
/// a register range whose first two slots hold dwords 0 and 1 of the
/// same binding.
pub open spec fn load_ptr_spec(s: StateView, op: OperandView) -> Option<usize> {
    match op {
        OperandView::SRegs(lo, hi) => if lo < s.sgprs.len() && hi < s.sgprs.len() {
            ptr_pair_spec(s.sgprs[lo as int], s.sgprs[hi as int])
        } else {
            None
        },
        OperandView::VRegs(lo, hi) => if lo < s.vgprs.len() && hi < s.vgprs.len() {
            ptr_pair_spec(s.vgprs[lo as int], s.vgprs[hi as int])
        } else {
            None
        },
        _ => None,
    }
}

/// Pointer validity: a resolved pointer always came from two register
/// slots holding consecutive dwords (0 and 1) of one shared binding.
pub proof fn lemma_load_ptr_validity(s: StateView, op: OperandView, p: usize)
    requires
        load_ptr_spec(s, op) == Some(p),
    ensures
        match op {
            OperandView::SRegs(lo, hi) => lo < s.sgprs.len() && hi < s.sgprs.len()
                && s.sgprs[lo as int] == Reg(p, 0) && s.sgprs[hi as int] == Reg(p, 1),
            OperandView::VRegs(lo, hi) => lo < s.vgprs.len() && hi < s.vgprs.len()
                && s.vgprs[lo as int] == Reg(p, 0) && s.vgprs[hi as int] == Reg(p, 1),
            _ => false,
        },
{
}

fn load_ptr_binding(st: &ExecutionState, source: &Operand) -> (r: Option<usize>)
    ensures
        r == load_ptr_spec(st@, source@),
{
    let (lo, hi) = match source {
        Operand::SRegs(lo, hi) => {
            if *lo < st.sgprs.len() && *hi < st.sgprs.len() {
                (st.sgprs[*lo], st.sgprs[*hi])
            } else {
                return None;
            }
        },
        Operand::VRegs(lo, hi) => {
            if *lo < st.vgprs.len() && *hi < st.vgprs.len() {
                (st.vgprs[*lo], st.vgprs[*hi])
            } else {
                return None;
            }
        },
        _ => {
            return None;
        },
    };
    if lo.1 == 0 && hi.1 == 1 && lo.0 == hi.0 {
        Some(lo.0)
    } else {
        None
    }
}

// ------------------------------------------------------------------
// Scalar and global loads.
// ------------------------------------------------------------------

/// A scalar load `s_load_dword{,x2,x4} dst, ptr, offset`: one new
/// dereference binding of the matching width, written across the
/// destination registers dword by dword.
pub open spec fn s_load_spec(s: StateView, instr: String, ops: Seq<OperandView>) -> Result<
    StateView,
    AnalyzeError,
> {
    let m = instr@;
    if ops.len() != 3 {
        Err(AnalyzeError::UnsupportedMnemonic(instr))
    } else {
        match ops[2] {
            OperandView::Lit(off) => match load_ptr_spec(s, ops[1]) {
                Some(ptr) => {
                    let idx = s.bindings.len() as usize;
                    if m == "s_load_dword"@ {
                        match ops[0] {
                            OperandView::SReg(dst) => Ok(
                                StateView {
                                    bindings: s.bindings.push(
                                        Binding::Deref {
                                            ptr,
                                            offset: off as i32,
                                            kind: DataKind::Dword,
                                        },
                                    ),
                                    sgprs: insert_reg(s.sgprs, dst as int, Reg(idx, 0)),
                                    ..s
                                },
                            ),
                            _ => Err(AnalyzeError::UnsupportedMnemonic(instr)),
                        }
                    } else if m == "s_load_dwordx2"@ {
                        match ops[0] {
                            OperandView::SRegs(dst_lo, _) => if dst_lo + 1 <= usize::MAX {
                                Ok(
                                    StateView {
                                        bindings: s.bindings.push(
                                            Binding::Deref {
                                                ptr,
                                                offset: off as i32,
                                                kind: DataKind::Qword,
                                            },
                                        ),
                                        sgprs: insert_reg(
                                            insert_reg(s.sgprs, dst_lo as int, Reg(idx, 0)),
                                            dst_lo + 1,
                                            Reg(idx, 1),
                                        ),
                                        ..s
                                    },
                                )
                            } else {
                                Err(AnalyzeError::UnsupportedMnemonic(instr))
                            },
                            _ => Err(AnalyzeError::UnsupportedMnemonic(instr)),
                        }
                    } else if m == "s_load_dwordx4"@ {
                        match ops[0] {
                            OperandView::SRegs(dst_lo, _) => if dst_lo + 3 <= usize::MAX {
                                Ok(
                                    StateView {
                                        bindings: s.bindings.push(
                                            Binding::Deref {
                                                ptr,
                                                offset: off as i32,
                                                kind: DataKind::DQword,
                                            },
                                        ),
                                        sgprs: insert_reg(
                                            insert_reg(
                                                insert_reg(
                                                    insert_reg(
                                                        s.sgprs,
                                                        dst_lo as int,
                                                        Reg(idx, 0),
                                                    ),
                                                    dst_lo + 1,
                                                    Reg(idx, 1),
                                                ),
                                                dst_lo + 2,
                                                Reg(idx, 2),
                                            ),
                                            dst_lo + 3,
                                            Reg(idx, 3),
                                        ),
                                        ..s
                                    },
                                )
                            } else {
                                Err(AnalyzeError::UnsupportedMnemonic(instr))
                            },
                            _ => Err(AnalyzeError::UnsupportedMnemonic(instr)),
                        }
                    } else {
                        Err(AnalyzeError::UnsupportedMnemonic(instr))
                    }
                },
                None => Err(AnalyzeError::UnsupportedMnemonic(instr)),
            },
            _ => Err(AnalyzeError::UnsupportedMnemonic(instr)),
        }
    }
}

pub fn eval_s_load(st: &mut ExecutionState, instr: &String, ops: &Vec<Operand>) -> (r: Result<
    (),
    AnalyzeError,
>)
    ensures
        match s_load_spec(old(st)@, *instr, ovs(ops@)) {
            Ok(s2) => r is Ok && final(st)@ == s2,
            Err(e) => r == Err::<(), AnalyzeError>(e) && final(st)@ == old(st)@,
        },
        bindings_evolve(old(st)@.bindings, final(st)@.bindings),
{
    let unsup = AnalyzeError::UnsupportedMnemonic(instr.clone());
    if ops.len() != 3 {
        return Err(unsup);
    }
    let off: u32 = match &ops[2] {
        Operand::Lit(off) => *off,
        _ => {
            return Err(unsup);
        },
    };
    let ptr: usize = match load_ptr_binding(st, &ops[1]) {
        Some(p) => p,
        None => {
            return Err(unsup);
        },
    };
    let idx = st.bindings.len();
    if str_eq(instr.as_str(), "s_load_dword") {
        match &ops[0] {
            Operand::SReg(dst) => {
                st.bindings.push(
                    Binding::Deref { ptr, offset: off as i32, kind: DataKind::Dword },
                );
                insert_into(&mut st.sgprs, *dst, Reg(idx, 0));
                Ok(())
            },
            _ => Err(unsup),
        }
    } else if str_eq(instr.as_str(), "s_load_dwordx2") {
        match &ops[0] {
            Operand::SRegs(dst_lo, _) => {
                if *dst_lo > usize::MAX - 1 {
                    return Err(unsup);
                }
                st.bindings.push(
                    Binding::Deref { ptr, offset: off as i32, kind: DataKind::Qword },
                );
                insert_into(&mut st.sgprs, *dst_lo, Reg(idx, 0));
                insert_into(&mut st.sgprs, *dst_lo + 1, Reg(idx, 1));
                Ok(())
            },
            _ => Err(unsup),
        }
    } else if str_eq(instr.as_str(), "s_load_dwordx4") {
        match &ops[0] {
            Operand::SRegs(dst_lo, _) => {
                if *dst_lo > usize::MAX - 3 {
                    return Err(unsup);
                }
                st.bindings.push(
                    Binding::Deref { ptr, offset: off as i32, kind: DataKind::DQword },
                );
                insert_into(&mut st.sgprs, *dst_lo, Reg(idx, 0));
                insert_into(&mut st.sgprs, *dst_lo + 1, Reg(idx, 1));
                insert_into(&mut st.sgprs, *dst_lo + 2, Reg(idx, 2));
                insert_into(&mut st.sgprs, *dst_lo + 3, Reg(idx, 3));
                Ok(())
            },
            _ => Err(unsup),
        }
    } else {
        Err(unsup)
    }
}

/// A vector load `global_load_{ushort,dword} dst, ptr, _, [offset]`:
/// one new dereference binding of the suffix's width, written to the
/// destination register.
pub open spec fn global_load_spec(s: StateView, instr: String, ops: Seq<OperandView>) -> Result<
    StateView,
    AnalyzeError,
> {
    let m = instr@;
    if m.len() < 12 {
        Err(AnalyzeError::UnsupportedMnemonic(instr))
    } else {
        let suffix = m.subrange(12, m.len() as int);
        let kind_opt = if suffix == "ushort"@ {
            Some(DataKind::U16)
        } else if suffix == "dword"@ {
            Some(DataKind::Dword)
        } else {
            None
        };
        match kind_opt {
            None => Err(AnalyzeError::UnsupportedMnemonic(instr)),
            Some(kind) => {
                let off_opt = if ops.len() == 4 {
                    match ops[3] {
                        OperandView::Offset(off) => Some(off),
                        _ => None,
                    }
                } else if ops.len() == 3 {
                    Some(0i32)
                } else {
                    None
                };
                match off_opt {
                    None => Err(AnalyzeError::UnsupportedMnemonic(instr)),
                    Some(off) => match load_ptr_spec(s, ops[1]) {
                        None => Err(AnalyzeError::UnsupportedMnemonic(instr)),
                        Some(ptr) => match ops[0] {
                            OperandView::VReg(dst) => Ok(
                                StateView {
                                    bindings: s.bindings.push(
                                        Binding::Deref { ptr, offset: off, kind },
                                    ),
                                    vgprs: insert_reg(
                                        s.vgprs,
                                        dst as int,
                                        Reg(s.bindings.len() as usize, 0),
                                    ),
                                    ..s
                                },
                            ),
                            _ => Err(AnalyzeError::UnsupportedMnemonic(instr)),
                        },
                    },
                }
            },
        }
    }
}

pub fn eval_global_load(st: &mut ExecutionState, instr: &String, ops: &Vec<Operand>) -> (r: Result<
    (),
    AnalyzeError,
>)
    ensures
        match global_load_spec(old(st)@, *instr, ovs(ops@)) {
            Ok(s2) => r is Ok && final(st)@ == s2,
            Err(e) => r == Err::<(), AnalyzeError>(e) && final(st)@ == old(st)@,
        },
        bindings_evolve(old(st)@.bindings, final(st)@.bindings),
{
    let unsup = AnalyzeError::UnsupportedMnemonic(instr.clone());
    let n = instr.as_str().unicode_len();
    if n < 12 {
        return Err(unsup);
    }
    let suffix = instr.as_str().substring_char(12, n);
    let kind: DataKind = if str_eq(suffix, "ushort") {
        DataKind::U16
    } else if str_eq(suffix, "dword") {
        DataKind::Dword
    } else {
        return Err(unsup);
    };
    let off: i32 = if ops.len() == 4 {
        match &ops[3] {
            Operand::Offset(off) => *off,
            _ => {
                return Err(unsup);
            },
        }
    } else if ops.len() == 3 {
        0
    } else {
        return Err(unsup);
    };
    let ptr: usize = match load_ptr_binding(st, &ops[1]) {
        Some(p) => p,
        None => {
            return Err(unsup);
        },
    };
    match &ops[0] {
        Operand::VReg(dst) => {
            let idx = st.bindings.len();
            st.bindings.push(Binding::Deref { ptr, offset: off, kind });
            insert_into(&mut st.vgprs, *dst, Reg(idx, 0));
            Ok(())
        },
        _ => Err(unsup),
    }
}

/// A `global_store_dword addr, data, _`: emits a store statement when
/// the address registers hold consecutive dwords of one binding, and
/// does nothing otherwise.
pub open spec fn store_spec(
    s: StateView,
    instr: String,
    ops: Seq<OperandView>,
    instr_idx: usize,
) -> Result<(StateView, Seq<(usize, Statement)>), AnalyzeError> {
    if ops.len() == 3 {
        match (ops[0], ops[1]) {
            (OperandView::VRegs(dst_lo, dst_hi), OperandView::VReg(src)) => {
                if dst_lo < s.vgprs.len() && dst_hi < s.vgprs.len() {
                    if s.vgprs[dst_lo as int].0 == s.vgprs[dst_hi as int].0
                        && s.vgprs[dst_lo as int].1 == 0 && s.vgprs[dst_hi as int].1 == 1 {
                        if src < s.vgprs.len() {
                            Ok(
                                (
                                    s,
                                    seq![
                                        (
                                            (instr_idx + 1) as usize,
                                            Statement::Store {
                                                addr: s.vgprs[dst_lo as int].0,
                                                data: s.vgprs[src as int].0,
                                                kind: DataKind::Dword,
                                            },
                                        ),
                                    ],
                                ),
                            )
                        } else {
                            Err(AnalyzeError::UnsupportedMnemonic(instr))
                        }
                    } else {
                        Ok((s, Seq::empty()))
                    }
                } else {
                    Err(AnalyzeError::UnsupportedMnemonic(instr))
                }
            },
            _ => Ok((s, Seq::empty())),
        }
    } else {
        Ok((s, Seq::empty()))
    }
}

fn eval_store(
    st: &mut ExecutionState,
    pgm: &mut Vec<(usize, Statement)>,
    instr_idx: usize,
    instr: &String,
    ops: &Vec<Operand>,
) -> (r: Result<(), AnalyzeError>)
    requires
        instr_idx < usize::MAX,
    ensures
        match store_spec(old(st)@, *instr, ovs(ops@), instr_idx) {
            Ok((s2, stmts)) => r is Ok && final(st)@ == s2 && final(pgm)@ == old(pgm)@ + stmts,
            Err(e) => r == Err::<(), AnalyzeError>(e) && final(st)@ == old(st)@ && final(pgm)@
                == old(pgm)@,
        },
{
    let ghost pgm0 = pgm@;
    if ops.len() == 3 {
        match (&ops[0], &ops[1]) {
            (Operand::VRegs(dst_lo, dst_hi), Operand::VReg(src)) => {
                if *dst_lo < st.vgprs.len() && *dst_hi < st.vgprs.len() {
                    let lo = st.vgprs[*dst_lo];
                    let hi = st.vgprs[*dst_hi];
                    if lo.0 == hi.0 && lo.1 == 0 && hi.1 == 1 {
                        if *src < st.vgprs.len() {
                            let data = st.vgprs[*src].0;
                            pgm.push(
                                (
                                    instr_idx + 1,
                                    Statement::Store { addr: lo.0, data, kind: DataKind::Dword },
                                ),
                            );
                            proof {
                                assert(pgm@ =~= pgm0 + store_spec(
                                    old(st)@,
                                    *instr,
                                    ovs(ops@),
                                    instr_idx,
                                ).unwrap().1);
                            }
                            Ok(())
                        } else {
                            Err(AnalyzeError::UnsupportedMnemonic(instr.clone()))
                        }
                    } else {
                        proof {
                            assert(pgm@ =~= pgm0 + Seq::<(usize, Statement)>::empty());
                        }
                        Ok(())
                    }
                } else {
                    Err(AnalyzeError::UnsupportedMnemonic(instr.clone()))
                }
            },
            _ => {
                proof {
                    assert(pgm@ =~= pgm0 + Seq::<(usize, Statement)>::empty());
                }
                Ok(())
            },
        }
    } else {
        proof {
            assert(pgm@ =~= pgm0 + Seq::<(usize, Statement)>::empty());
        }
        Ok(())
    }
}


// ------------------------------------------------------------------
// Scalar ALU operations.
// ------------------------------------------------------------------

/// A scalar register-only multiply: both sources must be whole-binding
/// scalar registers.
pub open spec fn s_mul_spec(s: StateView, instr: String, ops: Seq<OperandView>) -> Result<
    StateView,
    AnalyzeError,
> {
    if ops.len() == 3 {
        match (ops[0], ops[1], ops[2]) {
            (OperandView::SReg(dst), OperandView::SReg(op1), OperandView::SReg(op2)) => {
                if op1 < s.sgprs.len() && op2 < s.sgprs.len() {
                    let r1 = s.sgprs[op1 as int];
                    let r2 = s.sgprs[op2 as int];
                    if r1.1 == 0 && r2.1 == 0 {
                        Ok(
                            StateView {
                                bindings: s.bindings.push(
                                    Binding::Computed {
                                        expr: Expr::Mul(r1.0, r2.0),
                                        kind: DataKind::Dword,
                                    },
                                ),
                                sgprs: insert_reg(
                                    s.sgprs,
                                    dst as int,
                                    Reg(s.bindings.len() as usize, 0),
                                ),
                                ..s
                            },
                        )
                    } else {
                        Err(AnalyzeError::UnsupportedMnemonic(instr))
                    }
                } else {
                    Err(AnalyzeError::UnsupportedMnemonic(instr))
                }
            },
            _ => Err(AnalyzeError::UnsupportedMnemonic(instr)),
        }
    } else {
        Err(AnalyzeError::UnsupportedMnemonic(instr))
    }
}

/// A scalar add: both sources resolve to whole bindings, signed.
pub open spec fn s_add_spec(s: StateView, instr: String, ops: Seq<OperandView>) -> Result<
    StateView,
    AnalyzeError,
> {
    if ops.len() == 3 {
        match ops[0] {
            OperandView::SReg(dst) => match op_binding_dw_spec(s, ops[1], true) {
                None => Err(AnalyzeError::UnsupportedMnemonic(instr)),
                Some((s1, o1)) => match op_binding_dw_spec(s1, ops[2], true) {
                    None => Err(AnalyzeError::UnsupportedMnemonic(instr)),
                    Some((s2, o2)) => Ok(
                        StateView {
                            bindings: s2.bindings.push(
                                Binding::Computed {
                                    expr: Expr::Add(o1, o2),
                                    kind: DataKind::Dword,
                                },
                            ),
                            sgprs: insert_reg(
                                s2.sgprs,
                                dst as int,
                                Reg(s2.bindings.len() as usize, 0),
                            ),
                            ..s2
                        },
                    ),
                },
            },
            _ => Err(AnalyzeError::UnsupportedMnemonic(instr)),
        }
    } else {
        Err(AnalyzeError::UnsupportedMnemonic(instr))
    }
}

/// A scalar AND: masking with the literal 0xffff is read as a 32-to-16
/// bit downcast, any other mask as a plain dword AND.
pub open spec fn s_and_spec(s: StateView, instr: String, ops: Seq<OperandView>) -> Result<
    StateView,
    AnalyzeError,
> {
    if ops.len() == 3 {
        match ops[0] {
            OperandView::SReg(dst) => match op_binding_dw_spec(s, ops[1], false) {
                None => Err(AnalyzeError::UnsupportedMnemonic(instr)),
                Some((s1, o1)) => match op_binding_dw_spec(s1, ops[2], false) {
                    None => Err(AnalyzeError::UnsupportedMnemonic(instr)),
                    Some((s2, mask)) => {
                        let kind = if s2.bindings[mask as int] == Binding::U32(65535) {
                            DataKind::U16
                        } else {
                            DataKind::Dword
                        };
                        Ok(
                            StateView {
                                bindings: s2.bindings.push(
                                    Binding::Computed { expr: Expr::And(o1, mask), kind },
                                ),
                                sgprs: insert_reg(
                                    s2.sgprs,
                                    dst as int,
                                    Reg(s2.bindings.len() as usize, 0),
                                ),
                                ..s2
                            },
                        )
                    },
                },
            },
            _ => Err(AnalyzeError::UnsupportedMnemonic(instr)),
        }
    } else {
        Err(AnalyzeError::UnsupportedMnemonic(instr))
    }
}

/// A scalar compare: records the comparison of the two whole-binding
/// operands in SCC.
pub open spec fn s_cmp_spec(s: StateView, instr: String, ops: Seq<OperandView>, eql: bool) -> Result<
    StateView,
    AnalyzeError,
> {
    if ops.len() == 2 {
        match op_reg_spec(s, ops[0], !eql) {
            None => Err(AnalyzeError::UnsupportedMnemonic(instr)),
            Some((s1, r1)) => match op_reg_spec(s1, ops[1], !eql) {
                None => Err(AnalyzeError::UnsupportedMnemonic(instr)),
                Some((s2, r2)) => {
                    if r1.1 == 0 && r2.1 == 0 {
                        let cond = if eql {
                            Condition::Eql(r1.0, r2.0)
                        } else {
                            Condition::Lt(r1.0, r2.0)
                        };
                        Ok(StateView { scc: Some(cond), ..s2 })
                    } else {
                        Err(AnalyzeError::UnsupportedMnemonic(instr))
                    }
                },
            },
        }
    } else {
        Err(AnalyzeError::UnsupportedMnemonic(instr))
    }
}

/// Dispatch over the handled scalar ALU mnemonics.
pub open spec fn salu_spec(s: StateView, instr: String, ops: Seq<OperandView>) -> Result<
    StateView,
    AnalyzeError,
> {
    let m = instr@;
    if m == "s_mul_i32"@ {
        s_mul_spec(s, instr, ops)
    } else if m == "s_add_i32"@ {
        s_add_spec(s, instr, ops)
    } else if m == "s_and_b32"@ {
        s_and_spec(s, instr, ops)
    } else if m == "s_cmp_lt_i32"@ {
        s_cmp_spec(s, instr, ops, false)
    } else if m == "s_cmp_eq_u32"@ {
        s_cmp_spec(s, instr, ops, true)
    } else {
        Err(AnalyzeError::UnsupportedMnemonic(instr))
    }
}

fn eval_s_mul(st: &mut ExecutionState, instr: &String, ops: &Vec<Operand>) -> (r: Result<
    (),
    AnalyzeError,
>)
    requires
        instr@ == "s_mul_i32"@,
    ensures
        match s_mul_spec(old(st)@, *instr, ovs(ops@)) {
            Ok(s2) => r is Ok && final(st)@ == s2,
            Err(e) => r == Err::<(), AnalyzeError>(e) && final(st)@ == old(st)@,
        },
        bindings_evolve(old(st)@.bindings, final(st)@.bindings),
{
    let unsup = AnalyzeError::UnsupportedMnemonic(instr.clone());
    if ops.len() != 3 {
        return Err(unsup);
    }
    match (&ops[0], &ops[1], &ops[2]) {
        (Operand::SReg(dst), Operand::SReg(op1), Operand::SReg(op2)) => {
            if *op1 < st.sgprs.len() && *op2 < st.sgprs.len() {
                let r1 = st.sgprs[*op1];
                let r2 = st.sgprs[*op2];
                if r1.1 == 0 && r2.1 == 0 {
                    let idx = st.bindings.len();
                    st.bindings.push(
                        Binding::Computed { expr: Expr::Mul(r1.0, r2.0), kind: DataKind::Dword },
                    );
                    insert_into(&mut st.sgprs, *dst, Reg(idx, 0));
                    Ok(())
                } else {
                    Err(unsup)
                }
            } else {
                Err(unsup)
            }
        },
        _ => Err(unsup),
    }
}

fn eval_s_add(st: &mut ExecutionState, instr: &String, ops: &Vec<Operand>) -> (r: Result<
    (),
    AnalyzeError,
>)
    requires
        instr@ == "s_add_i32"@,
    ensures
        match s_add_spec(old(st)@, *instr, ovs(ops@)) {
            Ok(s2) => r is Ok && final(st)@ == s2,
            Err(e) => r == Err::<(), AnalyzeError>(e) && bindings_evolve(
                old(st)@.bindings,
                final(st)@.bindings,
            ),
        },
        bindings_evolve(old(st)@.bindings, final(st)@.bindings),
{
    let unsup = AnalyzeError::UnsupportedMnemonic(instr.clone());
    if ops.len() != 3 {
        return Err(unsup);
    }
    let dst: usize = match &ops[0] {
        Operand::SReg(dst) => *dst,
        _ => {
            return Err(unsup);
        },
    };
    let o1 = match operand_binding_dw(st, &ops[1], true) {
        Some(o) => o,
        None => {
            return Err(unsup);
        },
    };
    let o2 = match operand_binding_dw(st, &ops[2], true) {
        Some(o) => o,
        None => {
            return Err(unsup);
        },
    };
    let idx = st.bindings.len();
    st.bindings.push(Binding::Computed { expr: Expr::Add(o1, o2), kind: DataKind::Dword });
    insert_into(&mut st.sgprs, dst, Reg(idx, 0));
    Ok(())
}

fn eval_s_and(st: &mut ExecutionState, instr: &String, ops: &Vec<Operand>) -> (r: Result<
    (),
    AnalyzeError,
>)
    requires
        instr@ == "s_and_b32"@,
    ensures
        match s_and_spec(old(st)@, *instr, ovs(ops@)) {
            Ok(s2) => r is Ok && final(st)@ == s2,
            Err(e) => r == Err::<(), AnalyzeError>(e) && bindings_evolve(
                old(st)@.bindings,
                final(st)@.bindings,
            ),
        },
        bindings_evolve(old(st)@.bindings, final(st)@.bindings),
{
    let unsup = AnalyzeError::UnsupportedMnemonic(instr.clone());
    if ops.len() != 3 {
        return Err(unsup);
    }
    let dst: usize = match &ops[0] {
        Operand::SReg(dst) => *dst,
        _ => {
            return Err(unsup);
        },
    };
    let o1 = match operand_binding_dw(st, &ops[1], false) {
        Some(o) => o,
        None => {
            return Err(unsup);
        },
    };
    let mask = match operand_binding_dw(st, &ops[2], false) {
        Some(o) => o,
        None => {
            return Err(unsup);
        },
    };
    let kind = match st.bindings[mask] {
        Binding::U32(65535) => DataKind::U16,
        _ => DataKind::Dword,
    };
    let idx = st.bindings.len();
    st.bindings.push(Binding::Computed { expr: Expr::And(o1, mask), kind });
    insert_into(&mut st.sgprs, dst, Reg(idx, 0));
    Ok(())
}

fn eval_s_cmp(st: &mut ExecutionState, instr: &String, ops: &Vec<Operand>, eql: bool) -> (r: Result<
    (),
    AnalyzeError,
>)
    requires
        eql ==> instr@ == "s_cmp_eq_u32"@,
        !eql ==> instr@ == "s_cmp_lt_i32"@,
    ensures
        match s_cmp_spec(old(st)@, *instr, ovs(ops@), eql) {
            Ok(s2) => r is Ok && final(st)@ == s2,
            Err(e) => r == Err::<(), AnalyzeError>(e) && bindings_evolve(
                old(st)@.bindings,
                final(st)@.bindings,
            ) && final(st)@.scc == old(st)@.scc,
        },
        bindings_evolve(old(st)@.bindings, final(st)@.bindings),
{
    let unsup = AnalyzeError::UnsupportedMnemonic(instr.clone());
    if ops.len() != 2 {
        return Err(unsup);
    }
    let r1 = match operand_reg(st, &ops[0], !eql) {
        Some(r1) => r1,
        None => {
            return Err(unsup);
        },
    };
    let r2 = match operand_reg(st, &ops[1], !eql) {
        Some(r2) => r2,
        None => {
            return Err(unsup);
        },
    };
    if r1.1 == 0 && r2.1 == 0 {
        st.scc = if eql {
            Some(Condition::Eql(r1.0, r2.0))
        } else {
            Some(Condition::Lt(r1.0, r2.0))
        };
        Ok(())
    } else {
        Err(unsup)
    }
}

/// Evaluates one scalar ALU instruction against the simulated state.
pub fn eval_salu_op(st: &mut ExecutionState, instr: &String, ops: &Vec<Operand>) -> (r: Result<
    (),
    AnalyzeError,
>)
    ensures
        match salu_spec(old(st)@, *instr, ovs(ops@)) {
            Ok(s2) => r is Ok && final(st)@ == s2,
            Err(e) => r == Err::<(), AnalyzeError>(e),
        },
        bindings_evolve(old(st)@.bindings, final(st)@.bindings),
{
    if str_eq(instr.as_str(), "s_mul_i32") {
        eval_s_mul(st, instr, ops)
    } else if str_eq(instr.as_str(), "s_add_i32") {
        eval_s_add(st, instr, ops)
    } else if str_eq(instr.as_str(), "s_and_b32") {
        eval_s_and(st, instr, ops)
    } else if str_eq(instr.as_str(), "s_cmp_lt_i32") {
        eval_s_cmp(st, instr, ops, false)
    } else if str_eq(instr.as_str(), "s_cmp_eq_u32") {
        eval_s_cmp(st, instr, ops, true)
    } else {
        Err(AnalyzeError::UnsupportedMnemonic(instr.clone()))
    }
}


// ------------------------------------------------------------------
// Vector ALU operations.
// ------------------------------------------------------------------

/// A vector move: the destination register takes over the source
/// operand's slot.
pub open spec fn v_mov_spec(s: StateView, instr: String, ops: Seq<OperandView>) -> Result<
    StateView,
    AnalyzeError,
> {
    if ops.len() == 2 {
        match ops[0] {
            OperandView::VReg(dst) => match op_reg_spec(s, ops[1], false) {
                None => Err(AnalyzeError::UnsupportedMnemonic(instr)),
                Some((s1, reg)) => Ok(
                    StateView { vgprs: insert_reg(s1.vgprs, dst as int, reg), ..s1 },
                ),
            },
            _ => Err(AnalyzeError::UnsupportedMnemonic(instr)),
        }
    } else {
        Err(AnalyzeError::UnsupportedMnemonic(instr))
    }
}

/// A two-source vector computation (add or multiply) on whole
/// bindings; `opsel` picks the two source operand positions.
pub open spec fn v_binop_spec(
    s: StateView,
    instr: String,
    ops: Seq<OperandView>,
    n_ops: int,
    src1: int,
    src2: int,
    mul: bool,
) -> Result<StateView, AnalyzeError> {
    if ops.len() == n_ops {
        match ops[0] {
            OperandView::VReg(dst) => match op_binding_dw_spec(s, ops[src1], false) {
                None => Err(AnalyzeError::UnsupportedMnemonic(instr)),
                Some((s1, o1)) => match op_binding_dw_spec(s1, ops[src2], false) {
                    None => Err(AnalyzeError::UnsupportedMnemonic(instr)),
                    Some((s2, o2)) => {
                        let expr = if mul {
                            Expr::Mul(o1, o2)
                        } else {
                            Expr::Add(o1, o2)
                        };
                        Ok(
                            StateView {
                                bindings: s2.bindings.push(
                                    Binding::Computed { expr, kind: DataKind::Dword },
                                ),
                                vgprs: insert_reg(
                                    s2.vgprs,
                                    dst as int,
                                    Reg(s2.bindings.len() as usize, 0),
                                ),
                                ..s2
                            },
                        )
                    },
                },
            },
            _ => Err(AnalyzeError::UnsupportedMnemonic(instr)),
        }
    } else {
        Err(AnalyzeError::UnsupportedMnemonic(instr))
    }
}

/// An arithmetic shift right by 31 into the next register up is read
/// as a sign extension of the source to a 64-bit value.
pub open spec fn v_ashr_spec(s: StateView, instr: String, ops: Seq<OperandView>) -> Result<
    StateView,
    AnalyzeError,
> {
    if ops.len() == 3 {
        match (ops[0], ops[1], ops[2]) {
            (OperandView::VReg(dst), OperandView::Lit(sh), OperandView::VReg(src)) => {
                if sh == 31 && dst == src + 1 && src < s.vgprs.len() {
                    let src_idx = s.vgprs[src as int].0;
                    let idx = s.bindings.len() as usize;
                    Ok(
                        StateView {
                            bindings: s.bindings.push(
                                Binding::Cast { source: src_idx, kind: DataKind::I64 },
                            ),
                            vgprs: insert_reg(
                                insert_reg(s.vgprs, src as int, Reg(idx, 0)),
                                src + 1,
                                Reg(idx, 1),
                            ),
                            ..s
                        },
                    )
                } else {
                    Err(AnalyzeError::UnsupportedMnemonic(instr))
                }
            },
            _ => Err(AnalyzeError::UnsupportedMnemonic(instr)),
        }
    } else {
        Err(AnalyzeError::UnsupportedMnemonic(instr))
    }
}

/// A 64-bit left shift: a quadword shift of the source range's
/// binding, written across the destination range.
pub open spec fn v_shl_spec(s: StateView, instr: String, ops: Seq<OperandView>) -> Result<
    StateView,
    AnalyzeError,
> {
    if ops.len() == 3 {
        match (ops[0], ops[2]) {
            (OperandView::VRegs(dst_lo, _), OperandView::VRegs(src_lo, _)) => {
                match op_binding_dw_spec(s, ops[1], false) {
                    None => Err(AnalyzeError::UnsupportedMnemonic(instr)),
                    Some((s1, shift)) => {
                        if src_lo < s1.vgprs.len() && dst_lo + 1 <= usize::MAX {
                            let src_idx = s1.vgprs[src_lo as int].0;
                            let idx = s1.bindings.len() as usize;
                            Ok(
                                StateView {
                                    bindings: s1.bindings.push(
                                        Binding::Computed {
                                            expr: Expr::Shl(src_idx, shift),
                                            kind: DataKind::Qword,
                                        },
                                    ),
                                    vgprs: insert_reg(
                                        insert_reg(s1.vgprs, dst_lo as int, Reg(idx, 0)),
                                        dst_lo + 1,
                                        Reg(idx, 1),
                                    ),
                                    ..s1
                                },
                            )
                        } else {
                            Err(AnalyzeError::UnsupportedMnemonic(instr))
                        }
                    },
                }
            },
            _ => Err(AnalyzeError::UnsupportedMnemonic(instr)),
        }
    } else {
        Err(AnalyzeError::UnsupportedMnemonic(instr))
    }
}

/// A multiply-accumulate: a product of the two sources added to the
/// destination's previous value.
pub open spec fn v_mac_spec(s: StateView, instr: String, ops: Seq<OperandView>) -> Result<
    StateView,
    AnalyzeError,
> {
    if ops.len() == 3 {
        match ops[0] {
            OperandView::VReg(dst) => {
                if dst < s.vgprs.len() {
                    let dst_idx = s.vgprs[dst as int].0;
                    match op_binding_dw_spec(s, ops[1], false) {
                        None => Err(AnalyzeError::UnsupportedMnemonic(instr)),
                        Some((s1, o1)) => match op_binding_dw_spec(s1, ops[2], false) {
                            None => Err(AnalyzeError::UnsupportedMnemonic(instr)),
                            Some((s2, o2)) => {
                                let mul_idx = s2.bindings.len() as usize;
                                let b1 = s2.bindings.push(
                                    Binding::Computed {
                                        expr: Expr::Mul(o1, o2),
                                        kind: DataKind::Dword,
                                    },
                                );
                                let add_idx = b1.len() as usize;
                                Ok(
                                    StateView {
                                        bindings: b1.push(
                                            Binding::Computed {
                                                expr: Expr::Add(dst_idx, mul_idx),
                                                kind: DataKind::Dword,
                                            },
                                        ),
                                        vgprs: insert_reg(s2.vgprs, dst as int, Reg(add_idx, 0)),
                                        ..s2
                                    },
                                )
                            },
                        },
                    }
                } else {
                    Err(AnalyzeError::UnsupportedMnemonic(instr))
                }
            },
            _ => Err(AnalyzeError::UnsupportedMnemonic(instr)),
        }
    } else {
        Err(AnalyzeError::UnsupportedMnemonic(instr))
    }
}

/// One side of the 64-bit add recognizer: how a carry-add operand can
/// be matched up with the corresponding low-half operand, possibly
/// minting a quadword projection.  An out-of-range low operand cannot
/// be inspected.
pub open spec fn addc_side_spec(
    bindings: Seq<Binding>,
    lo_op: usize,
    op1_reg: Reg,
    op2_reg: Reg,
) -> Result<(Seq<Binding>, Option<usize>), ()> {
    if lo_op >= bindings.len() {
        Err(())
    } else {
        match bindings[lo_op as int] {
            Binding::DwordElement { of, dword } => {
                if op1_reg.0 == of && dword as int + 1 == op1_reg.1 as int {
                    Ok(
                        (
                            bindings.push(Binding::QwordElement { of, dword }),
                            Some(bindings.len() as usize),
                        ),
                    )
                } else if op2_reg.0 == of && dword as int + 1 == op2_reg.1 as int {
                    Ok(
                        (
                            bindings.push(Binding::QwordElement { of, dword }),
                            Some(bindings.len() as usize),
                        ),
                    )
                } else if op1_reg.0 == lo_op && op1_reg.1 == 1 {
                    Ok((bindings, Some(lo_op)))
                } else if op2_reg.0 == lo_op && op2_reg.1 == 1 {
                    Ok((bindings, Some(lo_op)))
                } else {
                    Ok((bindings, None))
                }
            },
            _ => {
                if op1_reg.0 == lo_op && op1_reg.1 == 1 {
                    Ok((bindings, Some(lo_op)))
                } else if op2_reg.0 == lo_op && op2_reg.1 == 1 {
                    Ok((bindings, Some(lo_op)))
                } else {
                    Ok((bindings, None))
                }
            },
        }
    }
}

/// The in-place promotion that ends the 64-bit add recognizer: the low
/// half's binding becomes a quadword computation and the destination
/// pair points at its two dwords.
pub open spec fn addc_finish_spec(s: StateView, expr: Expr, dst: usize, lo_idx: usize) -> Result<
    StateView,
    AnalyzeError,
> {
    Ok(
        StateView {
            bindings: s.bindings.update(
                lo_idx as int,
                Binding::Computed { expr, kind: DataKind::Qword },
            ),
            vgprs: insert_reg(
                insert_reg(s.vgprs, dst as int - 1, Reg(lo_idx, 0)),
                dst as int,
                Reg(lo_idx, 1),
            ),
            ..s
        },
    )
}

/// When no quadword operands can be recovered, the high halves are
/// resolved as plain operands and a four-operand add is recorded.
pub open spec fn addc_fallback_spec(
    s: StateView,
    b: Seq<Binding>,
    instr: String,
    ops: Seq<OperandView>,
    lo_op1: usize,
    lo_op2: usize,
    dst: usize,
    lo_idx: usize,
) -> Result<StateView, AnalyzeError> {
    let sb = StateView { bindings: b, ..s };
    match op_binding_dw_spec(sb, ops[2], false) {
        None => Err(AnalyzeError::UnsupportedMnemonic(instr)),
        Some((s1, h1)) => match op_binding_dw_spec(s1, ops[3], false) {
            None => Err(AnalyzeError::UnsupportedMnemonic(instr)),
            Some((s2, h2)) => addc_finish_spec(
                s2,
                Expr::AddHiLo { hi_op1: h1, hi_op2: h2, lo_op1, lo_op2 },
                dst,
                lo_idx,
            ),
        },
    }
}

/// A carry add with carry in and out on VCC: either a no-op when one
/// operand is the literal zero, or the second half of a 64-bit add,
/// whose low half must be an add.
pub open spec fn v_addc_spec(s: StateView, instr: String, ops: Seq<OperandView>) -> Result<
    StateView,
    AnalyzeError,
> {
    if ops.len() == 5 && ops[1] is VCC && ops[4] is VCC {
        if ops[2] == OperandView::Lit(0u32) || ops[3] == OperandView::Lit(0u32) {
            Ok(s)
        } else {
            match (ops[0], ops[2], ops[3]) {
                (OperandView::VReg(dst), OperandView::VReg(i1), OperandView::VReg(i2)) => {
                    if 1 <= dst && dst - 1 < s.vgprs.len() && i1 < s.vgprs.len() && i2
                        < s.vgprs.len() {
                        let lo_idx = s.vgprs[dst as int - 1].0;
                        let op1_reg = s.vgprs[i1 as int];
                        let op2_reg = s.vgprs[i2 as int];
                        if lo_idx < s.bindings.len() {
                            match s.bindings[lo_idx as int] {
                                Binding::Computed { expr: Expr::Add(lo_op1, lo_op2), .. } => {
                                    match addc_side_spec(s.bindings, lo_op1, op1_reg, op2_reg) {
                                        Err(_) => Err(AnalyzeError::UnsupportedMnemonic(instr)),
                                        Ok((b1, None)) => addc_fallback_spec(
                                            s,
                                            b1,
                                            instr,
                                            ops,
                                            lo_op1,
                                            lo_op2,
                                            dst,
                                            lo_idx,
                                        ),
                                        Ok((b1, Some(o1))) => match addc_side_spec(
                                            b1,
                                            lo_op2,
                                            op1_reg,
                                            op2_reg,
                                        ) {
                                            Err(_) => Err(
                                                AnalyzeError::UnsupportedMnemonic(instr),
                                            ),
                                            Ok((b2, None)) => addc_fallback_spec(
                                                s,
                                                b2,
                                                instr,
                                                ops,
                                                lo_op1,
                                                lo_op2,
                                                dst,
                                                lo_idx,
                                            ),
                                            Ok((b2, Some(o2))) => addc_finish_spec(
                                                StateView { bindings: b2, ..s },
                                                Expr::Add(o1, o2),
                                                dst,
                                                lo_idx,
                                            ),
                                        },
                                    }
                                },
                                _ => Err(AnalyzeError::HeuristicFailure),
                            }
                        } else {
                            Err(AnalyzeError::UnsupportedMnemonic(instr))
                        }
                    } else {
                        Err(AnalyzeError::UnsupportedMnemonic(instr))
                    }
                },
                _ => Err(AnalyzeError::UnsupportedMnemonic(instr)),
            }
        }
    } else {
        Err(AnalyzeError::UnsupportedMnemonic(instr))
    }
}

/// Dispatch over the handled vector ALU mnemonics.
pub open spec fn valu_spec(s: StateView, instr: String, ops: Seq<OperandView>) -> Result<
    StateView,
    AnalyzeError,
> {
    let m = instr@;
    if m == "v_mov_b32_e32"@ {
        v_mov_spec(s, instr, ops)
    } else if m == "v_add_u32_e32"@ {
        v_binop_spec(s, instr, ops, 3, 1, 2, false)
    } else if m == "v_mul_lo_u32"@ {
        v_binop_spec(s, instr, ops, 3, 1, 2, true)
    } else if m == "v_ashrrev_i32_e32"@ {
        v_ashr_spec(s, instr, ops)
    } else if m == "v_lshlrev_b64"@ {
        v_shl_spec(s, instr, ops)
    } else if m == "v_add_co_u32_e32"@ {
        if ops.len() == 4 && ops[1] is VCC {
            v_binop_spec(s, instr, ops, 4, 2, 3, false)
        } else {
            Err(AnalyzeError::UnsupportedMnemonic(instr))
        }
    } else if m == "v_addc_co_u32_e32"@ {
        v_addc_spec(s, instr, ops)
    } else if m == "v_mac_f32_e32"@ {
        v_mac_spec(s, instr, ops)
    } else {
        Err(AnalyzeError::UnsupportedMnemonic(instr))
    }
}


fn eval_v_mov(st: &mut ExecutionState, instr: &String, ops: &Vec<Operand>) -> (r: Result<
    (),
    AnalyzeError,
>)
    requires
        instr@ == "v_mov_b32_e32"@,
    ensures
        match v_mov_spec(old(st)@, *instr, ovs(ops@)) {
            Ok(s2) => r is Ok && final(st)@ == s2,
            Err(e) => r == Err::<(), AnalyzeError>(e) && final(st)@ == old(st)@,
        },
        bindings_evolve(old(st)@.bindings, final(st)@.bindings),
{
    let unsup = AnalyzeError::UnsupportedMnemonic(instr.clone());
    if ops.len() != 2 {
        return Err(unsup);
    }
    let dst: usize = match &ops[0] {
        Operand::VReg(dst) => *dst,
        _ => {
            return Err(unsup);
        },
    };
    match operand_reg(st, &ops[1], false) {
        Some(reg) => {
            insert_into(&mut st.vgprs, dst, reg);
            Ok(())
        },
        None => Err(unsup),
    }
}

fn eval_v_binop(
    st: &mut ExecutionState,
    instr: &String,
    ops: &Vec<Operand>,
    n_ops: usize,
    src1: usize,
    src2: usize,
    mul: bool,
) -> (r: Result<(), AnalyzeError>)
    requires
        0 < src1 < n_ops,
        0 < src2 < n_ops,
    ensures
        match v_binop_spec(
            old(st)@,
            *instr,
            ovs(ops@),
            n_ops as int,
            src1 as int,
            src2 as int,
            mul,
        ) {
            Ok(s2) => r is Ok && final(st)@ == s2,
            Err(e) => r == Err::<(), AnalyzeError>(e) && bindings_evolve(
                old(st)@.bindings,
                final(st)@.bindings,
            ),
        },
        bindings_evolve(old(st)@.bindings, final(st)@.bindings),
{
    let unsup = AnalyzeError::UnsupportedMnemonic(instr.clone());
    if ops.len() != n_ops {
        return Err(unsup);
    }
    let dst: usize = match &ops[0] {
        Operand::VReg(dst) => *dst,
        _ => {
            return Err(unsup);
        },
    };
    let o1 = match operand_binding_dw(st, &ops[src1], false) {
        Some(o) => o,
        None => {
            return Err(unsup);
        },
    };
    let o2 = match operand_binding_dw(st, &ops[src2], false) {
        Some(o) => o,
        None => {
            return Err(unsup);
        },
    };
    let expr = if mul {
        Expr::Mul(o1, o2)
    } else {
        Expr::Add(o1, o2)
    };
    let idx = st.bindings.len();
    st.bindings.push(Binding::Computed { expr, kind: DataKind::Dword });
    insert_into(&mut st.vgprs, dst, Reg(idx, 0));
    Ok(())
}

fn eval_v_ashr(st: &mut ExecutionState, instr: &String, ops: &Vec<Operand>) -> (r: Result<
    (),
    AnalyzeError,
>)
    requires
        instr@ == "v_ashrrev_i32_e32"@,
    ensures
        match v_ashr_spec(old(st)@, *instr, ovs(ops@)) {
            Ok(s2) => r is Ok && final(st)@ == s2,
            Err(e) => r == Err::<(), AnalyzeError>(e) && final(st)@ == old(st)@,
        },
        bindings_evolve(old(st)@.bindings, final(st)@.bindings),
{
    let unsup = AnalyzeError::UnsupportedMnemonic(instr.clone());
    if ops.len() != 3 {
        return Err(unsup);
    }
    match (&ops[0], &ops[1], &ops[2]) {
        (Operand::VReg(dst), Operand::Lit(sh), Operand::VReg(src)) => {
            if *sh == 31 && *src < usize::MAX && *dst == *src + 1 && *src < st.vgprs.len() {
                let src_idx = st.vgprs[*src].0;
                let idx = st.bindings.len();
                st.bindings.push(Binding::Cast { source: src_idx, kind: DataKind::I64 });
                insert_into(&mut st.vgprs, *src, Reg(idx, 0));
                insert_into(&mut st.vgprs, *src + 1, Reg(idx, 1));
                Ok(())
            } else {
                Err(unsup)
            }
        },
        _ => Err(unsup),
    }
}

fn eval_v_shl(st: &mut ExecutionState, instr: &String, ops: &Vec<Operand>) -> (r: Result<
    (),
    AnalyzeError,
>)
    requires
        instr@ == "v_lshlrev_b64"@,
    ensures
        match v_shl_spec(old(st)@, *instr, ovs(ops@)) {
            Ok(s2) => r is Ok && final(st)@ == s2,
            Err(e) => r == Err::<(), AnalyzeError>(e) && bindings_evolve(
                old(st)@.bindings,
                final(st)@.bindings,
            ),
        },
        bindings_evolve(old(st)@.bindings, final(st)@.bindings),
{
    let unsup = AnalyzeError::UnsupportedMnemonic(instr.clone());
    if ops.len() != 3 {
        return Err(unsup);
    }
    let (dst_lo, src_lo): (usize, usize) = match (&ops[0], &ops[2]) {
        (Operand::VRegs(dst_lo, _), Operand::VRegs(src_lo, _)) => (*dst_lo, *src_lo),
        _ => {
            return Err(unsup);
        },
    };
    let shift = match operand_binding_dw(st, &ops[1], false) {
        Some(o) => o,
        None => {
            return Err(unsup);
        },
    };
    if src_lo < st.vgprs.len() && dst_lo <= usize::MAX - 1 {
        let src_idx = st.vgprs[src_lo].0;
        let idx = st.bindings.len();
        st.bindings.push(
            Binding::Computed { expr: Expr::Shl(src_idx, shift), kind: DataKind::Qword },
        );
        insert_into(&mut st.vgprs, dst_lo, Reg(idx, 0));
        insert_into(&mut st.vgprs, dst_lo + 1, Reg(idx, 1));
        Ok(())
    } else {
        Err(unsup)
    }
}

fn eval_v_mac(st: &mut ExecutionState, instr: &String, ops: &Vec<Operand>) -> (r: Result<
    (),
    AnalyzeError,
>)
    requires
        instr@ == "v_mac_f32_e32"@,
    ensures
        match v_mac_spec(old(st)@, *instr, ovs(ops@)) {
            Ok(s2) => r is Ok && final(st)@ == s2,
            Err(e) => r == Err::<(), AnalyzeError>(e) && bindings_evolve(
                old(st)@.bindings,
                final(st)@.bindings,
            ),
        },
        bindings_evolve(old(st)@.bindings, final(st)@.bindings),
{
    let unsup = AnalyzeError::UnsupportedMnemonic(instr.clone());
    if ops.len() != 3 {
        return Err(unsup);
    }
    let dst: usize = match &ops[0] {
        Operand::VReg(dst) => *dst,
        _ => {
            return Err(unsup);
        },
    };
    if dst >= st.vgprs.len() {
        return Err(unsup);
    }
    let dst_idx = st.vgprs[dst].0;
    let o1 = match operand_binding_dw(st, &ops[1], false) {
        Some(o) => o,
        None => {
            return Err(unsup);
        },
    };
    let o2 = match operand_binding_dw(st, &ops[2], false) {
        Some(o) => o,
        None => {
            return Err(unsup);
        },
    };
    let mul_idx = st.bindings.len();
    st.bindings.push(Binding::Computed { expr: Expr::Mul(o1, o2), kind: DataKind::Dword });
    let add_idx = st.bindings.len();
    st.bindings.push(
        Binding::Computed { expr: Expr::Add(dst_idx, mul_idx), kind: DataKind::Dword },
    );
    insert_into(&mut st.vgprs, dst, Reg(add_idx, 0));
    Ok(())
}

fn addc_side(st: &mut ExecutionState, lo_op: usize, op1_reg: Reg, op2_reg: Reg) -> (r: Result<
    Option<usize>,
    (),
>)
    ensures
        match addc_side_spec(old(st)@.bindings, lo_op, op1_reg, op2_reg) {
            Err(_) => r is Err && final(st)@ == old(st)@,
            Ok((b2, o)) => r == Ok::<Option<usize>, ()>(o) && final(st)@ == (StateView {
                bindings: b2,
                ..old(st)@
            }),
        },
        bindings_evolve(old(st)@.bindings, final(st)@.bindings),
{
    if lo_op >= st.bindings.len() {
        proof {
            assert(old(st)@ == (StateView { bindings: old(st)@.bindings, ..old(st)@ }));
        }
        return Err(());
    }
    let (is_elem, of, dword): (bool, usize, u8) = match st.bindings[lo_op] {
        Binding::DwordElement { of, dword } => (true, of, dword),
        _ => (false, 0, 0),
    };
    if is_elem {
        if op1_reg.0 == of && dword < 255 && dword + 1 == op1_reg.1 {
            let idx = st.bindings.len();
            st.bindings.push(Binding::QwordElement { of, dword });
            return Ok(Some(idx));
        }
        if op2_reg.0 == of && dword < 255 && dword + 1 == op2_reg.1 {
            let idx = st.bindings.len();
            st.bindings.push(Binding::QwordElement { of, dword });
            return Ok(Some(idx));
        }
    }
    if op1_reg.0 == lo_op && op1_reg.1 == 1 {
        Ok(Some(lo_op))
    } else if op2_reg.0 == lo_op && op2_reg.1 == 1 {
        Ok(Some(lo_op))
    } else {
        Ok(None)
    }
}

fn eval_v_addc(st: &mut ExecutionState, instr: &String, ops: &Vec<Operand>) -> (r: Result<
    (),
    AnalyzeError,
>)
    requires
        instr@ == "v_addc_co_u32_e32"@,
    ensures
        match v_addc_spec(old(st)@, *instr, ovs(ops@)) {
            Ok(s2) => r is Ok && final(st)@ == s2,
            Err(e) => r == Err::<(), AnalyzeError>(e) && bindings_evolve(
                old(st)@.bindings,
                final(st)@.bindings,
            ),
        },
        bindings_evolve(old(st)@.bindings, final(st)@.bindings),
{
    let unsup = AnalyzeError::UnsupportedMnemonic(instr.clone());
    if !(ops.len() == 5 && matches!(&ops[1], Operand::VCC) && matches!(&ops[4], Operand::VCC)) {
        return Err(unsup);
    }
    let zero2 = match &ops[2] {
        Operand::Lit(v) => *v == 0,
        _ => false,
    };
    let zero3 = match &ops[3] {
        Operand::Lit(v) => *v == 0,
        _ => false,
    };
    if zero2 || zero3 {
        return Ok(());
    }
    let (dst, i1, i2): (usize, usize, usize) = match (&ops[0], &ops[2], &ops[3]) {
        (Operand::VReg(dst), Operand::VReg(i1), Operand::VReg(i2)) => (*dst, *i1, *i2),
        _ => {
            return Err(unsup);
        },
    };
    if !(1 <= dst && dst - 1 < st.vgprs.len() && i1 < st.vgprs.len() && i2 < st.vgprs.len()) {
        return Err(unsup);
    }
    let lo_idx = st.vgprs[dst - 1].0;
    let op1_reg = st.vgprs[i1];
    let op2_reg = st.vgprs[i2];
    if lo_idx >= st.bindings.len() {
        return Err(unsup);
    }
    let (lo_op1, lo_op2): (usize, usize) = match st.bindings[lo_idx] {
        Binding::Computed { expr: Expr::Add(lo_op1, lo_op2), .. } => (lo_op1, lo_op2),
        _ => {
            return Err(AnalyzeError::HeuristicFailure);
        },
    };
    let o1 = match addc_side(st, lo_op1, op1_reg, op2_reg) {
        Ok(o) => o,
        Err(_) => {
            return Err(unsup);
        },
    };
    let matched: Option<(usize, usize)> = match o1 {
        None => None,
        Some(a) => {
            match addc_side(st, lo_op2, op1_reg, op2_reg) {
                Ok(Some(b)) => Some((a, b)),
                Ok(None) => None,
                Err(_) => {
                    return Err(unsup);
                },
            }
        },
    };
    let expr: Expr = match matched {
        Some((a, b)) => Expr::Add(a, b),
        None => {
            let h1 = match operand_binding_dw(st, &ops[2], false) {
                Some(h) => h,
                None => {
                    return Err(unsup);
                },
            };
            let h2 = match operand_binding_dw(st, &ops[3], false) {
                Some(h) => h,
                None => {
                    return Err(unsup);
                },
            };
            Expr::AddHiLo { hi_op1: h1, hi_op2: h2, lo_op1, lo_op2 }
        },
    };
    st.bindings[lo_idx] = Binding::Computed { expr, kind: DataKind::Qword };
    insert_into(&mut st.vgprs, dst - 1, Reg(lo_idx, 0));
    insert_into(&mut st.vgprs, dst, Reg(lo_idx, 1));
    Ok(())
}

/// Evaluates one vector ALU instruction against the simulated state.
pub fn eval_valu_op(st: &mut ExecutionState, instr: &String, ops: &Vec<Operand>) -> (r: Result<
    (),
    AnalyzeError,
>)
    ensures
        match valu_spec(old(st)@, *instr, ovs(ops@)) {
            Ok(s2) => r is Ok && final(st)@ == s2,
            Err(e) => r == Err::<(), AnalyzeError>(e),
        },
        bindings_evolve(old(st)@.bindings, final(st)@.bindings),
{
    if str_eq(instr.as_str(), "v_mov_b32_e32") {
        eval_v_mov(st, instr, ops)
    } else if str_eq(instr.as_str(), "v_add_u32_e32") {
        eval_v_binop(st, instr, ops, 3, 1, 2, false)
    } else if str_eq(instr.as_str(), "v_mul_lo_u32") {
        eval_v_binop(st, instr, ops, 3, 1, 2, true)
    } else if str_eq(instr.as_str(), "v_ashrrev_i32_e32") {
        eval_v_ashr(st, instr, ops)
    } else if str_eq(instr.as_str(), "v_lshlrev_b64") {
        eval_v_shl(st, instr, ops)
    } else if str_eq(instr.as_str(), "v_add_co_u32_e32") {
        if ops.len() == 4 && matches!(&ops[1], Operand::VCC) {
            eval_v_binop(st, instr, ops, 4, 2, 3, false)
        } else {
            Err(AnalyzeError::UnsupportedMnemonic(instr.clone()))
        }
    } else if str_eq(instr.as_str(), "v_addc_co_u32_e32") {
        eval_v_addc(st, instr, ops)
    } else if str_eq(instr.as_str(), "v_mac_f32_e32") {
        eval_v_mac(st, instr, ops)
    } else {
        Err(AnalyzeError::UnsupportedMnemonic(instr.clone()))
    }
}


// ------------------------------------------------------------------
// Instruction dispatch.
// ------------------------------------------------------------------

/// What one instruction does to the simulated state, and the program
/// statements it emits: waits and the end marker do nothing; a global
/// store may emit a statement; loads and ALU operations update the
/// state; every other mnemonic is unsupported.
pub open spec fn step_spec(
    s: StateView,
    instr: String,
    ops: Seq<OperandView>,
    instr_idx: usize,
) -> Result<(StateView, Seq<(usize, Statement)>), AnalyzeError> {
    let m = instr@;
    if m == "s_waitcnt"@ || m == "s_endpgm"@ {
        Ok((s, Seq::empty()))
    } else if m == "global_store_dword"@ {
        store_spec(s, instr, ops, instr_idx)
    } else if crate::text::starts_with_spec(m, "s_load"@) {
        match s_load_spec(s, instr, ops) {
            Ok(s2) => Ok((s2, Seq::empty())),
            Err(e) => Err(e),
        }
    } else if crate::text::starts_with_spec(m, "global_load"@) {
        match global_load_spec(s, instr, ops) {
            Ok(s2) => Ok((s2, Seq::empty())),
            Err(e) => Err(e),
        }
    } else if crate::text::starts_with_spec(m, "s_"@) {
        match salu_spec(s, instr, ops) {
            Ok(s2) => Ok((s2, Seq::empty())),
            Err(e) => Err(e),
        }
    } else if crate::text::starts_with_spec(m, "v_"@) {
        match valu_spec(s, instr, ops) {
            Ok(s2) => Ok((s2, Seq::empty())),
            Err(e) => Err(e),
        }
    } else {
        Err(AnalyzeError::UnsupportedMnemonic(instr))
    }
}

/// Evaluates one instruction: updates the state and appends any
/// emitted statements to the program.  The binding list only ever
/// evolves monotonically, whatever happens.
pub fn eval_gcn_instruction(
    st: &mut ExecutionState,
    pgm: &mut Program,
    instr_idx: usize,
    instr: &String,
    ops: &Vec<Operand>,
) -> (r: Result<(), AnalyzeError>)
    requires
        instr_idx < usize::MAX,
    ensures
        match step_spec(old(st)@, *instr, ovs(ops@), instr_idx) {
            Ok((s2, stmts)) => r is Ok && final(st)@ == s2 && final(pgm)@ == old(pgm)@ + stmts,
            Err(e) => r == Err::<(), AnalyzeError>(e) && final(pgm)@ == old(pgm)@,
        },
        bindings_evolve(old(st)@.bindings, final(st)@.bindings),
{
    proof {
        reveal_strlit("s_load");
        reveal_strlit("global_load");
        reveal_strlit("s_");
        reveal_strlit("v_");
    }
    let ghost pgm0 = pgm@;
    if str_eq(instr.as_str(), "s_waitcnt") || str_eq(instr.as_str(), "s_endpgm") {
        proof {
            assert(pgm@ =~= pgm0 + Seq::<(usize, Statement)>::empty());
        }
        Ok(())
    } else if str_eq(instr.as_str(), "global_store_dword") {
        eval_store(st, pgm, instr_idx, instr, ops)
    } else if str_starts_with(instr.as_str(), "s_load") {
        let r = eval_s_load(st, instr, ops);
        proof {
            assert(pgm@ =~= pgm0 + Seq::<(usize, Statement)>::empty());
        }
        r
    } else if str_starts_with(instr.as_str(), "global_load") {
        let r = eval_global_load(st, instr, ops);
        proof {
            assert(pgm@ =~= pgm0 + Seq::<(usize, Statement)>::empty());
        }
        r
    } else if str_starts_with(instr.as_str(), "s_") {
        let r = eval_salu_op(st, instr, ops);
        proof {
            assert(pgm@ =~= pgm0 + Seq::<(usize, Statement)>::empty());
        }
        r
    } else if str_starts_with(instr.as_str(), "v_") {
        let r = eval_valu_op(st, instr, ops);
        proof {
            assert(pgm@ =~= pgm0 + Seq::<(usize, Statement)>::empty());
        }
        r
    } else {
        Err(AnalyzeError::UnsupportedMnemonic(instr.clone()))
    }
}

} // verus!
