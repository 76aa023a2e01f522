use vstd::prelude::*;

use crate::assembly::{Instruction, Operand, OperandView, ovs};
use crate::error::AnalyzeError;
use crate::text::str_eq;

verus! {

/// What kind of branch an instruction performs.
#[derive(Debug, Copy, Clone, PartialEq, Eq, Structural)]
pub enum BranchKind {
    SCCSet,
    SCCUnset,
    Uncond,
}

/// The recovered control flow of an instruction stream: one label per
/// branch, and the branches that jump to them.
#[derive(Debug)]
pub struct ControlFlowMap {
    jumps: Vec<(usize, BranchKind, usize)>,
    labels: Vec<usize>,
}

pub ghost struct CfView {
    /// `(instruction index, kind, label index)` per branch, in order.
    pub jumps: Seq<(usize, BranchKind, usize)>,
    /// Target instruction index of each label.
    pub labels: Seq<usize>,
}

impl View for ControlFlowMap {
    type V = CfView;

    closed spec fn view(&self) -> CfView {
        CfView { jumps: self.jumps@, labels: self.labels@ }
    }
}

/// Every branch names an existing label.
pub open spec fn cf_wf(cf: CfView) -> bool {
    forall|j: int| 0 <= j < cf.jumps.len() ==> (#[trigger] cf.jumps[j]).2 < cf.labels.len()
}

// ------------------------------------------------------------------
// Construction.
// ------------------------------------------------------------------

/// The branch kind of a mnemonic, if it is a branch at all.
pub open spec fn branch_kind_of(m: Seq<char>) -> Option<BranchKind> {
    if m == "s_branch"@ {
        Some(BranchKind::Uncond)
    } else if m == "s_cbranch_scc1"@ {
        Some(BranchKind::SCCSet)
    } else if m == "s_cbranch_scc0"@ {
        Some(BranchKind::SCCUnset)
    } else {
        None
    }
}

/// The destination of a branch at `idx`: its sole operand must be an
/// immediate, taken as a forward count when it does not exceed 32767
/// and as a sign-extended 16-bit offset otherwise, relative to the
/// following instruction.  A destination before instruction zero does
/// not resolve.
pub open spec fn branch_dest_spec(idx: int, ops: Seq<OperandView>) -> Option<int> {
    if ops.len() == 1 {
        match ops[0] {
            OperandView::Lit(imm) => {
                let d = if imm <= 32767 {
                    idx + 1 + imm
                } else {
                    idx + 1 + ((imm as i16) as int)
                };
                if d < 0 {
                    None
                } else {
                    Some(d)
                }
            },
            _ => None,
        }
    } else {
        None
    }
}

/// The control-flow map a prefix of the instruction stream builds up:
/// every branch instruction appends one label holding its destination,
/// and one jump entry naming that label; labels are not deduplicated.
pub open spec fn build_map_spec(instrs: Seq<Instruction>) -> Result<CfView, AnalyzeError>
    decreases instrs.len(),
{
    if instrs.len() == 0 {
        Ok(CfView { jumps: Seq::empty(), labels: Seq::empty() })
    } else {
        match build_map_spec(instrs.drop_last()) {
            Err(e) => Err(e),
            Ok(cf) => {
                let idx = instrs.len() - 1;
                match branch_kind_of(instrs.last().0@) {
                    None => Ok(cf),
                    Some(kind) => match branch_dest_spec(idx, ovs(instrs.last().1@)) {
                        None => Err(AnalyzeError::UnknownBranchOperand),
                        Some(d) => Ok(
                            CfView {
                                jumps: cf.jumps.push(
                                    (idx as usize, kind, cf.labels.len() as usize),
                                ),
                                labels: cf.labels.push(d as usize),
                            },
                        ),
                    },
                }
            },
        }
    }
}

proof fn lemma_build_map_wf(instrs: Seq<Instruction>)
    requires
        build_map_spec(instrs) is Ok,
    ensures
        cf_wf(build_map_spec(instrs).unwrap()),
    decreases instrs.len(),
{
    if instrs.len() > 0 {
        lemma_build_map_wf(instrs.drop_last());
    }
}

/// Resolves the destination operand of a branch instruction.
pub fn branch_destination(instr_idx: usize, branch_ops: &Vec<Operand>) -> (r: Result<
    usize,
    AnalyzeError,
>)
    requires
        instr_idx + 32768 <= usize::MAX,
    ensures
        match r {
            Ok(d) => branch_dest_spec(instr_idx as int, ovs(branch_ops@)) == Some(d as int),
            Err(e) => branch_dest_spec(instr_idx as int, ovs(branch_ops@)) is None && e
                == AnalyzeError::UnknownBranchOperand,
        },
{
    if branch_ops.len() != 1 {
        return Err(AnalyzeError::UnknownBranchOperand);
    }
    match branch_ops[0] {
        Operand::Lit(imm) => {
            if imm <= 32767 {
                Ok(instr_idx + 1 + imm as usize)
            } else {
                let se: i16 = imm as i16;
                if se >= 0 {
                    Ok(instr_idx + 1 + se as usize)
                } else {
                    let mag: usize = (-(se as i32)) as usize;
                    if instr_idx + 1 < mag {
                        Err(AnalyzeError::UnknownBranchOperand)
                    } else {
                        Ok(instr_idx + 1 - mag)
                    }
                }
            }
        },
        _ => Err(AnalyzeError::UnknownBranchOperand),
    }
}

/// Scans the instruction stream and records every branch and its
/// destination label.
pub fn build_map(instrs: &Vec<Instruction>) -> (r: Result<ControlFlowMap, AnalyzeError>)
    requires
        instrs@.len() + 32768 <= usize::MAX,
    ensures
        match r {
            Ok(cf) => build_map_spec(instrs@) == Ok::<CfView, AnalyzeError>(cf@) && cf_wf(cf@),
            Err(e) => build_map_spec(instrs@) == Err::<CfView, AnalyzeError>(e),
        },
{
    let mut jumps: Vec<(usize, BranchKind, usize)> = Vec::new();
    let mut labels: Vec<usize> = Vec::new();
    let mut i: usize = 0;
    while i < instrs.len()
        invariant
            0 <= i <= instrs@.len(),
            instrs@.len() + 32768 <= usize::MAX,
            build_map_spec(instrs@.subrange(0, i as int)) == Ok::<CfView, AnalyzeError>(
                CfView { jumps: jumps@, labels: labels@ },
            ),
        decreases instrs@.len() - i,
    {
        let ghost pre = instrs@.subrange(0, i as int);
        let ghost cur = instrs@.subrange(0, i + 1int);
        proof {
            assert(cur.drop_last() =~= pre);
            assert(cur.last() == instrs@[i as int]);
        }
        let mnemonic = &instrs[i].0;
        let kind: Option<BranchKind> = if str_eq(mnemonic.as_str(), "s_branch") {
            Some(BranchKind::Uncond)
        } else if str_eq(mnemonic.as_str(), "s_cbranch_scc1") {
            Some(BranchKind::SCCSet)
        } else if str_eq(mnemonic.as_str(), "s_cbranch_scc0") {
            Some(BranchKind::SCCUnset)
        } else {
            None
        };
        match kind {
            Some(k) => {
                match branch_destination(i, &instrs[i].1) {
                    Ok(d) => {
                        jumps.push((i, k, labels.len()));
                        labels.push(d);
                    },
                    Err(e) => {
                        proof {
                            assert(build_map_spec(cur) is Err);
                            lemma_build_map_err_persists(instrs@, i + 1);
                        }
                        return Err(e);
                    },
                }
            },
            None => {},
        }
        i += 1;
    }
    proof {
        assert(instrs@.subrange(0, instrs@.len() as int) =~= instrs@);
        lemma_build_map_wf(instrs@);
    }
    Ok(ControlFlowMap { jumps, labels })
}

proof fn lemma_build_map_err_persists(instrs: Seq<Instruction>, i: int)
    requires
        0 <= i <= instrs.len(),
        build_map_spec(instrs.subrange(0, i)) is Err,
    ensures
        build_map_spec(instrs) == build_map_spec(instrs.subrange(0, i)),
    decreases instrs.len() - i,
{
    if i == instrs.len() {
        assert(instrs.subrange(0, i) =~= instrs);
    } else {
        assert(instrs.subrange(0, i + 1).drop_last() =~= instrs.subrange(0, i));
        lemma_build_map_err_persists(instrs, i + 1);
    }
}

// ------------------------------------------------------------------
// Lookups.
// ------------------------------------------------------------------

/// The first label whose target is `idx`.
pub open spec fn label_at_spec(labels: Seq<usize>, idx: usize) -> Option<int>
    decreases labels.len(),
{
    if labels.len() == 0 {
        None
    } else if labels.first() == idx {
        Some(0int)
    } else {
        match label_at_spec(labels.drop_first(), idx) {
            Some(p) => Some(p + 1),
            None => None,
        }
    }
}

/// The first recorded jump sitting at instruction `idx`.
pub open spec fn jump_at_spec(jumps: Seq<(usize, BranchKind, usize)>, idx: usize) -> Option<
    (usize, BranchKind, usize),
>
    decreases jumps.len(),
{
    if jumps.len() == 0 {
        None
    } else if jumps.first().0 == idx {
        Some(jumps.first())
    } else {
        jump_at_spec(jumps.drop_first(), idx)
    }
}

/// What `branch_at_instruction` reports: the kind and label of the
/// first jump at `idx`, with the label's target.
pub open spec fn branch_at_spec(cf: CfView, idx: usize) -> Option<(BranchKind, usize, usize)> {
    match jump_at_spec(cf.jumps, idx) {
        None => None,
        Some((_, kind, label_idx)) => if label_idx < cf.labels.len() {
            Some((kind, label_idx, cf.labels[label_idx as int]))
        } else {
            None
        },
    }
}

/// The first label, if any, of `label_at_spec` is the first by index:
/// it targets `idx` and no earlier label does; and absence means no
/// label targets `idx`.
pub proof fn lemma_label_at_first(labels: Seq<usize>, idx: usize)
    ensures
        match label_at_spec(labels, idx) {
            Some(p) => 0 <= p < labels.len() && labels[p] == idx && forall|j: int|
                0 <= j < p ==> labels[j] != idx,
            None => forall|j: int| 0 <= j < labels.len() ==> labels[j] != idx,
        },
    decreases labels.len(),
{
    if labels.len() > 0 && labels.first() != idx {
        lemma_label_at_first(labels.drop_first(), idx);
        match label_at_spec(labels, idx) {
            Some(p) => {
                assert(labels[p] == labels.drop_first()[p - 1]);
                assert forall|j: int| 0 <= j < p implies labels[j] != idx by {
                    if j > 0 {
                        assert(labels[j] == labels.drop_first()[j - 1]);
                    }
                }
            },
            None => {
                assert forall|j: int| 0 <= j < labels.len() implies labels[j] != idx by {
                    if j > 0 {
                        assert(labels[j] == labels.drop_first()[j - 1]);
                    }
                }
            },
        }
    }
}

/// Under a well-formed map, every jump resolves to an existing label
/// whose recorded target is reported.
pub proof fn lemma_branch_at_resolves(cf: CfView, idx: usize)
    requires
        cf_wf(cf),
        jump_at_spec(cf.jumps, idx) is Some,
    ensures
        branch_at_spec(cf, idx) is Some,
        branch_at_spec(cf, idx).unwrap().1 < cf.labels.len(),
        branch_at_spec(cf, idx).unwrap().2 == cf.labels[branch_at_spec(
            cf,
            idx,
        ).unwrap().1 as int],
    decreases cf.jumps.len(),
{
    lemma_jump_at_member(cf.jumps, idx);
}

proof fn lemma_jump_at_member(jumps: Seq<(usize, BranchKind, usize)>, idx: usize)
    requires
        jump_at_spec(jumps, idx) is Some,
    ensures
        exists|j: int|
            0 <= j < jumps.len() && jumps[j] == jump_at_spec(jumps, idx).unwrap(),
    decreases jumps.len(),
{
    if jumps.len() > 0 && jumps.first().0 != idx {
        lemma_jump_at_member(jumps.drop_first(), idx);
        let j0 = choose|j: int|
            0 <= j < jumps.drop_first().len() && jumps.drop_first()[j] == jump_at_spec(
                jumps.drop_first(),
                idx,
            ).unwrap();
        assert(jumps[j0 + 1] == jumps.drop_first()[j0]);
    } else {
        assert(jumps[0] == jumps.first());
    }
}

impl ControlFlowMap {
    /// The index of the first label targeting `instruction_idx`.
    pub fn label_at_instruction(&self, instruction_idx: usize) -> (r: Option<usize>)
        ensures
            match r {
                Some(i) => label_at_spec(self@.labels, instruction_idx) == Some(i as int),
                None => label_at_spec(self@.labels, instruction_idx) is None,
            },
    {
        let mut i: usize = 0;
        while i < self.labels.len()
            invariant
                0 <= i <= self@.labels.len(),
                forall|j: int| 0 <= j < i ==> self@.labels[j] != instruction_idx,
            decreases self@.labels.len() - i,
        {
            if self.labels[i] == instruction_idx {
                proof {
                    lemma_label_at_first(self@.labels, instruction_idx);
                }
                return Some(i);
            }
            i += 1;
        }
        proof {
            lemma_label_at_first(self@.labels, instruction_idx);
        }
        None
    }

    /// The branch at `instruction_idx`, if any: its kind, the label it
    /// jumps to, and that label's target instruction.
    pub fn branch_at_instruction(&self, instruction_idx: usize) -> (r: Option<
        (BranchKind, usize, usize),
    >)
        requires
            cf_wf(self@),
        ensures
            r == branch_at_spec(self@, instruction_idx),
            match r {
                Some((kind, label_idx, target)) => label_idx < self@.labels.len() && target
                    == self@.labels[label_idx as int],
                None => true,
            },
    {
        proof {
            assert(self@.jumps.subrange(0, self@.jumps.len() as int) =~= self@.jumps);
        }
        let mut i: usize = 0;
        while i < self.jumps.len()
            invariant
                0 <= i <= self@.jumps.len(),
                cf_wf(self@),
                jump_at_spec(self@.jumps, instruction_idx) == jump_at_spec(
                    self@.jumps.subrange(i as int, self@.jumps.len() as int),
                    instruction_idx,
                ),
            decreases self@.jumps.len() - i,
        {
            let ghost rest = self@.jumps.subrange(i as int, self@.jumps.len() as int);
            proof {
                assert(rest.first() == self@.jumps[i as int]);
                assert(rest.drop_first() =~= self@.jumps.subrange(
                    i + 1int,
                    self@.jumps.len() as int,
                ));
            }
            let (jidx, kind, label_idx) = self.jumps[i];
            if jidx == instruction_idx {
                proof {
                    assert(self@.jumps[i as int].2 < self@.labels.len());
                }
                return Some((kind, label_idx, self.labels[label_idx]));
            }
            i += 1;
        }
        proof {
            assert(self@.jumps.subrange(
                self@.jumps.len() as int,
                self@.jumps.len() as int,
            ) =~= Seq::<(usize, BranchKind, usize)>::empty());
        }
        None
    }
}

} // verus!
