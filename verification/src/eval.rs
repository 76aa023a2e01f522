use vstd::prelude::*;
use vstd::slice::{slice_subrange, slice_to_vec};

use crate::assembly::{ovs, Instruction};
use crate::control_flow::{
    branch_at_spec, cf_wf, label_at_spec, BranchKind, CfView, ControlFlowMap,
};
use crate::error::AnalyzeError;
use crate::ops::{eval_gcn_instruction, step_spec};
use crate::state::{
    bindings_evolve, Binding, Condition, ExecutionState, Program, Reg, Statement, StateView,
    Variable,
};

verus! {

// ------------------------------------------------------------------
// Register runs.
// ------------------------------------------------------------------

/// Exclusive end of the run of slots sharing `regs[i]`'s binding,
/// scanning right from `i`.
pub open spec fn run_end(regs: Seq<Reg>, i: int) -> int
    decreases regs.len() - i,
{
    if i < 0 || i + 1 >= regs.len() {
        i + 1
    } else if regs[i + 1].0 != regs[i].0 {
        i + 1
    } else {
        run_end(regs, i + 1)
    }
}

proof fn lemma_run_end_bounds(regs: Seq<Reg>, i: int)
    requires
        0 <= i < regs.len(),
    ensures
        i < run_end(regs, i) <= regs.len(),
        forall|k: int| i <= k < run_end(regs, i) ==> (#[trigger] regs[k]).0 == regs[i].0,
        run_end(regs, i) < regs.len() ==> regs[run_end(regs, i)].0 != regs[i].0,
    decreases regs.len() - i,
{
    if !(i + 1 >= regs.len() || regs[i + 1].0 != regs[i].0) {
        lemma_run_end_bounds(regs, i + 1);
    }
}

fn run_end_exec(regs: &Vec<Reg>, i: usize) -> (r: usize)
    requires
        i < regs@.len(),
    ensures
        r == run_end(regs@, i as int),
{
    let len = regs.len();
    let mut j: usize = i + 1;
    while j < len && regs[j].0 == regs[i].0
        invariant
            i + 1 <= j <= len,
            len == regs@.len(),
            i < regs@.len(),
            forall|k: int| i < k < j ==> (#[trigger] regs@[k]).0 == regs@[i as int].0,
        decreases len - j,
    {
        j += 1;
    }
    proof {
        lemma_run_end_at(regs@, i as int, j as int);
    }
    j
}

proof fn lemma_run_end_at(regs: Seq<Reg>, i: int, j: int)
    requires
        0 <= i < j <= regs.len(),
        forall|k: int| i < k < j ==> (#[trigger] regs[k]).0 == regs[i].0,
        j == regs.len() || regs[j].0 != regs[i].0,
    ensures
        run_end(regs, i) == j,
    decreases j - i,
{
    if i + 1 < j {
        lemma_run_end_at(regs, i + 1, j);
    }
}

// ------------------------------------------------------------------
// Assignments for one variable.
// ------------------------------------------------------------------

/// The assignment statements that copy a run of register dwords into
/// (or out of) variable `var_idx`: each maximal run of one binding
/// becomes one assignment of its width; only widths 1, 2 and 4 are
/// assignable.
pub open spec fn assignments_spec(var_regs: Seq<Reg>, var_idx: usize, i: int) -> Result<
    Seq<Statement>,
    AnalyzeError,
>
    decreases var_regs.len() - i,
{
    if i < 0 || i >= var_regs.len() {
        Ok(Seq::empty())
    } else {
        let b_idx = var_regs[i].0;
        let b_dword = var_regs[i].1;
        let hi_dword = var_regs[run_end(var_regs, i) - 1].1;
        if hi_dword < b_dword {
            Err(AnalyzeError::VariableSizeMismatch)
        } else {
            let n = 1 + hi_dword - b_dword;
            let stmt_opt = if n == 1 {
                Some(
                    Statement::DwordVarAssignment {
                        var_idx,
                        binding_idx: b_idx,
                        binding_dword: b_dword,
                        var_dword: i as u8,
                    },
                )
            } else if n == 2 {
                Some(
                    Statement::QwordVarAssignment {
                        var_idx,
                        binding_idx: b_idx,
                        binding_dword: b_dword,
                        var_dword: i as u8,
                    },
                )
            } else if n == 4 {
                Some(
                    Statement::DQwordVarAssignment {
                        var_idx,
                        binding_idx: b_idx,
                        binding_dword: b_dword,
                        var_dword: i as u8,
                    },
                )
            } else {
                None
            };
            let next = if i + n > var_regs.len() {
                var_regs.len() as int
            } else {
                i + n
            };
            match stmt_opt {
                None => Err(AnalyzeError::VariableSizeMismatch),
                Some(stmt) => match assignments_spec(var_regs, var_idx, next) {
                    Err(e) => Err(e),
                    Ok(rest) => Ok(seq![stmt] + rest),
                },
            }
        }
    }
}

fn assignments_from(var_regs: &Vec<Reg>, var_idx: usize, i: usize) -> (r: Result<
    Vec<Statement>,
    AnalyzeError,
>)
    ensures
        match assignments_spec(var_regs@, var_idx, i as int) {
            Ok(ss) => r matches Ok(v) && (r matches Ok(v) ==> v@ == ss),
            Err(e) => r == Err::<Vec<Statement>, AnalyzeError>(e),
        },
    decreases var_regs@.len() - i,
{
    if i >= var_regs.len() {
        let r: Vec<Statement> = Vec::new();
        proof {
            assert(r@ =~= Seq::<Statement>::empty());
        }
        return Ok(r);
    }
    let b_idx = var_regs[i].0;
    let b_dword = var_regs[i].1;
    let re = run_end_exec(var_regs, i);
    proof {
        lemma_run_end_bounds(var_regs@, i as int);
    }
    let hi_dword = var_regs[re - 1].1;
    if hi_dword < b_dword {
        return Err(AnalyzeError::VariableSizeMismatch);
    }
    let n: usize = (hi_dword - b_dword) as usize + 1;
    let stmt: Statement = if n == 1 {
        Statement::DwordVarAssignment {
            var_idx,
            binding_idx: b_idx,
            binding_dword: b_dword,
            var_dword: i as u8,
        }
    } else if n == 2 {
        Statement::QwordVarAssignment {
            var_idx,
            binding_idx: b_idx,
            binding_dword: b_dword,
            var_dword: i as u8,
        }
    } else if n == 4 {
        Statement::DQwordVarAssignment {
            var_idx,
            binding_idx: b_idx,
            binding_dword: b_dword,
            var_dword: i as u8,
        }
    } else {
        return Err(AnalyzeError::VariableSizeMismatch);
    };
    let rest_res: Result<Vec<Statement>, AnalyzeError> = if n >= var_regs.len() - i {
        Ok(Vec::new())
    } else {
        assignments_from(var_regs, var_idx, i + n)
    };
    match rest_res {
        Err(e) => Err(e),
        Ok(mut rest) => {
            let mut r: Vec<Statement> = Vec::new();
            r.push(stmt);
            r.append(&mut rest);
            proof {
                let next = if i + n > var_regs@.len() {
                    var_regs@.len() as int
                } else {
                    i + n as int
                };
                assert(r@ =~= seq![stmt] + assignments_spec(var_regs@, var_idx, next).unwrap());
            }
            Ok(r)
        },
    }
}


// ------------------------------------------------------------------
// Diffing register files across a conditional block.
// ------------------------------------------------------------------

pub open spec fn min2(a: int, b: int) -> int {
    if a < b {
        a
    } else {
        b
    }
}

/// The variable kind for a differing run: `taken` dwords assigned on
/// the taken side, `skipped` on the skipped side.  Only these pairs
/// are supported.
pub open spec fn var_kind_spec(taken: int, skipped: int) -> Option<Variable> {
    if taken == 1 && skipped == 1 {
        Some(Variable::Dword)
    } else if taken == 2 && skipped == 2 {
        Some(Variable::Qword)
    } else if taken == 4 && skipped == 4 {
        Some(Variable::DQword)
    } else if taken == skipped {
        None
    } else if taken == 2 && skipped == 1 {
        Some(Variable::PartialQword)
    } else if taken == 4 && skipped < 4 {
        Some(Variable::PartialDQword)
    } else {
        None
    }
}

/// A register file with the slots `i .. i + vd` redirected to the
/// dwords of one binding.
pub open spec fn write_var_regs(regs: Seq<Reg>, i: int, vd: int, vb: usize) -> Seq<Reg> {
    Seq::new(
        regs.len(),
        |j: int|
            if i <= j < i + vd {
                Reg(vb, (j - i) as u8)
            } else {
                regs[j]
            },
    )
}

/// Walks the taken (`re`) and skipped (`rs`) register files in step;
/// each differing position opens a run on both sides, introduces one
/// variable of the matching kind and a binding referencing it, emits
/// the assignments of both sides, and redirects the merged file's run
/// at the new binding.
pub open spec fn diff_regs_spec(
    re: Seq<Reg>,
    rs: Seq<Reg>,
    vars: Seq<Variable>,
    binds: Seq<Binding>,
    new_regs: Seq<Reg>,
    i: int,
) -> Result<
    (Seq<Reg>, Seq<Variable>, Seq<Binding>, Seq<Statement>, Seq<Statement>),
    AnalyzeError,
>
    decreases min2(re.len() as int, rs.len() as int) - i,
{
    let n = min2(re.len() as int, rs.len() as int);
    if i < 0 || i >= n {
        Ok((new_regs, vars, binds, Seq::empty(), Seq::empty()))
    } else if re[i] == rs[i] {
        diff_regs_spec(re, rs, vars, binds, new_regs, i + 1)
    } else {
        let elo = re[i].1;
        let ehi = re[run_end(re, i) - 1].1;
        let slo = rs[i].1;
        let shi = rs[run_end(rs, i) - 1].1;
        if ehi < elo || shi < slo {
            Err(AnalyzeError::VariableSizeMismatch)
        } else {
            let de = 1 + ehi - elo;
            let ds = 1 + shi - slo;
            match var_kind_spec(de as int, ds as int) {
                None => Err(AnalyzeError::VariableSizeMismatch),
                Some(kind) => {
                    let vd = if de >= ds {
                        de as int
                    } else {
                        ds as int
                    };
                    if i + vd > re.len() || i + vd > rs.len() {
                        Err(AnalyzeError::VariableSizeMismatch)
                    } else {
                        let var_idx = vars.len() as usize;
                        let vars2 = vars.push(kind);
                        let var_binding = binds.len() as usize;
                        let binds2 = binds.push(Binding::Variable { idx: var_idx });
                        match assignments_spec(re.subrange(i, i + vd), var_idx, 0) {
                            Err(e) => Err(e),
                            Ok(a_exec) => match assignments_spec(
                                rs.subrange(i, i + vd),
                                var_idx,
                                0,
                            ) {
                                Err(e) => Err(e),
                                Ok(a_skip) => {
                                    let nr = write_var_regs(new_regs, i, vd, var_binding);
                                    match diff_regs_spec(re, rs, vars2, binds2, nr, i + vd) {
                                        Err(e) => Err(e),
                                        Ok((nr2, v3, b3, ae, ask)) => Ok(
                                            (nr2, v3, b3, a_exec + ae, a_skip + ask),
                                        ),
                                    }
                                },
                            },
                        }
                    }
                },
            }
        }
    }
}

/// The variable kinds the diff introduces all come out of the
/// supported size matrix.
pub proof fn lemma_diff_vars_sized(
    re: Seq<Reg>,
    rs: Seq<Reg>,
    vars: Seq<Variable>,
    binds: Seq<Binding>,
    new_regs: Seq<Reg>,
    i: int,
)
    requires
        diff_regs_spec(re, rs, vars, binds, new_regs, i) is Ok,
    ensures
        ({
            let v2 = diff_regs_spec(re, rs, vars, binds, new_regs, i).unwrap().1;
            &&& v2.len() >= vars.len()
            &&& v2.subrange(0, vars.len() as int) == vars
            &&& forall|k: int|
                vars.len() <= k < v2.len() ==> exists|a: int, b: int|
                    var_kind_spec(a, b) == Some(#[trigger] v2[k])
        }),
    decreases min2(re.len() as int, rs.len() as int) - i,
{
    let n = min2(re.len() as int, rs.len() as int);
    if i < 0 || i >= n {
        assert(vars.subrange(0, vars.len() as int) =~= vars);
    } else if re[i] == rs[i] {
        lemma_diff_vars_sized(re, rs, vars, binds, new_regs, i + 1);
    } else {
        let elo = re[i].1;
        let ehi = re[run_end(re, i) - 1].1;
        let slo = rs[i].1;
        let shi = rs[run_end(rs, i) - 1].1;
        let de = 1 + ehi - elo;
        let ds = 1 + shi - slo;
        let kind = var_kind_spec(de as int, ds as int).unwrap();
        let vd = if de >= ds {
            de as int
        } else {
            ds as int
        };
        let vars2 = vars.push(kind);
        let binds2 = binds.push(Binding::Variable { idx: vars.len() as usize });
        let nr = write_var_regs(new_regs, i, vd, binds.len() as usize);
        lemma_diff_vars_sized(re, rs, vars2, binds2, nr, i + vd);
        let v2 = diff_regs_spec(re, rs, vars, binds, new_regs, i).unwrap().1;
        assert(v2.subrange(0, vars2.len() as int).subrange(0, vars.len() as int) =~= v2.subrange(
            0,
            vars.len() as int,
        ));
        assert(vars2.subrange(0, vars.len() as int) =~= vars);
        assert forall|k: int|
            vars.len() <= k < v2.len() implies exists|a: int, b: int|
            var_kind_spec(a, b) == Some(#[trigger] v2[k]) by {
            if k == vars.len() {
                assert(v2[k] == vars2[vars.len() as int]);
                assert(var_kind_spec(de as int, ds as int) == Some(v2[k]));
            }
        }
    }
}

fn vec_slice_regs(v: &Vec<Reg>, a: usize, b: usize) -> (r: Vec<Reg>)
    requires
        a <= b <= v@.len(),
    ensures
        r@ == v@.subrange(a as int, b as int),
{
    slice_to_vec(slice_subrange(v.as_slice(), a, b))
}

/// Compares the register file after a conditional block with the file
/// before it, introducing a variable per differing run; returns the
/// merged file and the assignments of the taken and skipped sides.
pub fn compare_regs_extract_vars(
    regs_executed: &Vec<Reg>,
    regs_skipped: &Vec<Reg>,
    variables: &mut Vec<Variable>,
    bindings: &mut Vec<Binding>,
) -> (r: Result<(Vec<Reg>, Vec<Statement>, Vec<Statement>), AnalyzeError>)
    ensures
        match diff_regs_spec(
            regs_executed@,
            regs_skipped@,
            old(variables)@,
            old(bindings)@,
            regs_executed@,
            0,
        ) {
            Ok((nr, v2, b2, ae, ask)) => r matches Ok(t) && (r matches Ok(t) ==> t.0@ == nr && t.1@
                == ae && t.2@ == ask && final(variables)@ == v2 && final(bindings)@ == b2),
            Err(e) => r == Err::<(Vec<Reg>, Vec<Statement>, Vec<Statement>), AnalyzeError>(e),
        },
        bindings_evolve(old(bindings)@, final(bindings)@),
{
    let ghost diff0 = diff_regs_spec(
        regs_executed@,
        regs_skipped@,
        old(variables)@,
        old(bindings)@,
        regs_executed@,
        0,
    );
    let minl: usize = if regs_executed.len() < regs_skipped.len() {
        regs_executed.len()
    } else {
        regs_skipped.len()
    };
    let mut new_regs: Vec<Reg> = regs_executed.clone();
    proof {
        assert(new_regs@ =~= regs_executed@);
    }
    let mut ae_acc: Vec<Statement> = Vec::new();
    let mut ask_acc: Vec<Statement> = Vec::new();
    let mut i: usize = 0;
    while i < minl
        invariant
            0 <= i,
            minl == min2(regs_executed@.len() as int, regs_skipped@.len() as int),
            new_regs@.len() == regs_executed@.len(),
            diff0 == diff_regs_spec(
                regs_executed@,
                regs_skipped@,
                old(variables)@,
                old(bindings)@,
                regs_executed@,
                0,
            ),
            bindings_evolve(old(bindings)@, bindings@),
            match diff_regs_spec(
                regs_executed@,
                regs_skipped@,
                variables@,
                bindings@,
                new_regs@,
                i as int,
            ) {
                Ok((nr, v, b, a1, a2)) => diff0 == Ok::<
                    (Seq<Reg>, Seq<Variable>, Seq<Binding>, Seq<Statement>, Seq<Statement>),
                    AnalyzeError,
                >((nr, v, b, ae_acc@ + a1, ask_acc@ + a2)),
                Err(e) => diff0 == Err::<
                    (Seq<Reg>, Seq<Variable>, Seq<Binding>, Seq<Statement>, Seq<Statement>),
                    AnalyzeError,
                >(e),
            },
        decreases minl - i,
    {
        if regs_executed[i] == regs_skipped[i] {
            i += 1;
            continue ;
        }
        let elo = regs_executed[i].1;
        let re_end = run_end_exec(regs_executed, i);
        proof {
            lemma_run_end_bounds(regs_executed@, i as int);
        }
        let ehi = regs_executed[re_end - 1].1;
        let slo = regs_skipped[i].1;
        let rs_end = run_end_exec(regs_skipped, i);
        proof {
            lemma_run_end_bounds(regs_skipped@, i as int);
        }
        let shi = regs_skipped[rs_end - 1].1;
        if ehi < elo || shi < slo {
            return Err(AnalyzeError::VariableSizeMismatch);
        }
        let de: usize = (ehi - elo) as usize + 1;
        let ds: usize = (shi - slo) as usize + 1;
        let kind: Variable = if de == 1 && ds == 1 {
            Variable::Dword
        } else if de == 2 && ds == 2 {
            Variable::Qword
        } else if de == 4 && ds == 4 {
            Variable::DQword
        } else if de == ds {
            return Err(AnalyzeError::VariableSizeMismatch);
        } else if de == 2 && ds == 1 {
            Variable::PartialQword
        } else if de == 4 && ds < 4 {
            Variable::PartialDQword
        } else {
            return Err(AnalyzeError::VariableSizeMismatch);
        };
        let vd: usize = if de >= ds {
            de
        } else {
            ds
        };
        if vd > regs_executed.len() - i || vd > regs_skipped.len() - i {
            return Err(AnalyzeError::VariableSizeMismatch);
        }
        let var_idx = variables.len();
        variables.push(kind);
        let var_binding = bindings.len();
        bindings.push(Binding::Variable { idx: var_idx });
        let re_slice = vec_slice_regs(regs_executed, i, i + vd);
        let rs_slice = vec_slice_regs(regs_skipped, i, i + vd);
        let mut a_exec = match assignments_from(&re_slice, var_idx, 0) {
            Ok(v) => v,
            Err(e) => {
                return Err(e);
            },
        };
        let mut a_skip = match assignments_from(&rs_slice, var_idx, 0) {
            Ok(v) => v,
            Err(e) => {
                return Err(e);
            },
        };
        let ghost nr_pre = new_regs@;
        let mut k: usize = 0;
        while k < vd
            invariant
                0 <= k <= vd,
                vd <= 256,
                i + vd <= usize::MAX,
                i + vd <= new_regs@.len(),
                new_regs@.len() == nr_pre.len(),
                forall|j: int|
                    0 <= j < new_regs@.len() ==> #[trigger] new_regs@[j] == (if i <= j < i + k {
                        Reg(var_binding, (j - i) as u8)
                    } else {
                        nr_pre[j]
                    }),
            decreases vd - k,
        {
            new_regs[i + k] = Reg(var_binding, k as u8);
            k += 1;
        }
        proof {
            assert(new_regs@ =~= write_var_regs(nr_pre, i as int, vd as int, var_binding));
        }
        let ghost ae_pre = ae_acc@;
        let ghost ask_pre = ask_acc@;
        ae_acc.append(&mut a_exec);
        ask_acc.append(&mut a_skip);
        proof {
            let a1 = assignments_spec(
                regs_executed@.subrange(i as int, i + vd as int),
                var_idx,
                0,
            ).unwrap();
            let a2 = assignments_spec(
                regs_skipped@.subrange(i as int, i + vd as int),
                var_idx,
                0,
            ).unwrap();
            assert(ae_acc@ == ae_pre + a1);
            assert(ask_acc@ == ask_pre + a2);
            assert(forall|x: Seq<Statement>, y: Seq<Statement>, z: Seq<Statement>|
                (x + y) + z =~= x + (y + z));
        }
        i += vd;
    }
    proof {
        assert(ae_acc@ + Seq::<Statement>::empty() =~= ae_acc@);
        assert(ask_acc@ + Seq::<Statement>::empty() =~= ask_acc@);
    }
    Ok((new_regs, ae_acc, ask_acc))
}


// ------------------------------------------------------------------
// Reconciling states at a conditional join.
// ------------------------------------------------------------------

/// Diffs the scalar then the vector files of the speculatively
/// evaluated state (`post`) against the pre-branch state (`pre`),
/// merging both files onto the new variables and declaring each
/// variable the diff introduced.
pub open spec fn block_vars_spec(post: StateView, pre: StateView) -> Result<
    (StateView, Seq<Statement>, Seq<Statement>, Seq<Statement>),
    AnalyzeError,
> {
    match diff_regs_spec(post.sgprs, pre.sgprs, post.variables, post.bindings, post.sgprs, 0) {
        Err(e) => Err(e),
        Ok((nsg, v1, b1, ae1, as1)) => match diff_regs_spec(
            post.vgprs,
            pre.vgprs,
            v1,
            b1,
            post.vgprs,
            0,
        ) {
            Err(e) => Err(e),
            Ok((nvg, v2, b2, ae2, as2)) => {
                let decls = Seq::new(
                    (v2.len() - post.variables.len()) as nat,
                    |k: int| Statement::VarDecl { var_idx: (post.variables.len() + k) as usize },
                );
                Ok(
                    (
                        StateView {
                            sgprs: nsg,
                            vgprs: nvg,
                            bindings: b2,
                            variables: v2,
                            scc: pre.scc,
                            vcc: pre.vcc,
                        },
                        decls,
                        ae1 + ae2,
                        as1 + as2,
                    ),
                )
            },
        },
    }
}

/// Reconciles the register files after a conditional block: the block
/// state's files are rewritten onto fresh variables; the declarations
/// and the two sides' assignments are returned.
pub fn block_variables(st_executed: &mut ExecutionState, st_skipped: &ExecutionState) -> (r:
    Result<(Vec<Statement>, Vec<Statement>, Vec<Statement>), AnalyzeError>)
    ensures
        match block_vars_spec(old(st_executed)@, st_skipped@) {
            Ok((merged, decls, ae, ask)) => r matches Ok(t) && (r matches Ok(t) ==> t.0@ == decls
                && t.1@ == ae && t.2@ == ask && final(st_executed)@ == (StateView {
                scc: old(st_executed)@.scc,
                vcc: old(st_executed)@.vcc,
                ..merged
            })),
            Err(e) => r == Err::<(Vec<Statement>, Vec<Statement>, Vec<Statement>), AnalyzeError>(
                e,
            ),
        },
        bindings_evolve(old(st_executed)@.bindings, final(st_executed)@.bindings),
{
    let ghost vars0 = st_executed@.variables;
    let first_new: usize = st_executed.variables.len();
    let (nsg, mut ae1, mut as1) = match compare_regs_extract_vars(
        &st_executed.sgprs,
        &st_skipped.sgprs,
        &mut st_executed.variables,
        &mut st_executed.bindings,
    ) {
        Ok(t) => t,
        Err(e) => {
            return Err(e);
        },
    };
    let (nvg, mut ae2, mut as2) = match compare_regs_extract_vars(
        &st_executed.vgprs,
        &st_skipped.vgprs,
        &mut st_executed.variables,
        &mut st_executed.bindings,
    ) {
        Ok(t) => t,
        Err(e) => {
            return Err(e);
        },
    };
    st_executed.sgprs = nsg;
    st_executed.vgprs = nvg;
    proof {
        let post = old(st_executed)@;
        lemma_diff_vars_sized(
            post.sgprs,
            st_skipped@.sgprs,
            post.variables,
            post.bindings,
            post.sgprs,
            0,
        );
        let d1 = diff_regs_spec(
            post.sgprs,
            st_skipped@.sgprs,
            post.variables,
            post.bindings,
            post.sgprs,
            0,
        ).unwrap();
        lemma_diff_vars_sized(post.vgprs, st_skipped@.vgprs, d1.1, d1.2, post.vgprs, 0);
    }

    let mut decls: Vec<Statement> = Vec::new();
    let ghost n_new = st_executed@.variables.len() - vars0.len();
    let total: usize = st_executed.variables.len();
    let mut k: usize = first_new;
    while k < total
        invariant
            first_new <= k <= total,
            total - first_new == n_new,
            decls@ == Seq::new(
                (k - first_new) as nat,
                |j: int| Statement::VarDecl { var_idx: (first_new + j) as usize },
            ),
        decreases total - k,
    {
        decls.push(Statement::VarDecl { var_idx: k });
        proof {
            assert(decls@ =~= Seq::new(
                (k + 1 - first_new) as nat,
                |j: int| Statement::VarDecl { var_idx: (first_new + j) as usize },
            ));
        }
        k += 1;
    }

    let mut ae = ae1;
    ae.append(&mut ae2);
    let mut ask = as1;
    ask.append(&mut as2);
    proof {
        assert(decls@ =~= block_vars_spec(old(st_executed)@, st_skipped@).unwrap().1);
        assert(ae@ == block_vars_spec(old(st_executed)@, st_skipped@).unwrap().2);
        assert(ask@ == block_vars_spec(old(st_executed)@, st_skipped@).unwrap().3);
    }
    Ok((decls, ae, ask))
}


// ------------------------------------------------------------------
// The block evaluator.
// ------------------------------------------------------------------

/// Statements tagged with an instruction position, for ordering.
pub open spec fn tag_spec(stmts: Seq<Statement>, at: usize) -> Seq<(usize, Statement)> {
    stmts.map_values(|st: Statement| (at, st))
}

fn push_tagged(pgm: &mut Program, stmts: &Vec<Statement>, at: usize)
    ensures
        final(pgm)@ == old(pgm)@ + tag_spec(stmts@, at),
{
    let mut k: usize = 0;
    while k < stmts.len()
        invariant
            0 <= k <= stmts@.len(),
            pgm@ == old(pgm)@ + tag_spec(stmts@.subrange(0, k as int), at),
        decreases stmts@.len() - k,
    {
        pgm.push((at, stmts[k]));
        proof {
            assert(pgm@ =~= old(pgm)@ + tag_spec(stmts@.subrange(0, k + 1int), at));
        }
        k += 1;
    }
    proof {
        assert(stmts@.subrange(0, stmts@.len() as int) =~= stmts@);
    }
}

/// The statement a label at this position contributes, if any.
pub open spec fn label_stmts_spec(cf: CfView, at: int) -> Seq<(usize, Statement)> {
    match label_at_spec(cf.labels, at as usize) {
        Some(p) => seq![((at + 1) as usize, Statement::Label { index: p as usize })],
        None => Seq::empty(),
    }
}

/// Walks `instrs[start..end]`: emits a label where one lands, skips
/// the body of a forward unconditional branch, evaluates the body of
/// a forward conditional branch speculatively and reconciles the
/// states (declarations and skipped-side assignments before the jump,
/// taken-side assignments and the body after it), records a jump for
/// a backward conditional branch, and otherwise steps one
/// instruction.
pub open spec fn eval_block_spec(
    s: StateView,
    instrs: Seq<Instruction>,
    start: int,
    end: int,
    cf: CfView,
) -> Result<(StateView, Seq<(usize, Statement)>), AnalyzeError>
    decreases end - start,
{
    if start < 0 || start >= end || end > instrs.len() {
        Ok((s, Seq::empty()))
    } else {
        let lbl = label_stmts_spec(cf, start);
        match branch_at_spec(cf, start as usize) {
            Some((BranchKind::Uncond, _, dst)) => {
                if dst <= start {
                    Err(AnalyzeError::BackwardUnconditional)
                } else {
                    let nxt = min2(dst as int, end);
                    match eval_block_spec(s, instrs, nxt, end, cf) {
                        Err(e) => Err(e),
                        Ok((s2, rest)) => Ok((s2, lbl + rest)),
                    }
                }
            },
            Some((kind, label_idx, dst)) => {
                if dst > start {
                    let blk_end = min2(dst as int, end);
                    match eval_block_spec(s, instrs, start + 1, blk_end, cf) {
                        Err(e) => Err(e),
                        Ok((s_blk, blk_pgm)) => match block_vars_spec(s_blk, s) {
                            Err(e) => Err(e),
                            Ok((merged, decls, a_exec, a_skip)) => match s.scc {
                                None => Err(
                                    AnalyzeError::UnsupportedMnemonic(instrs[start].0),
                                ),
                                Some(cond) => {
                                    let jump = if kind == BranchKind::SCCSet {
                                        Statement::JumpIf { cond, label_idx }
                                    } else {
                                        Statement::JumpUnless { cond, label_idx }
                                    };
                                    let here = lbl + tag_spec(decls, (start + 1) as usize)
                                        + tag_spec(a_skip, (start + 1) as usize) + seq![
                                        ((start + 1) as usize, jump),
                                    ] + tag_spec(a_exec, (start + 2) as usize) + blk_pgm;
                                    match eval_block_spec(merged, instrs, blk_end, end, cf) {
                                        Err(e) => Err(e),
                                        Ok((s_fin, rest)) => Ok((s_fin, here + rest)),
                                    }
                                },
                            },
                        },
                    }
                } else {
                    match s.scc {
                        None => Err(AnalyzeError::UnsupportedMnemonic(instrs[start].0)),
                        Some(cond) => {
                            let jump = if kind == BranchKind::SCCSet {
                                Statement::JumpIf { cond, label_idx }
                            } else {
                                Statement::JumpUnless { cond, label_idx }
                            };
                            match eval_block_spec(s, instrs, start + 1, end, cf) {
                                Err(e) => Err(e),
                                Ok((s2, rest)) => Ok(
                                    (s2, lbl + seq![((start + 1) as usize, jump)] + rest),
                                ),
                            }
                        },
                    }
                }
            },
            None => {
                match step_spec(s, instrs[start].0, ovs(instrs[start].1@), start as usize) {
                    Err(e) => Err(e),
                    Ok((s1, stmts)) => match eval_block_spec(s1, instrs, start + 1, end, cf) {
                        Err(e) => Err(e),
                        Ok((s2, rest)) => Ok((s2, lbl + stmts + rest)),
                    },
                }
            },
        }
    }
}

/// Evaluates `instrs[start..end]`, appending the recovered statements
/// and threading the simulated state.
#[verifier::rlimit(100)]
fn eval_block(
    st: &mut ExecutionState,
    instrs: &Vec<Instruction>,
    start: usize,
    end: usize,
    cf_map: &ControlFlowMap,
) -> (r: Result<Program, AnalyzeError>)
    requires
        end <= instrs@.len(),
        instrs@.len() < usize::MAX - 1,
        cf_wf(cf_map@),
    ensures
        match eval_block_spec(old(st)@, instrs@, start as int, end as int, cf_map@) {
            Ok((s2, p)) => r matches Ok(v) && (r matches Ok(v) ==> v@ == p) && final(st)@ == s2,
            Err(e) => r == Err::<Program, AnalyzeError>(e),
        },
        bindings_evolve(old(st)@.bindings, final(st)@.bindings),
    decreases end - start,
{
    let mut pgm: Program = Vec::new();
    if start >= end {
        return Ok(pgm);
    }
    let ghost lbl = label_stmts_spec(cf_map@, start as int);
    match cf_map.label_at_instruction(start) {
        Some(p) => {
            pgm.push((start + 1, Statement::Label { index: p }));
            proof {
                assert(pgm@ =~= lbl);
            }
        },
        None => {
            proof {
                assert(pgm@ =~= lbl);
            }
        },
    }
    match cf_map.branch_at_instruction(start) {
        Some((BranchKind::Uncond, _, dst)) => {
            if dst <= start {
                return Err(AnalyzeError::BackwardUnconditional);
            }
            let nxt: usize = if dst < end {
                dst
            } else {
                end
            };
            match eval_block(st, instrs, nxt, end, cf_map) {
                Err(e) => Err(e),
                Ok(mut rest) => {
                    let ghost rest_v = rest@;
                    pgm.append(&mut rest);
                    proof {
                        assert(pgm@ =~= lbl + rest_v);
                    }
                    Ok(pgm)
                },
            }
        },
        Some((kind, label_idx, dst)) => {
            if dst > start {
                let blk_end: usize = if dst < end {
                    dst
                } else {
                    end
                };
                let mut st_blk = st.duplicate();
                let blk_pgm = match eval_block(&mut st_blk, instrs, start + 1, blk_end, cf_map) {
                    Err(e) => {
                        return Err(e);
                    },
                    Ok(v) => v,
                };
                let (decls, a_exec, a_skip) = match block_variables(&mut st_blk, st) {
                    Err(e) => {
                        return Err(e);
                    },
                    Ok(t) => t,
                };
                let cond: Condition = match st.scc {
                    Some(c) => c,
                    None => {
                        return Err(AnalyzeError::UnsupportedMnemonic(instrs[start].0.clone()));
                    },
                };
                st.sgprs = st_blk.sgprs;
                st.vgprs = st_blk.vgprs;
                st.bindings = st_blk.bindings;
                st.variables = st_blk.variables;
                let jump: Statement = if matches!(kind, BranchKind::SCCSet) {
                    Statement::JumpIf { cond, label_idx }
                } else {
                    Statement::JumpUnless { cond, label_idx }
                };
                push_tagged(&mut pgm, &decls, start + 1);
                push_tagged(&mut pgm, &a_skip, start + 1);
                pgm.push((start + 1, jump));
                push_tagged(&mut pgm, &a_exec, start + 2);
                let ghost blk_v = blk_pgm@;
                let mut blk_pgm_mut = blk_pgm;
                pgm.append(&mut blk_pgm_mut);
                proof {
                    let here = eval_block_here(
                        old(st)@,
                        instrs@,
                        start as int,
                        end as int,
                        cf_map@,
                    );
                    assert(pgm@ =~= here);
                }
                match eval_block(st, instrs, blk_end, end, cf_map) {
                    Err(e) => Err(e),
                    Ok(mut rest) => {
                        let ghost rest_v = rest@;
                        let ghost pgm_v = pgm@;
                        pgm.append(&mut rest);
                        proof {
                            assert(pgm@ =~= pgm_v + rest_v);
                        }
                        Ok(pgm)
                    },
                }
            } else {
                let cond: Condition = match st.scc {
                    Some(c) => c,
                    None => {
                        return Err(AnalyzeError::UnsupportedMnemonic(instrs[start].0.clone()));
                    },
                };
                let jump: Statement = if matches!(kind, BranchKind::SCCSet) {
                    Statement::JumpIf { cond, label_idx }
                } else {
                    Statement::JumpUnless { cond, label_idx }
                };
                pgm.push((start + 1, jump));
                match eval_block(st, instrs, start + 1, end, cf_map) {
                    Err(e) => Err(e),
                    Ok(mut rest) => {
                        let ghost rest_v = rest@;
                        pgm.append(&mut rest);
                        proof {
                            assert(pgm@ =~= (lbl + seq![((start + 1) as usize, jump)]) + rest_v);
                            assert(lbl + seq![((start + 1) as usize, jump)] + rest_v =~= (lbl
                                + seq![((start + 1) as usize, jump)]) + rest_v);
                        }
                        Ok(pgm)
                    },
                }
            }
        },
        None => {
            match eval_gcn_instruction(st, &mut pgm, start, &instrs[start].0, &instrs[start].1) {
                Err(e) => {
                    return Err(e);
                },
                Ok(_) => {},
            }
            match eval_block(st, instrs, start + 1, end, cf_map) {
                Err(e) => Err(e),
                Ok(mut rest) => {
                    let ghost rest_v = rest@;
                    let ghost pgm_v = pgm@;
                    pgm.append(&mut rest);
                    proof {
                        let stmts = step_spec(
                            old(st)@,
                            instrs@[start as int].0,
                            ovs(instrs@[start as int].1@),
                            start,
                        ).unwrap().1;
                        assert(pgm_v == lbl + stmts);
                        assert(pgm@ =~= lbl + stmts + rest_v);
                    }
                    Ok(pgm)
                },
            }
        },
    }
}

/// The statements a forward conditional branch itself contributes,
/// before the continuation.
pub open spec fn eval_block_here(
    s: StateView,
    instrs: Seq<Instruction>,
    start: int,
    end: int,
    cf: CfView,
) -> Seq<(usize, Statement)> {
    let lbl = label_stmts_spec(cf, start);
    match branch_at_spec(cf, start as usize) {
        Some((kind, label_idx, dst)) => {
            let blk_end = min2(dst as int, end);
            let blk = eval_block_spec(s, instrs, start + 1, blk_end, cf).unwrap();
            let bv = block_vars_spec(blk.0, s).unwrap();
            let cond = s.scc.unwrap();
            let jump = if kind == BranchKind::SCCSet {
                Statement::JumpIf { cond, label_idx }
            } else {
                Statement::JumpUnless { cond, label_idx }
            };
            lbl + tag_spec(bv.1, (start + 1) as usize) + tag_spec(bv.3, (start + 1) as usize)
                + seq![((start + 1) as usize, jump)] + tag_spec(bv.2, (start + 2) as usize)
                + blk.1
        },
        None => lbl,
    }
}

/// Evaluates the whole instruction stream from entry state `st`,
/// producing the recovered program.  The binding list evolves
/// monotonically: it only grows, and an existing binding changes only
/// through the in-place 64-bit add promotion.
pub fn eval_pgm(st: &mut ExecutionState, instrs: &Vec<Instruction>, cf_map: &ControlFlowMap) -> (r:
    Result<Program, AnalyzeError>)
    requires
        instrs@.len() < usize::MAX - 1,
        cf_wf(cf_map@),
    ensures
        match eval_block_spec(old(st)@, instrs@, 0, instrs@.len() as int, cf_map@) {
            Ok((s2, p)) => r matches Ok(v) && (r matches Ok(v) ==> v@ == p) && final(st)@ == s2,
            Err(e) => r == Err::<Program, AnalyzeError>(e),
        },
        bindings_evolve(old(st)@.bindings, final(st)@.bindings),
{
    eval_block(st, instrs, 0, instrs.len(), cf_map)
}

/// Runs the data-flow analysis over the instruction stream.
pub fn analyze(st: &mut ExecutionState, instrs: &Vec<Instruction>, cf_map: &ControlFlowMap) -> (r:
    Result<Program, AnalyzeError>)
    requires
        instrs@.len() < usize::MAX - 1,
        cf_wf(cf_map@),
    ensures
        match eval_block_spec(old(st)@, instrs@, 0, instrs@.len() as int, cf_map@) {
            Ok((s2, p)) => r matches Ok(v) && (r matches Ok(v) ==> v@ == p) && final(st)@ == s2,
            Err(e) => r == Err::<Program, AnalyzeError>(e),
        },
        bindings_evolve(old(st)@.bindings, final(st)@.bindings),
{
    eval_pgm(st, instrs, cf_map)
}

} // verus!
