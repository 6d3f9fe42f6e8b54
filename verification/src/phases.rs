//! Phase separation: no compile-only construct may appear transitively
//! inside a deploy-time definition.
//!
//! The discipline is syntactic and local, so a single recursive walk
//! suffices; no symbol resolution is involved.

use vstd::prelude::*;
use vstd::string::StringExecFns;
use crate::ast::{
    all_bindings_compile_free, all_compile_free, compile_free, occurs_in, occurs_in_bindings,
    occurs_in_list, phase_of, spec_is_compile_only, Expr, Phase,
};

verus! {

/// A failure of phase separation.
#[derive(Debug, PartialEq, Eq)]
pub enum PhaseError {
    /// A compile-only form sits inside deploy-time code; the payload names
    /// the enclosing function or form.
    CompileInDeploy(String),
    /// Sub-expressions disagree on phase.
    MixedPhase,
    /// Deploy-time recursion surfaced during phase analysis.
    RecursionInDeploy,
}

/// Whether a walk of `e` raises no phase failure: every deploy-time
/// container reachable from `e` (not through a compile-only form, which is
/// opaque to this walk) holds only compile-free sub-expressions.
pub open spec fn phase_clean(e: Expr) -> bool
    decreases e,
{
    match e {
        Expr::Int(_) => true,
        Expr::Float(_) => true,
        Expr::Bool(_) => true,
        Expr::String(_) => true,
        Expr::Ident(_) => true,
        Expr::DefunDeploy { body, .. } => all_compile_free(body@),
        Expr::BoundedFor { start, end, body, .. } => compile_free(*start) && compile_free(*end)
            && all_compile_free(body@),
        Expr::WithCapability { capability, body } => compile_free(*capability) && all_compile_free(
            body@,
        ),
        Expr::DefunCompile { .. } => true,
        Expr::Macro { .. } => true,
        Expr::EvalCompile(_) => true,
        Expr::Include(_) => true,
        Expr::For { .. } => true,
        Expr::While { .. } => true,
        Expr::Let { bindings, body } => all_bindings_phase_clean(bindings@) && all_phase_clean(
            body@,
        ),
        Expr::SetVar { value, .. } => phase_clean(*value),
        Expr::If { condition, then_branch, else_branch } => phase_clean(*condition) && phase_clean(
            *then_branch,
        ) && phase_clean(*else_branch),
        Expr::FunctionCall { func, args } => phase_clean(*func) && all_phase_clean(args@),
        Expr::ArrayLiteral { .. } => true,
        Expr::ArrayGet { array, index } => phase_clean(*array) && phase_clean(*index),
        Expr::ArraySet { array, index, value } => phase_clean(*array) && phase_clean(*index)
            && phase_clean(*value),
        Expr::ArrayLength(a) => phase_clean(*a),
        Expr::GpioSet { device, value } => phase_clean(*device) && phase_clean(*value),
        Expr::GpioGet(d) => phase_clean(*d),
        Expr::UartSend { device, data } => phase_clean(*device) && phase_clean(*data),
        Expr::UartRecv(d) => phase_clean(*d),
        Expr::SensorRead(d) => phase_clean(*d),
        Expr::NetworkSend { device, data } => phase_clean(*device) && phase_clean(*data),
        Expr::NetworkRecv(d) => phase_clean(*d),
        Expr::SleepMs(m) => phase_clean(*m),
        Expr::Timestamp => true,
        Expr::ResourceBudget { .. } => true,
        Expr::DefCap { .. } => true,
        Expr::Program { budget, forms, .. } => phase_clean(*budget) && all_phase_clean(forms@),
    }
}

/// Every element of the sequence is phase-clean.
pub open spec fn all_phase_clean(es: Seq<Expr>) -> bool
    decreases es,
{
    forall|i: int| 0 <= i < es.len() ==> phase_clean(#[trigger] es[i])
}

/// Every right-hand side of a binding list is phase-clean.
pub open spec fn all_bindings_phase_clean(bs: Seq<(String, Expr)>) -> bool
    decreases bs,
{
    forall|i: int| 0 <= i < bs.len() ==> phase_clean(#[trigger] bs[i].1)
}

/// A top-level deploy function carries no compile-only syntax in its body.
pub open spec fn top_defun_ok(e: Expr) -> bool {
    e matches Expr::DefunDeploy { body, .. } ==> all_compile_free(body@)
}

/// A top-level form passes deploy-phase validation: a deploy function has a
/// compile-free body, and a program envelope is checked one level deep.
pub open spec fn top_form_ok(e: Expr) -> bool {
    &&& top_defun_ok(e)
    &&& (e matches Expr::Program { forms, .. } ==> forall|i: int|
        0 <= i < forms@.len() ==> top_defun_ok(#[trigger] forms@[i]))
}

/// Whether an expression is compile-free, computed by a full recursive walk.
#[verifier::loop_isolation(false)]
pub fn check_compile_free(e: &Expr) -> (r: bool)
    ensures
        r == compile_free(*e),
    decreases *e,
{
    match e {
        Expr::Int(_) => true,
        Expr::Float(_) => true,
        Expr::Bool(_) => true,
        Expr::String(_) => true,
        Expr::Ident(_) => true,
        Expr::DefunDeploy { body, .. } => check_all_compile_free(body),
        Expr::BoundedFor { start, end, body, .. } => check_compile_free(start)
            && check_compile_free(end) && check_all_compile_free(body),
        Expr::WithCapability { capability, body } => check_compile_free(capability)
            && check_all_compile_free(body),
        Expr::DefunCompile { .. } => false,
        Expr::Macro { .. } => false,
        Expr::EvalCompile(_) => false,
        Expr::Include(_) => false,
        Expr::For { .. } => false,
        Expr::While { .. } => false,
        Expr::Let { bindings, body } => check_bindings_compile_free(bindings)
            && check_all_compile_free(body),
        Expr::SetVar { value, .. } => check_compile_free(value),
        Expr::If { condition, then_branch, else_branch } => check_compile_free(condition)
            && check_compile_free(then_branch) && check_compile_free(else_branch),
        Expr::FunctionCall { func, args } => check_compile_free(func) && check_all_compile_free(
            args,
        ),
        Expr::ArrayLiteral { .. } => true,
        Expr::ArrayGet { array, index } => check_compile_free(array) && check_compile_free(index),
        Expr::ArraySet { array, index, value } => check_compile_free(array) && check_compile_free(
            index,
        ) && check_compile_free(value),
        Expr::ArrayLength(a) => check_compile_free(a),
        Expr::GpioSet { device, value } => check_compile_free(device) && check_compile_free(value),
        Expr::GpioGet(d) => check_compile_free(d),
        Expr::UartSend { device, data } => check_compile_free(device) && check_compile_free(data),
        Expr::UartRecv(d) => check_compile_free(d),
        Expr::SensorRead(d) => check_compile_free(d),
        Expr::NetworkSend { device, data } => check_compile_free(device) && check_compile_free(
            data,
        ),
        Expr::NetworkRecv(d) => check_compile_free(d),
        Expr::SleepMs(m) => check_compile_free(m),
        Expr::Timestamp => true,
        Expr::ResourceBudget { .. } => true,
        Expr::DefCap { .. } => true,
        Expr::Program { budget, forms, .. } => check_compile_free(budget) && check_all_compile_free(
            forms,
        ),
    }
}

/// Whether every expression of a list is compile-free.
#[verifier::loop_isolation(false)]
fn check_all_compile_free(es: &Vec<Expr>) -> (r: bool)
    ensures
        r == all_compile_free(es@),
    decreases es@,
{
    let n = es.len();
    for i in 0..n
        invariant
            n == es@.len(),
            forall|j: int| 0 <= j < i ==> compile_free(#[trigger] es@[j]),
    {
        if !check_compile_free(&es[i]) {
            return false;
        }
    }
    true
}

/// Whether every binding's right-hand side is compile-free.
#[verifier::loop_isolation(false)]
fn check_bindings_compile_free(bs: &Vec<(String, Expr)>) -> (r: bool)
    ensures
        r == all_bindings_compile_free(bs@),
    decreases bs@,
{
    let n = bs.len();
    for i in 0..n
        invariant
            n == bs@.len(),
            forall|j: int| 0 <= j < i ==> compile_free(#[trigger] bs@[j].1),
    {
        if !check_compile_free(&bs[i].1) {
            return false;
        }
    }
    true
}

impl Expr {
    /// The phase of this expression: compile-only kinds are compile-time; a
    /// node that transitively holds compile-only syntax without being
    /// compile-only itself is mixed, the error value; everything else runs
    /// at deploy time.
    pub fn phase(&self) -> (r: Phase)
        ensures
            r == phase_of(*self),
    {
        if self.is_compile_only() {
            Phase::Compile
        } else if check_compile_free(self) {
            Phase::Deploy
        } else {
            Phase::Mixed
        }
    }

    /// Whether this expression is safe to run on the device.
    pub fn is_deploy_safe(&self) -> (r: bool)
        ensures
            r == (phase_of(*self) == Phase::Deploy),
    {
        match self.phase() {
            Phase::Deploy => true,
            _ => false,
        }
    }
}

/// The expressions behind a sequence of references.
pub open spec fn deref_seq<'a>(s: Seq<&'a Expr>) -> Seq<Expr> {
    s.map_values(|x: &Expr| *x)
}

/// Selects the deploy functions of a form list.
pub open spec fn is_deploy_defun_pred() -> spec_fn(Expr) -> bool {
    |e: Expr| e is DefunDeploy
}

/// Selects the compile functions and macros of a form list.
pub open spec fn is_compile_defun_pred() -> spec_fn(Expr) -> bool {
    |e: Expr| e is DefunCompile || e is Macro
}

/// The phase separation pass over a program's forms.
pub struct PhaseSeparator {}

impl Default for PhaseSeparator {
    fn default() -> (r: Self) {
        Self {  }
    }
}

impl PhaseSeparator {
    pub fn new() -> (r: Self) {
        Self {  }
    }

    /// Classify an expression and fail on the first deploy-time container
    /// whose sub-expressions are not all compile-free.
    ///
    /// A compile-only form at the root is itself legal: it is compile-phase
    /// code and the walk does not enter it.
    #[verifier::loop_isolation(false)]
    pub fn analyze(&self, e: &Expr) -> (r: Result<Phase, PhaseError>)
        ensures
            r.is_ok() <==> phase_clean(*e),
            spec_is_compile_only(*e) ==> r == Result::<Phase, PhaseError>::Ok(Phase::Compile),
            !spec_is_compile_only(*e) && r.is_ok() ==> r == Result::<Phase, PhaseError>::Ok(
                Phase::Deploy,
            ),
            r.is_err() ==> r matches Result::Err(PhaseError::CompileInDeploy(_)),
            (*e matches Expr::DefunDeploy { name, body, .. } && !all_compile_free(body@)) ==> (
            r matches Result::Err(PhaseError::CompileInDeploy(ctx)) && ctx@ == "in function "@
                + e->DefunDeploy_name@),
            (*e matches Expr::BoundedFor { start, end, body, .. } && !(compile_free(*start)
                && compile_free(*end) && all_compile_free(body@))) ==> (r matches Result::Err(
                PhaseError::CompileInDeploy(ctx),
            ) && ctx@ == "in bounded-for loop"@),
            (*e matches Expr::WithCapability { capability, body } && !(compile_free(*capability)
                && all_compile_free(body@))) ==> (r matches Result::Err(
                PhaseError::CompileInDeploy(ctx),
            ) && ctx@ == "in with-capability block"@),
        decreases *e,
    {
        match e {
            Expr::DefunDeploy { name, body, .. } => {
                if check_all_compile_free(body) {
                    Ok(Phase::Deploy)
                } else {
                    Err(PhaseError::CompileInDeploy("in function ".to_owned().concat(
                        name.as_str(),
                    )))
                }
            },
            Expr::BoundedFor { start, end, body, .. } => {
                if check_compile_free(start) && check_compile_free(end) && check_all_compile_free(
                    body,
                ) {
                    Ok(Phase::Deploy)
                } else {
                    Err(PhaseError::CompileInDeploy("in bounded-for loop".to_owned()))
                }
            },
            Expr::WithCapability { capability, body } => {
                if check_compile_free(capability) && check_all_compile_free(body) {
                    Ok(Phase::Deploy)
                } else {
                    Err(PhaseError::CompileInDeploy("in with-capability block".to_owned()))
                }
            },
            Expr::DefunCompile { .. } => Ok(Phase::Compile),
            Expr::Macro { .. } => Ok(Phase::Compile),
            Expr::EvalCompile(_) => Ok(Phase::Compile),
            Expr::Include(_) => Ok(Phase::Compile),
            Expr::For { .. } => Ok(Phase::Compile),
            Expr::While { .. } => Ok(Phase::Compile),
            Expr::Let { bindings, body } => {
                let nb = bindings.len();
                for i in 0..nb
                    invariant
                        nb == bindings@.len(),
                        forall|j: int| 0 <= j < i ==> phase_clean(#[trigger] bindings@[j].1),
                {
                    let sub = self.analyze(&bindings[i].1);
                    if let Err(err) = sub {
                        proof {
                            assert(!phase_clean(bindings@[i as int].1));
                            assert(!all_bindings_phase_clean(bindings@));
                        }
                        return Err(err);
                    }
                }
                let n = body.len();
                for i in 0..n
                    invariant
                        n == body@.len(),
                        all_bindings_phase_clean(bindings@),
                        forall|j: int| 0 <= j < i ==> phase_clean(#[trigger] body@[j]),
                {
                    let sub = self.analyze(&body[i]);
                    if let Err(err) = sub {
                        proof {
                            assert(!phase_clean(body@[i as int]));
                            assert(!all_phase_clean(body@));
                        }
                        return Err(err);
                    }
                }
                proof {
                    assert(forall|j: int| 0 <= j < body@.len() ==> phase_clean(#[trigger] body@[j]));
                    assert(all_phase_clean(body@));
                    assert(all_bindings_phase_clean(bindings@));
                    assert(phase_clean(*e));
                }
                Ok(Phase::Deploy)
            },
            Expr::SetVar { value, .. } => {
                let sub = self.analyze(value);
                match sub {
                    Ok(_) => { proof { assert(phase_clean(*e)); } Ok(Phase::Deploy) },
                    Err(err) => Err(err),
                }
            },
            Expr::If { condition, then_branch, else_branch } => {
                let c = self.analyze(condition);
                if let Err(err) = c {
                    return Err(err);
                }
                let t = self.analyze(then_branch);
                if let Err(err) = t {
                    return Err(err);
                }
                let f = self.analyze(else_branch);
                match f {
                    Ok(_) => { proof { assert(phase_clean(*e)); } Ok(Phase::Deploy) },
                    Err(err) => Err(err),
                }
            },
            Expr::FunctionCall { func, args } => {
                let c = self.analyze(func);
                if let Err(err) = c {
                    return Err(err);
                }
                let n = args.len();
                for i in 0..n
                    invariant
                        n == args@.len(),
                        forall|j: int| 0 <= j < i ==> phase_clean(#[trigger] args@[j]),
                {
                    let sub = self.analyze(&args[i]);
                    if let Err(err) = sub {
                        proof {
                            assert(!phase_clean(args@[i as int]));
                            assert(!all_phase_clean(args@));
                        }
                        return Err(err);
                    }
                }
                proof {
                    assert(forall|j: int| 0 <= j < args@.len() ==> phase_clean(#[trigger] args@[j]));
                    assert(all_phase_clean(args@));
                }
                Ok(Phase::Deploy)
            },
            Expr::ArrayGet { array, index } => {
                let a = self.analyze(array);
                if let Err(err) = a {
                    return Err(err);
                }
                let b = self.analyze(index);
                match b {
                    Ok(_) => { proof { assert(phase_clean(*e)); } Ok(Phase::Deploy) },
                    Err(err) => Err(err),
                }
            },
            Expr::ArraySet { array, index, value } => {
                let a = self.analyze(array);
                if let Err(err) = a {
                    return Err(err);
                }
                let b = self.analyze(index);
                if let Err(err) = b {
                    return Err(err);
                }
                let c = self.analyze(value);
                match c {
                    Ok(_) => { proof { assert(phase_clean(*e)); } Ok(Phase::Deploy) },
                    Err(err) => Err(err),
                }
            },
            Expr::ArrayLength(a) => {
                let s = self.analyze(a);
                match s {
                    Ok(_) => { proof { assert(phase_clean(*e)); } Ok(Phase::Deploy) },
                    Err(err) => Err(err),
                }
            },
            Expr::GpioSet { device, value } => {
                let a = self.analyze(device);
                if let Err(err) = a {
                    return Err(err);
                }
                let b = self.analyze(value);
                match b {
                    Ok(_) => { proof { assert(phase_clean(*e)); } Ok(Phase::Deploy) },
                    Err(err) => Err(err),
                }
            },
            Expr::GpioGet(d) => {
                let s = self.analyze(d);
                match s {
                    Ok(_) => { proof { assert(phase_clean(*e)); } Ok(Phase::Deploy) },
                    Err(err) => Err(err),
                }
            },
            Expr::UartSend { device, data } => {
                let a = self.analyze(device);
                if let Err(err) = a {
                    return Err(err);
                }
                let b = self.analyze(data);
                match b {
                    Ok(_) => { proof { assert(phase_clean(*e)); } Ok(Phase::Deploy) },
                    Err(err) => Err(err),
                }
            },
            Expr::UartRecv(d) => {
                let s = self.analyze(d);
                match s {
                    Ok(_) => { proof { assert(phase_clean(*e)); } Ok(Phase::Deploy) },
                    Err(err) => Err(err),
                }
            },
            Expr::SensorRead(d) => {
                let s = self.analyze(d);
                match s {
                    Ok(_) => { proof { assert(phase_clean(*e)); } Ok(Phase::Deploy) },
                    Err(err) => Err(err),
                }
            },
            Expr::NetworkSend { device, data } => {
                let a = self.analyze(device);
                if let Err(err) = a {
                    return Err(err);
                }
                let b = self.analyze(data);
                match b {
                    Ok(_) => { proof { assert(phase_clean(*e)); } Ok(Phase::Deploy) },
                    Err(err) => Err(err),
                }
            },
            Expr::NetworkRecv(d) => {
                let s = self.analyze(d);
                match s {
                    Ok(_) => { proof { assert(phase_clean(*e)); } Ok(Phase::Deploy) },
                    Err(err) => Err(err),
                }
            },
            Expr::SleepMs(m) => {
                let s = self.analyze(m);
                match s {
                    Ok(_) => { proof { assert(phase_clean(*e)); } Ok(Phase::Deploy) },
                    Err(err) => Err(err),
                }
            },
            Expr::Program { budget, forms, .. } => {
                let b = self.analyze(budget);
                if let Err(err) = b {
                    return Err(err);
                }
                let n = forms.len();
                for i in 0..n
                    invariant
                        n == forms@.len(),
                        forall|j: int| 0 <= j < i ==> phase_clean(#[trigger] forms@[j]),
                {
                    let sub = self.analyze(&forms[i]);
                    if let Err(err) = sub {
                        proof {
                            assert(!phase_clean(forms@[i as int]));
                            assert(!all_phase_clean(forms@));
                        }
                        return Err(err);
                    }
                }
                proof {
                    assert(forall|j: int| 0 <= j < forms@.len() ==> phase_clean(
                        #[trigger] forms@[j],
                    ));
                    assert(all_phase_clean(forms@));
                }
                Ok(Phase::Deploy)
            },
            Expr::Int(_) => Ok(Phase::Deploy),
            Expr::Float(_) => Ok(Phase::Deploy),
            Expr::Bool(_) => Ok(Phase::Deploy),
            Expr::String(_) => Ok(Phase::Deploy),
            Expr::Ident(_) => Ok(Phase::Deploy),
            Expr::ArrayLiteral { .. } => Ok(Phase::Deploy),
            Expr::Timestamp => Ok(Phase::Deploy),
            Expr::ResourceBudget { .. } => Ok(Phase::Deploy),
            Expr::DefCap { .. } => Ok(Phase::Deploy),
        }
    }

    /// Validate every deploy function of the top-level sequence, looking one
    /// level inside a program envelope; succeed exactly when none of them
    /// holds compile-only syntax.
    #[verifier::loop_isolation(false)]
    pub fn validate_deploy_phase(&self, exprs: &Vec<Expr>) -> (r: Result<(), PhaseError>)
        ensures
            r.is_ok() <==> (forall|i: int| 0 <= i < exprs@.len() ==> top_form_ok(
                #[trigger] exprs@[i],
            )),
            r.is_err() ==> r matches Result::Err(PhaseError::CompileInDeploy(_)),
    {
        let n = exprs.len();
        for i in 0..n
            invariant
                n == exprs@.len(),
                forall|j: int| 0 <= j < i ==> top_form_ok(#[trigger] exprs@[j]),
        {
            match &exprs[i] {
                Expr::DefunDeploy { .. } => {
                    let sub = self.analyze(&exprs[i]);
                    if let Err(err) = sub {
                        return Err(err);
                    }
                },
                Expr::Program { forms, .. } => {
                    let m = forms.len();
                    for k in 0..m
                        invariant
                            m == forms@.len(),
                            forall|j: int| 0 <= j < k ==> top_defun_ok(#[trigger] forms@[j]),
                    {
                        if let Expr::DefunDeploy { .. } = &forms[k] {
                            let sub = self.analyze(&forms[k]);
                            if let Err(err) = sub {
                                return Err(err);
                            }
                        }
                    }
                },
                _ => {},
            }
        }
        Ok(())
    }

    /// The top-level deploy functions, in source order.
    #[verifier::loop_isolation(false)]
    pub fn extract_deploy_functions<'a>(&self, exprs: &'a Vec<Expr>) -> (r: Vec<&'a Expr>)
        ensures
            deref_seq(r@) == exprs@.filter(is_deploy_defun_pred()),
    {
        let mut r: Vec<&'a Expr> = Vec::new();
        let n = exprs.len();
        proof {
            reveal(Seq::filter);
            assert(exprs@.take(0) =~= Seq::<Expr>::empty());
            assert(deref_seq(r@) =~= exprs@.take(0).filter(is_deploy_defun_pred()));
        }
        for i in 0..n
            invariant
                n == exprs@.len(),
                deref_seq(r@) == exprs@.take(i as int).filter(
                    is_deploy_defun_pred(),
                ),
        {
            let ghost prev = r@;
            if let Expr::DefunDeploy { .. } = &exprs[i] {
                r.push(&exprs[i]);
            }
            proof {
                reveal(Seq::filter);
                assert(exprs@.take(i + 1).drop_last() =~= exprs@.take(i as int));
                assert(exprs@.take(i + 1).last() == exprs@[i as int]);
                assert(is_deploy_defun_pred()(exprs@[i as int]) == (exprs@[i as int]
                    is DefunDeploy));
                if is_deploy_defun_pred()(exprs@[i as int]) {
                    assert(forall|k: int| 0 <= k < prev.len() ==> r@[k] == prev[k]);
                    assert(*(r@[r@.len() - 1]) == exprs@[i as int]);
                    assert(deref_seq(r@) =~= deref_seq(prev).push(
                        exprs@[i as int],
                    ));
                    assert(exprs@.take(i + 1).filter(is_deploy_defun_pred()) == exprs@.take(
                        i as int,
                    ).filter(is_deploy_defun_pred()).push(exprs@[i as int]));
                } else {
                    assert(exprs@.take(i + 1).filter(is_deploy_defun_pred()) == exprs@.take(
                        i as int,
                    ).filter(is_deploy_defun_pred()));
                }
                assert(deref_seq(r@) =~= exprs@.take(i + 1).filter(
                    is_deploy_defun_pred(),
                ));
            }
        }
        proof {
            assert(exprs@.take(n as int) =~= exprs@);
        }
        r
    }

    /// The top-level compile functions and macros, in source order.
    #[verifier::loop_isolation(false)]
    pub fn extract_compile_functions<'a>(&self, exprs: &'a Vec<Expr>) -> (r: Vec<&'a Expr>)
        ensures
            deref_seq(r@) == exprs@.filter(is_compile_defun_pred()),
    {
        let mut r: Vec<&'a Expr> = Vec::new();
        let n = exprs.len();
        proof {
            reveal(Seq::filter);
            assert(exprs@.take(0) =~= Seq::<Expr>::empty());
            assert(deref_seq(r@) =~= exprs@.take(0).filter(is_compile_defun_pred()));
        }
        for i in 0..n
            invariant
                n == exprs@.len(),
                deref_seq(r@) == exprs@.take(i as int).filter(
                    is_compile_defun_pred(),
                ),
        {
            let ghost prev = r@;
            let keep = match &exprs[i] {
                Expr::DefunCompile { .. } => true,
                Expr::Macro { .. } => true,
                _ => false,
            };
            if keep {
                r.push(&exprs[i]);
            }
            proof {
                reveal(Seq::filter);
                assert(exprs@.take(i + 1).drop_last() =~= exprs@.take(i as int));
                assert(exprs@.take(i + 1).last() == exprs@[i as int]);
                assert(is_compile_defun_pred()(exprs@[i as int]) == (exprs@[i as int]
                    is DefunCompile || exprs@[i as int] is Macro));
                if is_compile_defun_pred()(exprs@[i as int]) {
                    assert(forall|k: int| 0 <= k < prev.len() ==> r@[k] == prev[k]);
                    assert(*(r@[r@.len() - 1]) == exprs@[i as int]);
                    assert(deref_seq(r@) =~= deref_seq(prev).push(
                        exprs@[i as int],
                    ));
                }
                assert(deref_seq(r@) =~= exprs@.take(i + 1).filter(
                    is_compile_defun_pred(),
                ));
            }
        }
        proof {
            assert(exprs@.take(n as int) =~= exprs@);
        }
        r
    }
}

/// A compile-only node anywhere in a subtree spoils its compile-freedom.
pub proof fn lemma_compile_node_spoils(sub: Expr, e: Expr)
    requires
        occurs_in(sub, e),
        spec_is_compile_only(sub),
    ensures
        !compile_free(e),
    decreases e,
{
    if e != sub {
        match e {
            Expr::DefunDeploy { body, .. } => {
                lemma_compile_node_spoils_list(sub, body@);
            },
            Expr::BoundedFor { start, end, body, .. } => {
                if occurs_in(sub, *start) {
                    lemma_compile_node_spoils(sub, *start);
                } else if occurs_in(sub, *end) {
                    lemma_compile_node_spoils(sub, *end);
                } else {
                    lemma_compile_node_spoils_list(sub, body@);
                }
            },
            Expr::WithCapability { capability, body } => {
                if occurs_in(sub, *capability) {
                    lemma_compile_node_spoils(sub, *capability);
                } else {
                    lemma_compile_node_spoils_list(sub, body@);
                }
            },
            Expr::Let { bindings, body } => {
                if occurs_in_bindings(sub, bindings@) {
                    lemma_compile_node_spoils_bindings(sub, bindings@);
                } else {
                    lemma_compile_node_spoils_list(sub, body@);
                }
            },
            Expr::SetVar { value, .. } => {
                lemma_compile_node_spoils(sub, *value);
            },
            Expr::If { condition, then_branch, else_branch } => {
                if occurs_in(sub, *condition) {
                    lemma_compile_node_spoils(sub, *condition);
                } else if occurs_in(sub, *then_branch) {
                    lemma_compile_node_spoils(sub, *then_branch);
                } else {
                    lemma_compile_node_spoils(sub, *else_branch);
                }
            },
            Expr::FunctionCall { func, args } => {
                if occurs_in(sub, *func) {
                    lemma_compile_node_spoils(sub, *func);
                } else {
                    lemma_compile_node_spoils_list(sub, args@);
                }
            },
            Expr::ArrayGet { array, index } => {
                if occurs_in(sub, *array) {
                    lemma_compile_node_spoils(sub, *array);
                } else {
                    lemma_compile_node_spoils(sub, *index);
                }
            },
            Expr::ArraySet { array, index, value } => {
                if occurs_in(sub, *array) {
                    lemma_compile_node_spoils(sub, *array);
                } else if occurs_in(sub, *index) {
                    lemma_compile_node_spoils(sub, *index);
                } else {
                    lemma_compile_node_spoils(sub, *value);
                }
            },
            Expr::ArrayLength(a) => {
                lemma_compile_node_spoils(sub, *a);
            },
            Expr::GpioSet { device, value } => {
                if occurs_in(sub, *device) {
                    lemma_compile_node_spoils(sub, *device);
                } else {
                    lemma_compile_node_spoils(sub, *value);
                }
            },
            Expr::GpioGet(d) => {
                lemma_compile_node_spoils(sub, *d);
            },
            Expr::UartSend { device, data } => {
                if occurs_in(sub, *device) {
                    lemma_compile_node_spoils(sub, *device);
                } else {
                    lemma_compile_node_spoils(sub, *data);
                }
            },
            Expr::UartRecv(d) => {
                lemma_compile_node_spoils(sub, *d);
            },
            Expr::SensorRead(d) => {
                lemma_compile_node_spoils(sub, *d);
            },
            Expr::NetworkSend { device, data } => {
                if occurs_in(sub, *device) {
                    lemma_compile_node_spoils(sub, *device);
                } else {
                    lemma_compile_node_spoils(sub, *data);
                }
            },
            Expr::NetworkRecv(d) => {
                lemma_compile_node_spoils(sub, *d);
            },
            Expr::SleepMs(m) => {
                lemma_compile_node_spoils(sub, *m);
            },
            Expr::Program { budget, forms, .. } => {
                if occurs_in(sub, *budget) {
                    lemma_compile_node_spoils(sub, *budget);
                } else {
                    lemma_compile_node_spoils_list(sub, forms@);
                }
            },
            _ => {},
        }
    }
}

/// The list form of the spoiling lemma.
proof fn lemma_compile_node_spoils_list(sub: Expr, es: Seq<Expr>)
    requires
        occurs_in_list(sub, es),
        spec_is_compile_only(sub),
    ensures
        !all_compile_free(es),
    decreases es,
{
    let i = choose|i: int| 0 <= i < es.len() && occurs_in(sub, #[trigger] es[i]);
    lemma_compile_node_spoils(sub, es[i]);
}

/// The binding-list form of the spoiling lemma.
proof fn lemma_compile_node_spoils_bindings(sub: Expr, bs: Seq<(String, Expr)>)
    requires
        occurs_in_bindings(sub, bs),
        spec_is_compile_only(sub),
    ensures
        !all_bindings_compile_free(bs),
    decreases bs,
{
    let i = choose|i: int| 0 <= i < bs.len() && occurs_in(sub, (#[trigger] bs[i]).1);
    lemma_compile_node_spoils(sub, bs[i].1);
}

/// A subtree in which no compile-only node occurs is compile-free.
pub proof fn lemma_no_compile_node_clean(e: Expr)
    requires
        forall|sub: Expr| #![trigger occurs_in(sub, e)] occurs_in(sub, e) ==> !spec_is_compile_only(sub),
    ensures
        compile_free(e),
    decreases e, 0int,
{
    assert(occurs_in(e, e));
    match e {
        Expr::DefunDeploy { body, .. } => {
            lemma_no_compile_node_clean_list_from(e, body@);
        },
        Expr::BoundedFor { start, end, body, .. } => {
            lemma_no_compile_node_clean_from(e, *start);
            lemma_no_compile_node_clean_from(e, *end);
            lemma_no_compile_node_clean_list_from(e, body@);
        },
        Expr::WithCapability { capability, body } => {
            lemma_no_compile_node_clean_from(e, *capability);
            lemma_no_compile_node_clean_list_from(e, body@);
        },
        Expr::Let { bindings, body } => {
            lemma_no_compile_node_clean_bindings_from(e, bindings@);
            lemma_no_compile_node_clean_list_from(e, body@);
        },
        Expr::SetVar { value, .. } => {
            lemma_no_compile_node_clean_from(e, *value);
        },
        Expr::If { condition, then_branch, else_branch } => {
            lemma_no_compile_node_clean_from(e, *condition);
            lemma_no_compile_node_clean_from(e, *then_branch);
            lemma_no_compile_node_clean_from(e, *else_branch);
        },
        Expr::FunctionCall { func, args } => {
            lemma_no_compile_node_clean_from(e, *func);
            lemma_no_compile_node_clean_list_from(e, args@);
        },
        Expr::ArrayGet { array, index } => {
            lemma_no_compile_node_clean_from(e, *array);
            lemma_no_compile_node_clean_from(e, *index);
        },
        Expr::ArraySet { array, index, value } => {
            lemma_no_compile_node_clean_from(e, *array);
            lemma_no_compile_node_clean_from(e, *index);
            lemma_no_compile_node_clean_from(e, *value);
        },
        Expr::ArrayLength(a) => {
            lemma_no_compile_node_clean_from(e, *a);
        },
        Expr::GpioSet { device, value } => {
            lemma_no_compile_node_clean_from(e, *device);
            lemma_no_compile_node_clean_from(e, *value);
        },
        Expr::GpioGet(d) => {
            lemma_no_compile_node_clean_from(e, *d);
        },
        Expr::UartSend { device, data } => {
            lemma_no_compile_node_clean_from(e, *device);
            lemma_no_compile_node_clean_from(e, *data);
        },
        Expr::UartRecv(d) => {
            lemma_no_compile_node_clean_from(e, *d);
        },
        Expr::SensorRead(d) => {
            lemma_no_compile_node_clean_from(e, *d);
        },
        Expr::NetworkSend { device, data } => {
            lemma_no_compile_node_clean_from(e, *device);
            lemma_no_compile_node_clean_from(e, *data);
        },
        Expr::NetworkRecv(d) => {
            lemma_no_compile_node_clean_from(e, *d);
        },
        Expr::SleepMs(m) => {
            lemma_no_compile_node_clean_from(e, *m);
        },
        Expr::Program { budget, forms, .. } => {
            lemma_no_compile_node_clean_from(e, *budget);
            lemma_no_compile_node_clean_list_from(e, forms@);
        },
        _ => {},
    }
}

/// Pass the no-compile-node premise from a parent down to one child.
proof fn lemma_no_compile_node_clean_from(e: Expr, c: Expr)
    requires
        forall|sub: Expr| #![trigger occurs_in(sub, e)] occurs_in(sub, e) ==> !spec_is_compile_only(sub),
        forall|sub: Expr| #![trigger occurs_in(sub, c)] occurs_in(sub, c) ==> occurs_in(sub, e),
    ensures
        compile_free(c),
    decreases c, 1int,
{
    assert forall|sub: Expr| #![trigger occurs_in(sub, c)]
        occurs_in(sub, c) implies !spec_is_compile_only(sub) by {
        assert(occurs_in(sub, e));
    }
    lemma_no_compile_node_clean(c);
}

/// Pass the no-compile-node premise from a parent down to a child list.
proof fn lemma_no_compile_node_clean_list_from(e: Expr, es: Seq<Expr>)
    requires
        forall|sub: Expr| #![trigger occurs_in(sub, e)] occurs_in(sub, e) ==> !spec_is_compile_only(sub),
        forall|sub: Expr| #![trigger occurs_in_list(sub, es)] occurs_in_list(sub, es) ==> occurs_in(sub, e),
    ensures
        all_compile_free(es),
    decreases es, 1int,
{
    assert forall|i: int| 0 <= i < es.len() implies compile_free(#[trigger] es[i]) by {
        assert forall|sub: Expr| #![trigger occurs_in(sub, es[i])]
            occurs_in(sub, es[i]) implies !spec_is_compile_only(sub) by {
            assert(occurs_in_list(sub, es));
            assert(occurs_in(sub, e));
        }
        lemma_no_compile_node_clean(es[i]);
    }
}

/// Pass the no-compile-node premise from a parent down to a binding list.
proof fn lemma_no_compile_node_clean_bindings_from(e: Expr, bs: Seq<(String, Expr)>)
    requires
        forall|sub: Expr| #![trigger occurs_in(sub, e)] occurs_in(sub, e) ==> !spec_is_compile_only(sub),
        forall|sub: Expr| #![trigger occurs_in_bindings(sub, bs)] occurs_in_bindings(sub, bs) ==> occurs_in(sub, e),
    ensures
        all_bindings_compile_free(bs),
    decreases bs, 1int,
{
    assert forall|i: int| 0 <= i < bs.len() implies compile_free((#[trigger] bs[i]).1) by {
        assert forall|sub: Expr| #![trigger occurs_in(sub, bs[i].1)]
            occurs_in(sub, bs[i].1) implies !spec_is_compile_only(sub) by {
            assert(occurs_in_bindings(sub, bs));
            assert(occurs_in(sub, e));
        }
        lemma_no_compile_node_clean(bs[i].1);
    }
}

/// A subtree is compile-free exactly when no compile-only node occurs in it:
/// inserting any compile-only form anywhere under a deploy body, however
/// deeply nested, makes the body fail validation, and a body free of them
/// passes.
pub proof fn lemma_compile_free_iff_no_compile_node(e: Expr)
    ensures
        compile_free(e) <==> (forall|sub: Expr|
            #![trigger occurs_in(sub, e)]
            occurs_in(sub, e) ==> !spec_is_compile_only(sub)),
{
    if forall|sub: Expr| #![trigger occurs_in(sub, e)]
        occurs_in(sub, e) ==> !spec_is_compile_only(sub) {
        lemma_no_compile_node_clean(e);
    } else {
        let sub = choose|sub: Expr| occurs_in(sub, e) && spec_is_compile_only(sub);
        lemma_compile_node_spoils(sub, e);
    }
}

} // verus!
