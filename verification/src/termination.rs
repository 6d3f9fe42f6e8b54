//! Termination checking: if it accepts, every deploy-time execution of the
//! program completes in finitely many steps.
//!
//! Two obligations, checked in order: the deploy call graph must be acyclic
//! (no recursion, direct or mutual), and every reachable iteration construct
//! must be a bounded loop whose bounds are integer literals. Unbounded loops
//! are rejected here independently of phase separation, so this check is
//! usable alone.

use vstd::prelude::*;
use vstd::string::StringExecFns;
use crate::ast::{iter_count, spec_eval_const, Expr};
use crate::call_graph::{
    call_edge_in, is_name_cycle, lemma_cyclic_iff_name_cycle, name_cycle, CallGraph,
};

verus! {

/// A failure of the termination check.
#[derive(Debug, PartialEq, Eq)]
pub enum TerminationError {
    /// The deploy-time call graph is cyclic.
    Recursion,
    /// An unbounded loop sits in deploy-time code; the payload names its
    /// kind.
    UnboundedLoop(String),
    /// A bounded loop whose bounds are not statically evaluable; the payload
    /// names the loop variable.
    UnknownBounds(String),
    /// Reserved: a budget with no finite representation. Not raised by the
    /// current model.
    InfiniteResources,
}

/// Whether the loop obligations hold everywhere the checker walks: no
/// unbounded loop, and literal bounds on every bounded loop. The walk
/// descends through function and loop bodies, bindings, branches, calls,
/// and the forms of a program envelope; literals, I/O and array forms
/// contribute no obligations.
pub open spec fn loops_ok(e: Expr) -> bool
    decreases e,
{
    match e {
        Expr::While { .. } => false,
        Expr::For { .. } => false,
        Expr::BoundedFor { start, end, body, .. } => spec_eval_const(*start) is Some
            && spec_eval_const(*end) is Some && loops_ok_list(body@),
        Expr::DefunDeploy { body, .. } => loops_ok_list(body@),
        Expr::Let { bindings, body } => loops_ok_bindings(bindings@) && loops_ok_list(body@),
        Expr::If { condition, then_branch, else_branch } => loops_ok(*condition) && loops_ok(
            *then_branch,
        ) && loops_ok(*else_branch),
        Expr::WithCapability { body, .. } => loops_ok_list(body@),
        Expr::FunctionCall { func, args } => loops_ok(*func) && loops_ok_list(args@),
        Expr::Program { forms, .. } => loops_ok_list(forms@),
        _ => true,
    }
}

/// Every element of the sequence passes the loop obligations.
pub open spec fn loops_ok_list(es: Seq<Expr>) -> bool
    decreases es,
{
    forall|i: int| 0 <= i < es.len() ==> loops_ok(#[trigger] es[i])
}

/// Every right-hand side of a binding list passes the loop obligations.
pub open spec fn loops_ok_bindings(bs: Seq<(String, Expr)>) -> bool
    decreases bs,
{
    forall|i: int| 0 <= i < bs.len() ==> loops_ok(#[trigger] bs[i].1)
}

/// The termination checking pass, carrying the call graph of the program it
/// was built for.
pub struct TerminationChecker {
    call_graph: CallGraph,
}

impl TerminationChecker {
    /// The call graph the checker reasons about.
    pub closed spec fn cg(&self) -> CallGraph {
        self.call_graph
    }

    /// The checker's call graph is well formed.
    pub open spec fn wf(&self) -> bool {
        self.cg().wf()
    }

    /// Build the checker around a call graph constructed elsewhere.
    pub fn from_graph(call_graph: CallGraph) -> (r: Self)
        ensures
            r.cg() == call_graph,
    {
        Self { call_graph }
    }

    /// Give the call graph back.
    pub fn into_graph(self) -> (g: CallGraph)
        ensures
            g == self.cg(),
    {
        self.call_graph
    }

    /// Build the checker, constructing the call graph of the program.
    pub fn new(exprs: &Vec<Expr>) -> (r: Self)
        ensures
            r.wf(),
            forall|x: Seq<char>|
                r.cg().spec_has_node(x) <==> crate::call_graph::defun_name_in(exprs@, x)
                    || crate::call_graph::called_in(exprs@, x),
            forall|a: Seq<char>, b: Seq<char>|
                r.cg().spec_has_edge(a, b) <==> crate::call_graph::call_edge_in(exprs@, a, b),
    {
        let call_graph = CallGraph::build(exprs);
        Self { call_graph }
    }

    /// Check that all deploy-time code provably terminates: the call graph
    /// is acyclic, and every reachable loop is bounded with literal bounds.
    /// Recursion is reported first.
    pub fn check_terminates(&self, exprs: &Vec<Expr>) -> (r: Result<(), TerminationError>)
        ensures
            r.is_ok() <==> (!self.cg().spec_cyclic() && forall|i: int|
                0 <= i < exprs@.len() ==> loops_ok(#[trigger] exprs@[i])),
            (r == Result::<(), TerminationError>::Err(TerminationError::Recursion)) <==> self.cg(
            ).spec_cyclic(),
            r matches Result::Err(e) ==> !(e is InfiniteResources),
            r matches Result::Err(TerminationError::UnboundedLoop(s)) ==> (s@ == "while loop"@ || s@
                == "for loop"@),
    {
        if self.call_graph.has_cycles() {
            return Err(TerminationError::Recursion);
        }
        let n = exprs.len();
        for i in 0..n
            invariant
                n == exprs@.len(),
                !self.cg().spec_cyclic(),
                forall|j: int| 0 <= j < i ==> loops_ok(#[trigger] exprs@[j]),
        {
            let sub = self.check_loops(&exprs[i]);
            if let Err(err) = sub {
                return Err(err);
            }
        }
        Ok(())
    }

    /// Walk one expression for the loop obligations, failing on the first
    /// unbounded loop or non-literal bound.
    #[verifier::loop_isolation(false)]
    fn check_loops(&self, e: &Expr) -> (r: Result<(), TerminationError>)
        ensures
            r.is_ok() <==> loops_ok(*e),
            r.is_err() ==> (r matches Result::Err(TerminationError::UnboundedLoop(_)) || r matches
                Result::Err(TerminationError::UnknownBounds(_))),
            r matches Result::Err(TerminationError::UnboundedLoop(s)) ==> (s@ == "while loop"@ || s@
                == "for loop"@),
            *e is While ==> (r matches Result::Err(TerminationError::UnboundedLoop(s)) && s@
                == "while loop"@),
            *e is For ==> (r matches Result::Err(TerminationError::UnboundedLoop(s)) && s@
                == "for loop"@),
            (*e matches Expr::BoundedFor { start, end, .. } && !(spec_eval_const(*start) is Some
                && spec_eval_const(*end) is Some)) ==> (r matches Result::Err(
                TerminationError::UnknownBounds(s),
            ) && s@ == e->BoundedFor_var@),
        decreases *e,
    {
        match e {
            Expr::While { .. } => Err(TerminationError::UnboundedLoop("while loop".to_owned())),
            Expr::For { .. } => Err(TerminationError::UnboundedLoop("for loop".to_owned())),
            Expr::BoundedFor { var, start, end, body } => {
                if !(matches!(&**start, Expr::Int(_)) && matches!(&**end, Expr::Int(_))) {
                    return Err(TerminationError::UnknownBounds(var.clone()));
                }
                let m = body.len();
                for k in 0..m
                    invariant
                        m == body@.len(),
                        forall|j: int| 0 <= j < k ==> loops_ok(#[trigger] body@[j]),
                {
                    let sub = self.check_loops(&body[k]);
                    if let Err(err) = sub {
                        proof {
                            assert(!loops_ok(body@[k as int]));
                            assert(!loops_ok_list(body@));
                        }
                        return Err(err);
                    }
                }
                proof {
                    assert(forall|j: int| 0 <= j < body@.len() ==> loops_ok(#[trigger] body@[j]));
                    assert(loops_ok_list(body@));
                }
                Ok(())
            },
            Expr::DefunDeploy { body, .. } => {
                let m = body.len();
                for k in 0..m
                    invariant
                        m == body@.len(),
                        forall|j: int| 0 <= j < k ==> loops_ok(#[trigger] body@[j]),
                {
                    let sub = self.check_loops(&body[k]);
                    if let Err(err) = sub {
                        proof {
                            assert(!loops_ok(body@[k as int]));
                            assert(!loops_ok_list(body@));
                        }
                        return Err(err);
                    }
                }
                proof {
                    assert(forall|j: int| 0 <= j < body@.len() ==> loops_ok(#[trigger] body@[j]));
                    assert(loops_ok_list(body@));
                }
                Ok(())
            },
            Expr::Let { bindings, body } => {
                let nb = bindings.len();
                for k in 0..nb
                    invariant
                        nb == bindings@.len(),
                        forall|j: int| 0 <= j < k ==> loops_ok(#[trigger] bindings@[j].1),
                {
                    let sub = self.check_loops(&bindings[k].1);
                    if let Err(err) = sub {
                        proof {
                            assert(!loops_ok(bindings@[k as int].1));
                            assert(!loops_ok_bindings(bindings@));
                        }
                        return Err(err);
                    }
                }
                let m = body.len();
                for k in 0..m
                    invariant
                        m == body@.len(),
                        loops_ok_bindings(bindings@),
                        forall|j: int| 0 <= j < k ==> loops_ok(#[trigger] body@[j]),
                {
                    let sub = self.check_loops(&body[k]);
                    if let Err(err) = sub {
                        proof {
                            assert(!loops_ok(body@[k as int]));
                            assert(!loops_ok_list(body@));
                        }
                        return Err(err);
                    }
                }
                proof {
                    assert(forall|j: int| 0 <= j < body@.len() ==> loops_ok(#[trigger] body@[j]));
                    assert(loops_ok_list(body@));
                }
                Ok(())
            },
            Expr::If { condition, then_branch, else_branch } => {
                let c = self.check_loops(condition);
                if let Err(err) = c {
                    return Err(err);
                }
                let t = self.check_loops(then_branch);
                if let Err(err) = t {
                    return Err(err);
                }
                let f = self.check_loops(else_branch);
                match f {
                    Ok(_) => Ok(()),
                    Err(err) => Err(err),
                }
            },
            Expr::WithCapability { body, .. } => {
                let m = body.len();
                for k in 0..m
                    invariant
                        m == body@.len(),
                        forall|j: int| 0 <= j < k ==> loops_ok(#[trigger] body@[j]),
                {
                    let sub = self.check_loops(&body[k]);
                    if let Err(err) = sub {
                        proof {
                            assert(!loops_ok(body@[k as int]));
                            assert(!loops_ok_list(body@));
                        }
                        return Err(err);
                    }
                }
                proof {
                    assert(forall|j: int| 0 <= j < body@.len() ==> loops_ok(#[trigger] body@[j]));
                    assert(loops_ok_list(body@));
                }
                Ok(())
            },
            Expr::FunctionCall { func, args } => {
                let c = self.check_loops(func);
                if let Err(err) = c {
                    return Err(err);
                }
                let m = args.len();
                for k in 0..m
                    invariant
                        m == args@.len(),
                        loops_ok(**func),
                        forall|j: int| 0 <= j < k ==> loops_ok(#[trigger] args@[j]),
                {
                    let sub = self.check_loops(&args[k]);
                    if let Err(err) = sub {
                        proof {
                            assert(!loops_ok(args@[k as int]));
                            assert(!loops_ok_list(args@));
                        }
                        return Err(err);
                    }
                }
                proof {
                    assert(forall|j: int| 0 <= j < args@.len() ==> loops_ok(#[trigger] args@[j]));
                    assert(loops_ok_list(args@));
                }
                Ok(())
            },
            Expr::Program { forms, .. } => {
                let m = forms.len();
                for k in 0..m
                    invariant
                        m == forms@.len(),
                        forall|j: int| 0 <= j < k ==> loops_ok(#[trigger] forms@[j]),
                {
                    let sub = self.check_loops(&forms[k]);
                    if let Err(err) = sub {
                        proof {
                            assert(!loops_ok(forms@[k as int]));
                            assert(!loops_ok_list(forms@));
                        }
                        return Err(err);
                    }
                }
                proof {
                    assert(forall|j: int| 0 <= j < forms@.len() ==> loops_ok(#[trigger] forms@[j]));
                    assert(loops_ok_list(forms@));
                }
                Ok(())
            },
            _ => Ok(()),
        }
    }

    /// A topological order of the deploy functions, callers before callees;
    /// `None` exactly when the call graph is cyclic.
    pub fn function_order(&self) -> (r: Option<Vec<String>>)
        requires
            self.wf(),
        ensures
            r matches Some(v) ==> v@.len() == self.cg().spec_node_count(),
            r matches Some(v) ==> forall|x: Seq<char>|
                #![trigger crate::call_graph::name_in(v@, x)]
                self.cg().spec_has_node(x) <==> crate::call_graph::name_in(v@, x),
            r matches Some(v) ==> forall|k1: int, k2: int|
                #![trigger v@[k1], v@[k2]]
                0 <= k1 < v@.len() && 0 <= k2 < v@.len() && self.cg().spec_has_edge(
                    v@[k1]@,
                    v@[k2]@,
                ) ==> k1 < k2,
            r is None ==> self.cg().spec_cyclic(),
    {
        self.call_graph.topological_order()
    }

    /// The ranking function of a bounded loop: its iteration count
    /// `max(0, end - start)` when both bounds are integer literals, `None`
    /// otherwise. The count strictly decreases on each iteration, witnessing
    /// termination of the loop.
    pub fn loop_ranking_function(&self, start: &Expr, end: &Expr) -> (r: Option<u64>)
        ensures
            spec_eval_const(*start) matches Some(s) ==> (spec_eval_const(*end) matches Some(e)
                ==> r == Some(iter_count(s, e))),
            (spec_eval_const(*start) is None || spec_eval_const(*end) is None) ==> r is None,
    {
        match (start, end) {
            (Expr::Int(s), Expr::Int(e)) => {
                if *e >= *s {
                    Some(((*e as i128) - (*s as i128)) as u64)
                } else {
                    Some(0)
                }
            },
            _ => None,
        }
    }
}


/// Deploy-time recursion stated over the program text alone: some chain of
/// named call edges leads from a deploy function back to itself.
pub open spec fn program_recursion(exprs: Seq<Expr>) -> bool {
    exists|p: Seq<Seq<char>>|
        {
            &&& p.len() >= 2
            &&& p[0] == p[p.len() - 1]
            &&& forall|i: int| 0 <= i < p.len() - 1 ==> call_edge_in(exprs, #[trigger] p[i], p[i + 1])
        }
}

/// A checker built for a program reports its call graph cyclic exactly when
/// the program has deploy-time recursion, direct or mutual: a chain of calls
/// from some deploy function back to itself.
pub proof fn lemma_cyclic_iff_program_recursion(t: TerminationChecker, exprs: Seq<Expr>)
    requires
        t.wf(),
        forall|a: Seq<char>, b: Seq<char>|
            t.cg().spec_has_edge(a, b) <==> call_edge_in(exprs, a, b),
    ensures
        t.cg().spec_cyclic() <==> program_recursion(exprs),
{
    lemma_cyclic_iff_name_cycle(t.cg());
    if name_cycle(t.cg()) {
        let p = choose|p: Seq<Seq<char>>| is_name_cycle(t.cg(), p);
        assert(is_name_cycle(t.cg(), p));
        assert forall|i: int| 0 <= i < p.len() - 1 implies call_edge_in(
            exprs,
            #[trigger] p[i],
            p[i + 1],
        ) by {
            assert(t.cg().spec_has_edge(p[i], p[i + 1]));
        }
        assert(program_recursion(exprs));
    }
    if program_recursion(exprs) {
        let p = choose|p: Seq<Seq<char>>|
            {
                &&& p.len() >= 2
                &&& p[0] == p[p.len() - 1]
                &&& forall|i: int|
                    0 <= i < p.len() - 1 ==> call_edge_in(exprs, #[trigger] p[i], p[i + 1])
            };
        assert forall|i: int| 0 <= i < p.len() - 1 implies t.cg().spec_has_edge(
            #[trigger] p[i],
            p[i + 1],
        ) by {
            assert(call_edge_in(exprs, p[i], p[i + 1]));
        }
        assert(is_name_cycle(t.cg(), p));
    }
}

} // verus!
