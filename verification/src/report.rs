//! The aggregate report: every analysis verdict side by side, so a caller
//! can see all that is computable even when one check fails.

use vstd::prelude::*;
use crate::ast::Expr;
use crate::call_graph::{call_edge_in, called_in, defun_name_in, CallGraph};
use crate::phases::{top_form_ok, PhaseError, PhaseSeparator};
use crate::resources::{
    analyze_spec, extract_budget_spec, rb_add, rb_fits, rb_zero, ResourceAnalyzer, ResourceBounds,
};
use crate::termination::{loops_ok, TerminationChecker, TerminationError};

verus! {

/// The summed worst-case bound of the top-level deploy functions.
pub open spec fn program_bounds(exprs: Seq<Expr>) -> ResourceBounds
    decreases exprs,
{
    if exprs.len() == 0 {
        rb_zero()
    } else {
        rb_add(
            program_bounds(exprs.drop_last()),
            if exprs.last() is DefunDeploy {
                analyze_spec(exprs.last())
            } else {
                rb_zero()
            },
        )
    }
}

/// The complete analysis of one program: the parsed forms, the verdict of
/// each analysis, the summed worst-case bound of the deploy functions, and
/// the call graph.
pub struct ProgramAnalysis {
    pub exprs: Vec<Expr>,
    pub phase_check: Result<(), PhaseError>,
    pub termination_check: Result<(), TerminationError>,
    pub resource_bounds: ResourceBounds,
    pub call_graph: CallGraph,
}

impl ProgramAnalysis {
    /// Run every analysis over the top-level forms and collect the verdicts.
    pub fn analyze(exprs: Vec<Expr>) -> (r: Self)
        ensures
            r.exprs == exprs,
            r.phase_check.is_ok() <==> (forall|i: int|
                0 <= i < exprs@.len() ==> top_form_ok(#[trigger] exprs@[i])),
            r.call_graph.wf(),
            forall|x: Seq<char>|
                r.call_graph.spec_has_node(x) <==> defun_name_in(exprs@, x) || called_in(
                    exprs@,
                    x,
                ),
            forall|a: Seq<char>, b: Seq<char>|
                r.call_graph.spec_has_edge(a, b) <==> call_edge_in(exprs@, a, b),
            r.termination_check.is_ok() <==> (!r.call_graph.spec_cyclic() && forall|i: int|
                0 <= i < exprs@.len() ==> loops_ok(#[trigger] exprs@[i])),
            (r.termination_check == Result::<(), TerminationError>::Err(
                TerminationError::Recursion,
            )) <==> r.call_graph.spec_cyclic(),
            r.resource_bounds == program_bounds(exprs@),
    {
        let separator = PhaseSeparator::new();
        let phase_check = separator.validate_deploy_phase(&exprs);

        let term_checker = TerminationChecker::from_graph(CallGraph::build(&exprs));
        let termination_check = term_checker.check_terminates(&exprs);
        let call_graph = term_checker.into_graph();

        let analyzer = ResourceAnalyzer::new();
        let mut resource_bounds = ResourceBounds::new();
        let n = exprs.len();
        proof {
            assert(exprs@.take(0) =~= Seq::<Expr>::empty());
        }
        for i in 0..n
            invariant
                n == exprs@.len(),
                resource_bounds == program_bounds(exprs@.take(i as int)),
        {
            if let Expr::DefunDeploy { .. } = &exprs[i] {
                let b = analyzer.analyze(&exprs[i]);
                resource_bounds.add(&b);
            }
            proof {
                assert(exprs@.take(i + 1).drop_last() =~= exprs@.take(i as int));
                assert(exprs@.take(i + 1).last() == exprs@[i as int]);
                assert(rb_add(program_bounds(exprs@.take(i as int)), rb_zero()) == program_bounds(
                    exprs@.take(i as int),
                ));
            }
        }
        proof {
            assert(exprs@.take(n as int) =~= exprs@);
        }

        Self { exprs, phase_check, termination_check, resource_bounds, call_graph }
    }

    /// The program is admissible for deployment exactly when phase
    /// separation and termination checking both passed.
    pub fn is_valid(&self) -> (r: bool)
        ensures
            r == (self.phase_check.is_ok() && self.termination_check.is_ok()),
    {
        self.phase_check.is_ok() && self.termination_check.is_ok()
    }

    /// Whether the summed deploy-function bound fits the declared budget:
    /// `None` when no budget is declared, so no check is performed.
    pub fn resource_admissible(&self) -> (r: Option<bool>)
        ensures
            extract_budget_spec(self.exprs@) is None ==> r is None,
            extract_budget_spec(self.exprs@) matches Some(b) ==> r == Some(
                rb_fits(self.resource_bounds, b),
            ),
    {
        match ResourceAnalyzer::extract_budget(&self.exprs) {
            Some(budget) => Some(self.resource_bounds.fits_within(&budget)),
            None => None,
        }
    }
}

} // verus!
