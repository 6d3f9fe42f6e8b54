//! Static analyzer for a Lisp-like embedded-deployment language.
//!
//! A program declares a resource budget and a mix of compile-time forms
//! (macros, unbounded loops, inclusion) and deploy-time forms (definitions,
//! bounded iteration, capability-guarded I/O). The analyses here establish,
//! before deployment, that the deploy-time subset is well-phased, provably
//! terminating, and within its declared resource budget.

pub mod ast;
pub mod call_graph;
pub mod graph;
pub mod idents;
pub mod phases;
pub mod report;
pub mod resources;
pub mod termination;

pub use ast::{Expr, Parameter, Phase, ResourceKind, ResourceSpec, ResourceType, Type};
pub use call_graph::CallGraph;
pub use idents::IdentCollector;
pub use phases::{PhaseError, PhaseSeparator};
pub use report::ProgramAnalysis;
pub use resources::{ResourceAnalyzer, ResourceBounds};
pub use termination::{TerminationChecker, TerminationError};
