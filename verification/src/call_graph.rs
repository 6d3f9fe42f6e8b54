//! Call-graph construction and cycle detection over the deploy functions.
//!
//! Nodes are the names of the top-level deploy functions; edges go from each
//! deploy function to every identifier in function position in its body.
//! A called name with no definition still becomes a node, with no outgoing
//! edges. Parallel edges may exist; cycle detection and topological order
//! are multiplicity-insensitive.

use vstd::prelude::*;
use vstd::set_lib::{lemma_int_range, lemma_len_subset, set_int_range};
use crate::ast::Expr;
use crate::graph::{
    graph_add_edge, graph_add_node, graph_is_cyclic, graph_new, graph_toposort, graph_edge_set,
    graph_node_count, has_cycle, is_cycle, DirectedGraph,
};

verus! {

/// Whether one of the strings reads `x`.
pub open spec fn name_in(ss: Seq<String>, x: Seq<char>) -> bool {
    exists|i: int| 0 <= i < ss.len() && (#[trigger] ss[i])@ == x
}

/// The callee names that call extraction finds in `e`: identifiers in
/// function position, gathered through the forms the extractor descends
/// into (arguments, loop and capability bodies, bindings, branches).
pub open spec fn call_targets(e: Expr) -> Set<Seq<char>>
    decreases e,
{
    match e {
        Expr::FunctionCall { func, args } => {
            let base = match *func {
                Expr::Ident(n) => Set::<Seq<char>>::empty().insert(n@),
                _ => Set::<Seq<char>>::empty(),
            };
            base.union(call_targets_list(args@))
        },
        Expr::BoundedFor { body, .. } => call_targets_list(body@),
        Expr::Let { bindings, body } => call_targets_bindings(bindings@).union(call_targets_list(
            body@,
        )),
        Expr::If { condition, then_branch, else_branch } => call_targets(*condition).union(
            call_targets(*then_branch),
        ).union(call_targets(*else_branch)),
        Expr::WithCapability { body, .. } => call_targets_list(body@),
        _ => Set::<Seq<char>>::empty(),
    }
}

/// The callee names found across a list of expressions.
pub open spec fn call_targets_list(es: Seq<Expr>) -> Set<Seq<char>>
    decreases es,
{
    if es.len() == 0 {
        Set::<Seq<char>>::empty()
    } else {
        call_targets_list(es.drop_last()).union(call_targets(es.last()))
    }
}

/// The callee names found across the right-hand sides of a binding list.
pub open spec fn call_targets_bindings(bs: Seq<(String, Expr)>) -> Set<Seq<char>>
    decreases bs,
{
    if bs.len() == 0 {
        Set::<Seq<char>>::empty()
    } else {
        call_targets_bindings(bs.drop_last()).union(call_targets(bs.last().1))
    }
}

/// Whether `e` is a deploy function named `a`.
pub open spec fn is_defun_named(e: Expr, a: Seq<char>) -> bool {
    e matches Expr::DefunDeploy { name, .. } && name@ == a
}

/// Whether one of the first `n` forms is a deploy function named `a`.
pub open spec fn defun_name_upto(exprs: Seq<Expr>, n: int, a: Seq<char>) -> bool {
    exists|i: int| 0 <= i < n && is_defun_named(#[trigger] exprs[i], a)
}

/// Whether one of the top-level forms is a deploy function named `a`.
pub open spec fn defun_name_in(exprs: Seq<Expr>, a: Seq<char>) -> bool {
    defun_name_upto(exprs, exprs.len() as int, a)
}

/// Whether one of the first `n` forms is a deploy function whose body
/// calls `b`.
pub open spec fn called_upto(exprs: Seq<Expr>, n: int, b: Seq<char>) -> bool {
    exists|i: int|
        {
            &&& 0 <= i < n
            &&& (#[trigger] exprs[i]) matches Expr::DefunDeploy { body, .. }
            &&& call_targets_list(body@).contains(b)
        }
}

/// Whether some top-level deploy function's body calls `b`.
pub open spec fn called_in(exprs: Seq<Expr>, b: Seq<char>) -> bool {
    called_upto(exprs, exprs.len() as int, b)
}

/// Whether one of the first `n` forms is a deploy function named `a` whose
/// body calls `b`: a call edge of the program.
pub open spec fn call_edge_upto(exprs: Seq<Expr>, n: int, a: Seq<char>, b: Seq<char>) -> bool {
    exists|i: int|
        {
            &&& 0 <= i < n
            &&& (#[trigger] exprs[i]) matches Expr::DefunDeploy { name, body, .. }
            &&& name@ == a
            &&& call_targets_list(body@).contains(b)
        }
}

/// Whether the program has a call edge from `a` to `b`.
pub open spec fn call_edge_in(exprs: Seq<Expr>, a: Seq<char>, b: Seq<char>) -> bool {
    call_edge_upto(exprs, exprs.len() as int, a, b)
}

/// The deploy-time call graph: a name table beside the directed graph, with
/// node `i` named `names[i]`.
pub struct CallGraph {
    names: Vec<String>,
    graph: DirectedGraph,
}

impl Default for CallGraph {
    /// An empty call graph.
    fn default() -> (r: Self)
        ensures
            r.wf(),
            r.spec_node_count() == 0,
    {
        CallGraph { names: Vec::new(), graph: crate::graph::graph_new() }
    }
}

impl CallGraph {
    /// The name table matches the graph: one distinct name per node, and
    /// every edge joins two nodes.
    pub closed spec fn wf(&self) -> bool {
        &&& graph_node_count(self.graph) == self.names@.len()
        &&& (forall|i: int, j: int|
            0 <= i < j < self.names@.len() ==> (#[trigger] self.names@[i])@ != (
            #[trigger] self.names@[j])@)
        &&& (forall|p: (nat, nat)| #[trigger]
            graph_edge_set(self.graph).contains(p) ==> p.0 < self.names@.len() && p.1
                < self.names@.len())
    }

    /// How many nodes the graph holds.
    pub closed spec fn spec_node_count(&self) -> nat {
        self.names@.len() as nat
    }

    /// Whether a node carries the name `x`.
    pub closed spec fn spec_has_node(&self, x: Seq<char>) -> bool {
        name_in(self.names@, x)
    }

    /// Whether an edge runs from the node named `a` to the node named `b`.
    pub closed spec fn spec_has_edge(&self, a: Seq<char>, b: Seq<char>) -> bool {
        exists|p: (nat, nat)|
            #[trigger] graph_edge_set(self.graph).contains(p) && p.0 < self.names@.len() && p.1
                < self.names@.len() && self.names@[p.0 as int]@ == a && self.names@[p.1 as int]@
                == b
    }

    /// Whether the graph admits a directed cycle.
    pub closed spec fn spec_cyclic(&self) -> bool {
        has_cycle(graph_edge_set(self.graph))
    }

    /// An empty call graph.
    pub fn new() -> (r: Self)
        ensures
            r.wf(),
            r.spec_node_count() == 0,
            forall|x: Seq<char>| !r.spec_has_node(x),
            forall|a: Seq<char>, b: Seq<char>| !r.spec_has_edge(a, b),
            !r.spec_cyclic(),
    {
        let r = CallGraph { names: Vec::new(), graph: graph_new() };
        proof {
            assert(forall|a: Seq<char>, b: Seq<char>| !r.spec_has_edge(a, b)) by {
                assert(graph_edge_set(r.graph) =~= Set::<(nat, nat)>::empty());
            }
            assert(!r.spec_cyclic()) by {
                if has_cycle(graph_edge_set(r.graph)) {
                    let p = choose|p: Seq<nat>| is_cycle(graph_edge_set(r.graph), p);
                    assert(is_cycle(graph_edge_set(r.graph), p));
                    assert(graph_edge_set(r.graph).contains((p[0], p[1])));
                }
            }
        }
        r
    }

    /// The index of the node named `name`, if one exists.
    #[verifier::loop_isolation(false)]
    fn find(&self, name: &String) -> (r: Option<usize>)
        ensures
            r matches Some(i) ==> i < self.names@.len() && self.names@[i as int]@ == name@,
            r is None ==> forall|i: int|
                0 <= i < self.names@.len() ==> (#[trigger] self.names@[i])@ != name@,
    {
        let n = self.names.len();
        for i in 0..n
            invariant
                n == self.names@.len(),
                forall|j: int| 0 <= j < i ==> (#[trigger] self.names@[j])@ != name@,
        {
            if self.names[i] == *name {
                return Some(i);
            }
        }
        None
    }

    /// Add a node named `name` unless one exists; return its index.
    fn add_function(&mut self, name: &String) -> (idx: usize)
        requires
            old(self).wf(),
        ensures
            final(self).wf(),
            final(self).spec_node_count() >= old(self).spec_node_count(),
            idx < final(self).names@.len(),
            final(self).names@[idx as int]@ == name@,
            forall|x: Seq<char>|
                final(self).spec_has_node(x) <==> old(self).spec_has_node(x) || x == name@,
            forall|a: Seq<char>, b: Seq<char>|
                final(self).spec_has_edge(a, b) <==> old(self).spec_has_edge(a, b),
            graph_edge_set(final(self).graph) == graph_edge_set(old(self).graph),
            forall|i: int|
                0 <= i < old(self).names@.len() ==> final(self).names@[i] == old(self).names@[i],
    {
        let found = self.find(name);
        match found {
            Some(i) => {
                proof {
                    assert(self.spec_has_node(name@));
                }
                i
            },
            None => {
                let idx = graph_add_node(&mut self.graph);
                self.names.push(name.clone());
                proof {
                    assert(self.names@[self.names@.len() - 1]@ == name@);
                    assert forall|x: Seq<char>|
                        self.spec_has_node(x) <==> old(self).spec_has_node(x) || x == name@ by {
                        if name_in(self.names@, x) {
                            let w = choose|i: int|
                                0 <= i < self.names@.len() && (#[trigger] self.names@[i])@ == x;
                            if w < self.names@.len() - 1 {
                                assert((old(self).names@[w])@ == x);
                            }
                        }
                        if name_in(old(self).names@, x) {
                            let w = choose|i: int|
                                0 <= i < old(self).names@.len() && (#[trigger] old(
                                    self,
                                ).names@[i])@ == x;
                            assert(self.names@[w]@ == x);
                        }
                        if x == name@ {
                            assert(self.names@[self.names@.len() - 1]@ == x);
                        }
                    }
                    assert forall|a: Seq<char>, b: Seq<char>|
                        self.spec_has_edge(a, b) <==> old(self).spec_has_edge(a, b) by {
                        if self.spec_has_edge(a, b) {
                            let p = choose|p: (nat, nat)|
                                #[trigger] graph_edge_set(self.graph).contains(p) && p.0
                                    < self.names@.len() && p.1 < self.names@.len()
                                    && self.names@[p.0 as int]@ == a && self.names@[p.1 as int]@
                                    == b;
                            assert(graph_edge_set(old(self).graph).contains(p));
                            assert(p.0 < old(self).names@.len() && p.1 < old(self).names@.len());
                            assert(old(self).names@[p.0 as int]@ == a && old(
                                self,
                            ).names@[p.1 as int]@ == b);
                        }
                        if old(self).spec_has_edge(a, b) {
                            let p = choose|p: (nat, nat)|
                                #[trigger] graph_edge_set(old(self).graph).contains(p) && p.0 < old(
                                    self,
                                ).names@.len() && p.1 < old(self).names@.len() && old(
                                    self,
                                ).names@[p.0 as int]@ == a && old(self).names@[p.1 as int]@ == b;
                            assert(graph_edge_set(self.graph).contains(p));
                            assert(self.names@[p.0 as int]@ == a && self.names@[p.1 as int]@ == b);
                        }
                    }
                }
                idx
            },
        }
    }

    /// Record one call: ensure the callee has a node and add an edge from
    /// the caller, which must already be a node.
    fn add_call(&mut self, caller: &String, callee: &String)
        requires
            old(self).wf(),
            old(self).spec_has_node(caller@),
        ensures
            final(self).wf(),
            forall|x: Seq<char>|
                final(self).spec_has_node(x) <==> old(self).spec_has_node(x) || x == callee@,
            forall|a: Seq<char>, b: Seq<char>|
                final(self).spec_has_edge(a, b) <==> old(self).spec_has_edge(a, b) || (a == caller@
                    && b == callee@),
    {
        let cj = self.add_function(callee);
        let found = self.find(caller);
        match found {
            Some(ci) => {
                let ghost mid = *self;
                graph_add_edge(&mut self.graph, ci, cj);
                proof {
                    assert forall|a: Seq<char>, b: Seq<char>|
                        self.spec_has_edge(a, b) <==> old(self).spec_has_edge(a, b) || (a
                            == caller@ && b == callee@) by {
                        if self.spec_has_edge(a, b) {
                            let p = choose|p: (nat, nat)|
                                #[trigger] graph_edge_set(self.graph).contains(p) && p.0
                                    < self.names@.len() && p.1 < self.names@.len()
                                    && self.names@[p.0 as int]@ == a && self.names@[p.1 as int]@
                                    == b;
                            if p == (ci as nat, cj as nat) {
                                assert(a == caller@ && b == callee@);
                            } else {
                                assert(graph_edge_set(mid.graph).contains(p));
                                assert(mid.spec_has_edge(a, b));
                                assert(old(self).spec_has_edge(a, b));
                            }
                        }
                        if old(self).spec_has_edge(a, b) {
                            let p = choose|p: (nat, nat)|
                                #[trigger] graph_edge_set(old(self).graph).contains(p) && p.0 < old(
                                    self,
                                ).names@.len() && p.1 < old(self).names@.len() && old(
                                    self,
                                ).names@[p.0 as int]@ == a && old(self).names@[p.1 as int]@ == b;
                            assert(graph_edge_set(self.graph).contains(p));
                            assert(self.names@[p.0 as int]@ == a && self.names@[p.1 as int]@ == b);
                        }
                        if a == caller@ && b == callee@ {
                            assert(graph_edge_set(self.graph).contains((ci as nat, cj as nat)));
                            assert(self.names@[ci as int]@ == a && self.names@[cj as int]@ == b);
                        }
                    }
                }
            },
            None => {
                proof {
                    let w = choose|i: int|
                        0 <= i < old(self).names@.len() && (#[trigger] old(self).names@[i])@
                            == caller@;
                    assert(self.names@[w]@ == caller@);
                    assert(false);
                }
            },
        }
    }

    /// Build the call graph of a program: one node per top-level deploy
    /// function name and per called name, one edge per call site.
    #[verifier::loop_isolation(false)]
    pub fn build(exprs: &Vec<Expr>) -> (cg: CallGraph)
        ensures
            cg.wf(),
            forall|x: Seq<char>|
                cg.spec_has_node(x) <==> defun_name_in(exprs@, x) || called_in(exprs@, x),
            forall|a: Seq<char>, b: Seq<char>|
                cg.spec_has_edge(a, b) <==> call_edge_in(exprs@, a, b),
    {
        let mut cg = CallGraph::new();
        let n = exprs.len();
        for i in 0..n
            invariant
                n == exprs@.len(),
                cg.wf(),
                forall|x: Seq<char>| cg.spec_has_node(x) <==> defun_name_upto(exprs@, i as int, x),
                forall|a: Seq<char>, b: Seq<char>| !cg.spec_has_edge(a, b),
        {
            if let Expr::DefunDeploy { name, .. } = &exprs[i] {
                cg.add_function(name);
                proof {
                    assert(is_defun_named(exprs@[i as int], name@));
                }
            }
        }
        for i in 0..n
            invariant
                n == exprs@.len(),
                cg.wf(),
                forall|x: Seq<char>|
                    cg.spec_has_node(x) <==> defun_name_in(exprs@, x) || called_upto(
                        exprs@,
                        i as int,
                        x,
                    ),
                forall|a: Seq<char>, b: Seq<char>|
                    cg.spec_has_edge(a, b) <==> call_edge_upto(exprs@, i as int, a, b),
        {
            if let Expr::DefunDeploy { name, body, .. } = &exprs[i] {
                let calls = Self::extract_function_calls(body);
                proof {
                    assert(is_defun_named(exprs@[i as int], name@));
                    assert(defun_name_in(exprs@, name@));
                }
                let m = calls.len();
                for k in 0..m
                    invariant
                        n == exprs@.len(),
                        m == calls@.len(),
                        0 <= i < n,
                        exprs@[i as int] matches Expr::DefunDeploy { name: nm, body: bd, .. } && nm
                            == *name && bd == *body,
                        forall|x: Seq<char>|
                            name_in(calls@, x) <==> call_targets_list(body@).contains(x),
                        cg.wf(),
                        cg.spec_has_node(name@),
                        forall|x: Seq<char>|
                            cg.spec_has_node(x) <==> defun_name_in(exprs@, x) || called_upto(
                                exprs@,
                                i as int,
                                x,
                            ) || (exists|t: int|
                                0 <= t < k && (#[trigger] calls@[t])@ == x),
                        forall|a: Seq<char>, b: Seq<char>|
                            cg.spec_has_edge(a, b) <==> call_edge_upto(exprs@, i as int, a, b) || (a
                                == name@ && exists|t: int|
                                0 <= t < k && (#[trigger] calls@[t])@ == b),
                {
                    cg.add_call(name, &calls[k]);
                }
                proof {
                    assert forall|x: Seq<char>|
                        cg.spec_has_node(x) <==> defun_name_in(exprs@, x) || called_upto(
                            exprs@,
                            i + 1,
                            x,
                        ) by {
                        if exists|t: int| 0 <= t < calls@.len() && (#[trigger] calls@[t])@ == x {
                            assert(name_in(calls@, x));
                            assert(call_targets_list(body@).contains(x));
                            assert(called_upto(exprs@, i + 1, x));
                        }
                        if called_upto(exprs@, i + 1, x) && !called_upto(exprs@, i as int, x) {
                            assert(call_targets_list(body@).contains(x));
                            assert(name_in(calls@, x));
                            let t = choose|t: int|
                                0 <= t < calls@.len() && (#[trigger] calls@[t])@ == x;
                            assert(0 <= t < calls@.len() && calls@[t]@ == x);
                        }
                    }
                    assert forall|a: Seq<char>, b: Seq<char>|
                        cg.spec_has_edge(a, b) <==> call_edge_upto(exprs@, i + 1, a, b) by {
                        if a == name@ && exists|t: int|
                            0 <= t < calls@.len() && (#[trigger] calls@[t])@ == b {
                            assert(name_in(calls@, b));
                            assert(call_targets_list(body@).contains(b));
                            assert(call_edge_upto(exprs@, i + 1, a, b));
                        }
                        if call_edge_upto(exprs@, i + 1, a, b) && !call_edge_upto(
                            exprs@,
                            i as int,
                            a,
                            b,
                        ) {
                            assert(a == name@ && call_targets_list(body@).contains(b));
                            assert(name_in(calls@, b));
                            let t = choose|t: int|
                                0 <= t < calls@.len() && (#[trigger] calls@[t])@ == b;
                            assert(0 <= t < calls@.len() && calls@[t]@ == b);
                        }
                    }
                }
            } else {
                proof {
                    assert forall|x: Seq<char>|
                        called_upto(exprs@, i + 1, x) == called_upto(exprs@, i as int, x) by {
                        if called_upto(exprs@, i + 1, x) {
                            let w = choose|w: int|
                                {
                                    &&& 0 <= w < i + 1
                                    &&& (#[trigger] exprs@[w]) matches Expr::DefunDeploy {
                                        body,
                                        ..
                                    }
                                    &&& call_targets_list(body@).contains(x)
                                };
                            assert(w < i);
                        }
                    }
                    assert forall|a: Seq<char>, b: Seq<char>|
                        call_edge_upto(exprs@, i + 1, a, b) == call_edge_upto(
                            exprs@,
                            i as int,
                            a,
                            b,
                        ) by {
                        if call_edge_upto(exprs@, i + 1, a, b) {
                            let w = choose|w: int|
                                {
                                    &&& 0 <= w < i + 1
                                    &&& (#[trigger] exprs@[w]) matches Expr::DefunDeploy {
                                        name,
                                        body,
                                        ..
                                    }
                                    &&& name@ == a
                                    &&& call_targets_list(body@).contains(b)
                                };
                            assert(w < i);
                        }
                    }
                }
            }
        }
        cg
    }

    /// Every identifier in function position across a list of expressions.
    #[verifier::loop_isolation(false)]
    fn extract_function_calls(exprs: &Vec<Expr>) -> (r: Vec<String>)
        ensures
            forall|x: Seq<char>|
                #![trigger name_in(r@, x)]
                name_in(r@, x) <==> call_targets_list(exprs@).contains(x),
    {
        let mut calls: Vec<String> = Vec::new();
        let n = exprs.len();
        proof {
            assert(exprs@.take(0) =~= Seq::<Expr>::empty());
            assert(forall|x: Seq<char>| !name_in(calls@, x));
        }
        for i in 0..n
            invariant
                n == exprs@.len(),
                forall|x: Seq<char>|
                    #![trigger name_in(calls@, x)]
                    name_in(calls@, x) <==> call_targets_list(exprs@.take(i as int)).contains(x),
        {
            let ghost prev = calls@;
            Self::collect_calls(&exprs[i], &mut calls);
            proof {
                assert(exprs@.take(i + 1).drop_last() =~= exprs@.take(i as int));
                assert(exprs@.take(i + 1).last() == exprs@[i as int]);
                assert(call_targets_list(exprs@.take(i + 1)) == call_targets_list(
                    exprs@.take(i as int),
                ).union(call_targets(exprs@[i as int])));
                assert forall|x: Seq<char>|
                    name_in(calls@, x) <==> call_targets_list(exprs@.take(i + 1)).contains(x) by {
                    assert(name_in(calls@, x) <==> name_in(prev, x) || call_targets(
                        exprs@[i as int],
                    ).contains(x));
                    assert(name_in(prev, x) <==> call_targets_list(exprs@.take(i as int)).contains(
                        x,
                    ));
                }
            }
        }
        proof {
            assert(exprs@.take(n as int) =~= exprs@);
        }
        calls
    }

    /// Gather the identifiers in function position within `e` into `calls`,
    /// keeping what was already gathered.
    #[verifier::loop_isolation(false)]
    fn collect_calls(e: &Expr, calls: &mut Vec<String>)
        ensures
            forall|x: Seq<char>|
                #![trigger name_in(final(calls)@, x)]
                name_in(final(calls)@, x) <==> name_in(old(calls)@, x) || call_targets(
                    *e,
                ).contains(x),
        decreases *e,
    {
        match e {
            Expr::FunctionCall { func, args } => {
                if let Expr::Ident(nm) = &**func {
                    let ghost before = calls@;
                    calls.push(nm.clone());
                    proof {
                        assert(calls@[calls@.len() - 1]@ == nm@);
                        assert forall|x: Seq<char>|
                            name_in(calls@, x) <==> name_in(before, x) || x == nm@ by {
                            if name_in(calls@, x) {
                                let w = choose|i: int|
                                    0 <= i < calls@.len() && (#[trigger] calls@[i])@ == x;
                                if w < calls@.len() - 1 {
                                    assert(before[w]@ == x);
                                }
                            }
                            if name_in(before, x) {
                                let w = choose|i: int|
                                    0 <= i < before.len() && (#[trigger] before[i])@ == x;
                                assert(calls@[w]@ == x);
                            }
                            if x == nm@ {
                                assert(calls@[calls@.len() - 1]@ == x);
                            }
                        }
                    }
                }
                let ghost after_func = calls@;
                let m = args.len();
                proof {
                    assert(args@.take(0) =~= Seq::<Expr>::empty());
                }
                for k in 0..m
                    invariant
                        m == args@.len(),
                        forall|x: Seq<char>|
                            #![trigger name_in(calls@, x)]
                            name_in(calls@, x) <==> name_in(after_func, x) || call_targets_list(
                                args@.take(k as int),
                            ).contains(x),
                {
                    let ghost prev = calls@;
                    Self::collect_calls(&args[k], calls);
                    proof {
                        assert(args@.take(k + 1).drop_last() =~= args@.take(k as int));
                        assert(args@.take(k + 1).last() == args@[k as int]);
                        assert(call_targets_list(args@.take(k + 1)) == call_targets_list(
                            args@.take(k as int),
                        ).union(call_targets(args@[k as int])));
                        assert forall|x: Seq<char>|
                            name_in(calls@, x) <==> name_in(after_func, x) || call_targets_list(
                                args@.take(k + 1),
                            ).contains(x) by {
                            assert(name_in(calls@, x) <==> name_in(prev, x) || call_targets(
                                args@[k as int],
                            ).contains(x));
                            assert(name_in(prev, x) <==> name_in(after_func, x)
                                || call_targets_list(args@.take(k as int)).contains(x));
                        }
                    }
                }
                proof {
                    assert(args@.take(m as int) =~= args@);
                    assert forall|x: Seq<char>|
                        name_in(calls@, x) <==> name_in(old(calls)@, x) || call_targets(
                            *e,
                        ).contains(x) by {
                        assert(name_in(calls@, x) <==> name_in(after_func, x) || call_targets_list(
                            args@,
                        ).contains(x));
                        match &**func {
                            Expr::Ident(n2) => {
                                assert(name_in(after_func, x) <==> name_in(old(calls)@, x) || x
                                    == n2@);
                                assert(call_targets(*e).contains(x) <==> x == n2@
                                    || call_targets_list(args@).contains(x));
                            },
                            _ => {
                                assert(after_func == old(calls)@);
                                assert(call_targets(*e).contains(x) <==> call_targets_list(
                                    args@,
                                ).contains(x));
                            },
                        }
                    }
                }
            },
            Expr::BoundedFor { body, .. } => {
                Self::collect_list(body, calls);
            },
            Expr::Let { bindings, body } => {
                let ghost start = calls@;
                let m = bindings.len();
                proof {
                    assert(bindings@.take(0) =~= Seq::<(String, Expr)>::empty());
                }
                for k in 0..m
                    invariant
                        m == bindings@.len(),
                        forall|x: Seq<char>|
                            #![trigger name_in(calls@, x)]
                            name_in(calls@, x) <==> name_in(start, x) || call_targets_bindings(
                                bindings@.take(k as int),
                            ).contains(x),
                {
                    let ghost prev = calls@;
                    Self::collect_calls(&bindings[k].1, calls);
                    proof {
                        assert(bindings@.take(k + 1).drop_last() =~= bindings@.take(k as int));
                        assert(bindings@.take(k + 1).last() == bindings@[k as int]);
                        assert(call_targets_bindings(bindings@.take(k + 1))
                            == call_targets_bindings(bindings@.take(k as int)).union(call_targets(
                            bindings@[k as int].1,
                        )));
                        assert forall|x: Seq<char>|
                            name_in(calls@, x) <==> name_in(start, x) || call_targets_bindings(
                                bindings@.take(k + 1),
                            ).contains(x) by {
                            assert(name_in(calls@, x) <==> name_in(prev, x) || call_targets(
                                bindings@[k as int].1,
                            ).contains(x));
                            assert(name_in(prev, x) <==> name_in(start, x)
                                || call_targets_bindings(bindings@.take(k as int)).contains(x));
                        }
                    }
                }
                proof {
                    assert(bindings@.take(m as int) =~= bindings@);
                }
                let ghost mid = calls@;
                Self::collect_list(body, calls);
                proof {
                    assert forall|x: Seq<char>|
                        name_in(calls@, x) <==> name_in(old(calls)@, x) || call_targets(
                            *e,
                        ).contains(x) by {
                        assert(name_in(calls@, x) <==> name_in(mid, x) || call_targets_list(
                            body@,
                        ).contains(x));
                        assert(name_in(mid, x) <==> name_in(start, x) || call_targets_bindings(
                            bindings@,
                        ).contains(x));
                    }
                }
            },
            Expr::If { condition, then_branch, else_branch } => {
                Self::collect_calls(condition, calls);
                Self::collect_calls(then_branch, calls);
                Self::collect_calls(else_branch, calls);
            },
            Expr::WithCapability { body, .. } => {
                Self::collect_list(body, calls);
            },
            _ => {},
        }
    }

    /// Gather the calls of every expression of a list into `calls`.
    #[verifier::loop_isolation(false)]
    fn collect_list(es: &Vec<Expr>, calls: &mut Vec<String>)
        ensures
            forall|x: Seq<char>|
                #![trigger name_in(final(calls)@, x)]
                name_in(final(calls)@, x) <==> name_in(old(calls)@, x) || call_targets_list(
                    es@,
                ).contains(x),
        decreases es@,
    {
        let ghost start = calls@;
        let n = es.len();
        proof {
            assert(es@.take(0) =~= Seq::<Expr>::empty());
        }
        for i in 0..n
            invariant
                n == es@.len(),
                forall|x: Seq<char>|
                    #![trigger name_in(calls@, x)]
                    name_in(calls@, x) <==> name_in(start, x) || call_targets_list(
                        es@.take(i as int),
                    ).contains(x),
        {
            let ghost prev = calls@;
            Self::collect_calls(&es[i], calls);
            proof {
                assert(es@.take(i + 1).drop_last() =~= es@.take(i as int));
                assert(es@.take(i + 1).last() == es@[i as int]);
                assert(call_targets_list(es@.take(i + 1)) == call_targets_list(
                    es@.take(i as int),
                ).union(call_targets(es@[i as int])));
                assert forall|x: Seq<char>|
                    name_in(calls@, x) <==> name_in(start, x) || call_targets_list(
                        es@.take(i + 1),
                    ).contains(x) by {
                    assert(name_in(calls@, x) <==> name_in(prev, x) || call_targets(
                        es@[i as int],
                    ).contains(x));
                    assert(name_in(prev, x) <==> name_in(start, x) || call_targets_list(
                        es@.take(i as int),
                    ).contains(x));
                }
            }
        }
        proof {
            assert(es@.take(n as int) =~= es@);
        }
    }

    /// Whether the call graph has a directed cycle: deploy-time recursion,
    /// direct or mutual.
    pub fn has_cycles(&self) -> (r: bool)
        ensures
            r == self.spec_cyclic(),
    {
        graph_is_cyclic(&self.graph)
    }

    /// A topological order of the function names, every caller before each
    /// of its callees; `None` exactly when the graph is cyclic.
    #[verifier::loop_isolation(false)]
    #[verifier::rlimit(50)]
    #[verifier::spinoff_prover]
    pub fn topological_order(&self) -> (r: Option<Vec<String>>)
        requires
            self.wf(),
        ensures
            r matches Some(v) ==> v@.len() == self.spec_node_count(),
            r matches Some(v) ==> forall|x: Seq<char>|
                #![trigger name_in(v@, x)]
                self.spec_has_node(x) <==> name_in(v@, x),
            r matches Some(v) ==> forall|k1: int, k2: int|
                #![trigger v@[k1], v@[k2]]
                0 <= k1 < v@.len() && 0 <= k2 < v@.len() && k1 != k2 ==> v@[k1]@ != v@[k2]@,
            r matches Some(v) ==> forall|k1: int, k2: int|
                #![trigger v@[k1], v@[k2]]
                0 <= k1 < v@.len() && 0 <= k2 < v@.len() && self.spec_has_edge(v@[k1]@, v@[k2]@)
                    ==> k1 < k2,
            r is None ==> self.spec_cyclic(),
    {
        let order = match graph_toposort(&self.graph) {
            Some(o) => o,
            None => {
                return None;
            },
        };
        let ghost gn = self.names@.len() as int;
        let mut v: Vec<String> = Vec::new();
        let n = order.len();
        for k in 0..n
            invariant
                n == order@.len(),
                n == self.names@.len(),
                forall|i: int| 0 <= i < n ==> (#[trigger] order@[i]) < n,
                forall|i: int, j: int|
                    #![trigger order@[i], order@[j]]
                    0 <= i < j < n ==> order@[i] != order@[j],
                forall|i: int, j: int|
                    #![trigger order@[i], order@[j]]
                    0 <= i < n && 0 <= j < n && graph_edge_set(self.graph).contains(
                        (order@[i] as nat, order@[j] as nat),
                    ) ==> i < j,
                v@.len() == k,
                forall|i: int| 0 <= i < k ==> (#[trigger] v@[i])@ == self.names@[order@[i] as int]@,
        {
            v.push(self.names[order[k]].clone());
        }
        proof {
            // Every node index appears in `order`: its set of indices is a
            // subset of [0, n) with full cardinality, hence the whole range.
            let iseq = Seq::<int>::new(order@.len(), |i: int| order@[i] as int);
            let iset = iseq.to_set();
            assert(iseq.no_duplicates());
            iseq.unique_seq_to_set();
            lemma_int_range(0, gn);
            assert(iset.subset_of(set_int_range(0, gn)));
            lemma_len_subset(iset, set_int_range(0, gn));
            assert forall|idx: int| 0 <= idx < gn implies iset.contains(idx) by {
                if !iset.contains(idx) {
                    assert(iset.subset_of(set_int_range(0, gn).remove(idx)));
                    lemma_len_subset(iset, set_int_range(0, gn).remove(idx));
                    assert(set_int_range(0, gn).remove(idx).len() == gn - 1);
                }
            }
            assert forall|x: Seq<char>| #![trigger name_in(v@, x)]
                self.spec_has_node(x) <==> name_in(v@, x) by {
                if self.spec_has_node(x) {
                    let w = choose|i: int|
                        0 <= i < self.names@.len() && (#[trigger] self.names@[i])@ == x;
                    assert(iset.contains(w));
                    let kw = choose|k: int| 0 <= k < iseq.len() && iseq[k] == w;
                    assert(v@[kw]@ == self.names@[w]@);
                    assert(v@[kw]@ == x);
                    assert(name_in(v@, x));
                }
                if name_in(v@, x) {
                    let k = choose|k: int| 0 <= k < v@.len() && (#[trigger] v@[k])@ == x;
                    assert(self.names@[order@[k] as int]@ == x);
                    assert(self.spec_has_node(x));
                }
            }
            // Distinct indices carry distinct names, and an edge between
            // named nodes pins its endpoints' indices.
            assert forall|k1: int, k2: int|
                #![trigger v@[k1], v@[k2]]
                0 <= k1 < v@.len() && 0 <= k2 < v@.len() && k1 != k2 implies v@[k1]@ != v@[k2]@ by {
                let i1 = order@[k1] as int;
                let i2 = order@[k2] as int;
                assert(order@[k1] != order@[k2]);
                assert(self.names@[i1]@ != self.names@[i2]@);
            }
            assert forall|k1: int, k2: int|
                #![trigger v@[k1], v@[k2]]
                0 <= k1 < v@.len() && 0 <= k2 < v@.len() && self.spec_has_edge(v@[k1]@, v@[k2]@)
                implies k1 < k2 by {
                let p = choose|p: (nat, nat)|
                    #[trigger] graph_edge_set(self.graph).contains(p) && p.0 < self.names@.len()
                        && p.1 < self.names@.len() && self.names@[p.0 as int]@ == v@[k1]@
                        && self.names@[p.1 as int]@ == v@[k2]@;
                let i1 = order@[k1] as int;
                let i2 = order@[k2] as int;
                assert(self.names@[i1]@ == v@[k1]@);
                assert(self.names@[i2]@ == v@[k2]@);
                assert(p.0 == i1 && p.1 == i2);
            }
        }
        Some(v)
    }

    /// How many functions the graph holds, defined and dangling together.
    pub fn function_count(&self) -> (r: usize)
        ensures
            r as nat == self.spec_node_count(),
    {
        self.names.len()
    }
}

/// A closed walk through the named call edges: `p` lists function names,
/// consecutive ones joined by an edge, and the last equals the first.
pub open spec fn is_name_cycle(cg: CallGraph, p: Seq<Seq<char>>) -> bool {
    &&& p.len() >= 2
    &&& p[0] == p[p.len() - 1]
    &&& forall|i: int| 0 <= i < p.len() - 1 ==> cg.spec_has_edge(#[trigger] p[i], p[i + 1])
}

/// Deploy-time recursion at the level of names: some chain of calls leads
/// from a function name back to itself.
pub open spec fn name_cycle(cg: CallGraph) -> bool {
    exists|p: Seq<Seq<char>>| is_name_cycle(cg, p)
}

/// The call graph is cyclic exactly when a chain of named call edges leads
/// from some function name back to itself: acyclicity of the graph is the
/// absence of deploy-time recursion, direct or mutual.
pub proof fn lemma_cyclic_iff_name_cycle(cg: CallGraph)
    requires
        cg.wf(),
    ensures
        cg.spec_cyclic() <==> name_cycle(cg),
{
    if cg.spec_cyclic() {
        let p = choose|p: Seq<nat>| is_cycle(graph_edge_set(cg.graph), p);
        assert(is_cycle(graph_edge_set(cg.graph), p));
        // Every visited index is an edge endpoint, so it lies in range and
        // carries a name; the index walk maps to a name walk.
        assert forall|i: int| 0 <= i < p.len() implies p[i] < cg.names@.len() by {
            if i < p.len() - 1 {
                assert(graph_edge_set(cg.graph).contains((p[i], p[i + 1])));
            } else {
                assert(graph_edge_set(cg.graph).contains((p[0], p[1])));
                assert(p[i] == p[0]);
            }
        }
        let q = Seq::<Seq<char>>::new(p.len(), |i: int| cg.names@[p[i] as int]@);
        assert forall|i: int| 0 <= i < q.len() - 1 implies cg.spec_has_edge(
            #[trigger] q[i],
            q[i + 1],
        ) by {
            assert(graph_edge_set(cg.graph).contains((p[i], p[i + 1])));
        }
        assert(q[0] == q[q.len() - 1]);
        assert(is_name_cycle(cg, q));
    }
    if name_cycle(cg) {
        let q = choose|q: Seq<Seq<char>>| is_name_cycle(cg, q);
        assert(is_name_cycle(cg, q));
        // Distinct nodes carry distinct names, so each name of the walk pins
        // one node index; the name walk maps back to an index walk.
        let p = Seq::<nat>::new(
            q.len(),
            |i: int|
                choose|j: nat| j < cg.names@.len() && cg.names@[j as int]@ == q[i],
        );
        assert forall|i: int| 0 <= i < q.len() - 1 implies graph_edge_set(cg.graph).contains(
            ((#[trigger] p[i]), p[i + 1]),
        ) by {
            assert(cg.spec_has_edge(q[i], q[i + 1]));
            let pair = choose|pair: (nat, nat)|
                #[trigger] graph_edge_set(cg.graph).contains(pair) && pair.0 < cg.names@.len()
                    && pair.1 < cg.names@.len() && cg.names@[pair.0 as int]@ == q[i]
                    && cg.names@[pair.1 as int]@ == q[i + 1];
            assert(pair.0 < cg.names@.len() && cg.names@[pair.0 as int]@ == q[i]);
            let j0 = choose|j: nat| j < cg.names@.len() && cg.names@[j as int]@ == q[i];
            assert(j0 < cg.names@.len() && cg.names@[j0 as int]@ == q[i]);
            assert(j0 == pair.0);
            let j1 = choose|j: nat| j < cg.names@.len() && cg.names@[j as int]@ == q[i + 1];
            assert(j1 < cg.names@.len() && cg.names@[j1 as int]@ == q[i + 1]);
            assert(j1 == pair.1);
        }
        assert(p[0] == p[p.len() - 1]);
        assert(is_cycle(graph_edge_set(cg.graph), p));
    }
}

} // verus!
