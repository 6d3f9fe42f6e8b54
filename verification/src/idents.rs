//! Collecting the identifiers that occur in an expression.

use vstd::prelude::*;
use crate::ast::Expr;
use crate::call_graph::name_in;

verus! {

/// The identifiers the collector finds in `e`: every `Ident` leaf reachable
/// through function bodies, loop headers and bodies, bindings, branches,
/// and calls.
pub open spec fn idents_in(e: Expr) -> Set<Seq<char>>
    decreases e,
{
    match e {
        Expr::Ident(n) => Set::<Seq<char>>::empty().insert(n@),
        Expr::DefunDeploy { body, .. } => idents_in_list(body@),
        Expr::BoundedFor { start, end, body, .. } => idents_in(*start).union(idents_in(*end)).union(
            idents_in_list(body@),
        ),
        Expr::FunctionCall { func, args } => idents_in(*func).union(idents_in_list(args@)),
        Expr::Let { bindings, body } => idents_in_bindings(bindings@).union(idents_in_list(body@)),
        Expr::If { condition, then_branch, else_branch } => idents_in(*condition).union(
            idents_in(*then_branch),
        ).union(idents_in(*else_branch)),
        _ => Set::<Seq<char>>::empty(),
    }
}

/// The identifiers found across a list of expressions.
pub open spec fn idents_in_list(es: Seq<Expr>) -> Set<Seq<char>>
    decreases es,
{
    if es.len() == 0 {
        Set::<Seq<char>>::empty()
    } else {
        idents_in_list(es.drop_last()).union(idents_in(es.last()))
    }
}

/// The identifiers found across the right-hand sides of a binding list.
pub open spec fn idents_in_bindings(bs: Seq<(String, Expr)>) -> Set<Seq<char>>
    decreases bs,
{
    if bs.len() == 0 {
        Set::<Seq<char>>::empty()
    } else {
        idents_in_bindings(bs.drop_last()).union(idents_in(bs.last().1))
    }
}

/// Collects every identifier of an expression.
pub struct IdentCollector {
    pub idents: Vec<String>,
}

impl IdentCollector {
    pub fn new() -> (r: Self)
        ensures
            r.idents@.len() == 0,
    {
        Self { idents: Vec::new() }
    }

    /// Every identifier of `expr`, one entry per occurrence.
    pub fn collect(expr: &Expr) -> (r: Vec<String>)
        ensures
            forall|x: Seq<char>|
                #![trigger name_in(r@, x)]
                name_in(r@, x) <==> idents_in(*expr).contains(x),
    {
        let mut collector = Self::new();
        Self::visit(expr, &mut collector.idents);
        collector.idents
    }

    /// Walk `e`, appending each identifier to `acc`.
    #[verifier::loop_isolation(false)]
    fn visit(e: &Expr, acc: &mut Vec<String>)
        ensures
            forall|x: Seq<char>|
                #![trigger name_in(final(acc)@, x)]
                name_in(final(acc)@, x) <==> name_in(old(acc)@, x) || idents_in(*e).contains(x),
        decreases *e,
    {
        match e {
            Expr::Ident(n) => {
                let ghost before = acc@;
                acc.push(n.clone());
                proof {
                    assert(acc@[acc@.len() - 1]@ == n@);
                    assert forall|x: Seq<char>|
                        name_in(acc@, x) <==> name_in(before, x) || x == n@ by {
                        if name_in(acc@, x) {
                            let w = choose|i: int|
                                0 <= i < acc@.len() && (#[trigger] acc@[i])@ == x;
                            if w < acc@.len() - 1 {
                                assert(before[w]@ == x);
                            }
                        }
                        if name_in(before, x) {
                            let w = choose|i: int|
                                0 <= i < before.len() && (#[trigger] before[i])@ == x;
                            assert(acc@[w]@ == x);
                        }
                        if x == n@ {
                            assert(acc@[acc@.len() - 1]@ == x);
                        }
                    }
                }
            },
            Expr::DefunDeploy { body, .. } => {
                Self::visit_list(body, acc);
            },
            Expr::BoundedFor { start, end, body, .. } => {
                Self::visit(start, acc);
                let ghost mid = acc@;
                Self::visit(end, acc);
                let ghost mid2 = acc@;
                Self::visit_list(body, acc);
                proof {
                    assert forall|x: Seq<char>|
                        name_in(acc@, x) <==> name_in(old(acc)@, x) || idents_in(*e).contains(
                            x,
                        ) by {
                        assert(name_in(acc@, x) <==> name_in(mid2, x) || idents_in_list(
                            body@,
                        ).contains(x));
                        assert(name_in(mid2, x) <==> name_in(mid, x) || idents_in(**end).contains(
                            x,
                        ));
                        assert(name_in(mid, x) <==> name_in(old(acc)@, x) || idents_in(
                            **start,
                        ).contains(x));
                    }
                }
            },
            Expr::FunctionCall { func, args } => {
                Self::visit(func, acc);
                let ghost mid = acc@;
                Self::visit_list(args, acc);
                proof {
                    assert forall|x: Seq<char>|
                        name_in(acc@, x) <==> name_in(old(acc)@, x) || idents_in(*e).contains(
                            x,
                        ) by {
                        assert(name_in(acc@, x) <==> name_in(mid, x) || idents_in_list(
                            args@,
                        ).contains(x));
                        assert(name_in(mid, x) <==> name_in(old(acc)@, x) || idents_in(
                            **func,
                        ).contains(x));
                    }
                }
            },
            Expr::Let { bindings, body } => {
                let ghost start0 = acc@;
                let m = bindings.len();
                proof {
                    assert(bindings@.take(0) =~= Seq::<(String, Expr)>::empty());
                }
                for k in 0..m
                    invariant
                        m == bindings@.len(),
                        forall|x: Seq<char>|
                            #![trigger name_in(acc@, x)]
                            name_in(acc@, x) <==> name_in(start0, x) || idents_in_bindings(
                                bindings@.take(k as int),
                            ).contains(x),
                {
                    let ghost prev = acc@;
                    Self::visit(&bindings[k].1, acc);
                    proof {
                        assert(bindings@.take(k + 1).drop_last() =~= bindings@.take(k as int));
                        assert(bindings@.take(k + 1).last() == bindings@[k as int]);
                        assert(idents_in_bindings(bindings@.take(k + 1)) == idents_in_bindings(
                            bindings@.take(k as int),
                        ).union(idents_in(bindings@[k as int].1)));
                        assert forall|x: Seq<char>|
                            name_in(acc@, x) <==> name_in(start0, x) || idents_in_bindings(
                                bindings@.take(k + 1),
                            ).contains(x) by {
                            assert(name_in(acc@, x) <==> name_in(prev, x) || idents_in(
                                bindings@[k as int].1,
                            ).contains(x));
                            assert(name_in(prev, x) <==> name_in(start0, x) || idents_in_bindings(
                                bindings@.take(k as int),
                            ).contains(x));
                        }
                    }
                }
                proof {
                    assert(bindings@.take(m as int) =~= bindings@);
                }
                let ghost mid = acc@;
                Self::visit_list(body, acc);
                proof {
                    assert forall|x: Seq<char>|
                        name_in(acc@, x) <==> name_in(old(acc)@, x) || idents_in(*e).contains(
                            x,
                        ) by {
                        assert(name_in(acc@, x) <==> name_in(mid, x) || idents_in_list(
                            body@,
                        ).contains(x));
                        assert(name_in(mid, x) <==> name_in(start0, x) || idents_in_bindings(
                            bindings@,
                        ).contains(x));
                    }
                }
            },
            Expr::If { condition, then_branch, else_branch } => {
                Self::visit(condition, acc);
                let ghost mid = acc@;
                Self::visit(then_branch, acc);
                let ghost mid2 = acc@;
                Self::visit(else_branch, acc);
                proof {
                    assert forall|x: Seq<char>|
                        name_in(acc@, x) <==> name_in(old(acc)@, x) || idents_in(*e).contains(
                            x,
                        ) by {
                        assert(name_in(acc@, x) <==> name_in(mid2, x) || idents_in(
                            **else_branch,
                        ).contains(x));
                        assert(name_in(mid2, x) <==> name_in(mid, x) || idents_in(
                            **then_branch,
                        ).contains(x));
                        assert(name_in(mid, x) <==> name_in(old(acc)@, x) || idents_in(
                            **condition,
                        ).contains(x));
                    }
                }
            },
            _ => {},
        }
    }

    /// Walk every expression of a list, appending each identifier to `acc`.
    #[verifier::loop_isolation(false)]
    fn visit_list(es: &Vec<Expr>, acc: &mut Vec<String>)
        ensures
            forall|x: Seq<char>|
                #![trigger name_in(final(acc)@, x)]
                name_in(final(acc)@, x) <==> name_in(old(acc)@, x) || idents_in_list(
                    es@,
                ).contains(x),
        decreases es@,
    {
        let ghost start0 = acc@;
        let n = es.len();
        proof {
            assert(es@.take(0) =~= Seq::<Expr>::empty());
        }
        for i in 0..n
            invariant
                n == es@.len(),
                forall|x: Seq<char>|
                    #![trigger name_in(acc@, x)]
                    name_in(acc@, x) <==> name_in(start0, x) || idents_in_list(
                        es@.take(i as int),
                    ).contains(x),
        {
            let ghost prev = acc@;
            Self::visit(&es[i], acc);
            proof {
                assert(es@.take(i + 1).drop_last() =~= es@.take(i as int));
                assert(es@.take(i + 1).last() == es@[i as int]);
                assert(idents_in_list(es@.take(i + 1)) == idents_in_list(es@.take(i as int)).union(
                    idents_in(es@[i as int]),
                ));
                assert forall|x: Seq<char>|
                    name_in(acc@, x) <==> name_in(start0, x) || idents_in_list(
                        es@.take(i + 1),
                    ).contains(x) by {
                    assert(name_in(acc@, x) <==> name_in(prev, x) || idents_in(
                        es@[i as int],
                    ).contains(x));
                    assert(name_in(prev, x) <==> name_in(start0, x) || idents_in_list(
                        es@.take(i as int),
                    ).contains(x));
                }
            }
        }
        proof {
            assert(es@.take(n as int) =~= es@);
        }
    }
}

} // verus!
