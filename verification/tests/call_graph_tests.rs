use oblibeny_parser::ast::Expr;
use oblibeny_parser::call_graph::CallGraph;

#[test]
fn test_acyclic_call_graph() {
    let exprs = vec![
        Expr::DefunDeploy {
            name: "main".to_string(),
            params: vec![],
            return_type: None,
            body: vec![Expr::FunctionCall {
                func: Box::new(Expr::Ident("helper".to_string())),
                args: vec![],
            }],
        },
        Expr::DefunDeploy {
            name: "helper".to_string(),
            params: vec![],
            return_type: None,
            body: vec![Expr::Int(42)],
        },
    ];

    let cg = CallGraph::build(&exprs);
    assert!(!cg.has_cycles());
    assert_eq!(cg.function_count(), 2);
}

#[test]
fn test_cyclic_call_graph() {
    let exprs = vec![
        Expr::DefunDeploy {
            name: "foo".to_string(),
            params: vec![],
            return_type: None,
            body: vec![Expr::FunctionCall {
                func: Box::new(Expr::Ident("bar".to_string())),
                args: vec![],
            }],
        },
        Expr::DefunDeploy {
            name: "bar".to_string(),
            params: vec![],
            return_type: None,
            body: vec![Expr::FunctionCall {
                func: Box::new(Expr::Ident("foo".to_string())),
                args: vec![],
            }],
        },
    ];

    let cg = CallGraph::build(&exprs);
    assert!(cg.has_cycles());
}

#[test]
fn test_self_loop_is_cyclic() {
    let exprs = vec![Expr::DefunDeploy {
        name: "loner".to_string(),
        params: vec![],
        return_type: None,
        body: vec![Expr::FunctionCall {
            func: Box::new(Expr::Ident("loner".to_string())),
            args: vec![],
        }],
    }];

    let cg = CallGraph::build(&exprs);
    assert!(cg.has_cycles());
    assert!(cg.topological_order().is_none());
}

#[test]
fn test_topological_order_respects_edges() {
    let defun = |name: &str, callee: &str| Expr::DefunDeploy {
        name: name.to_string(),
        params: vec![],
        return_type: None,
        body: vec![Expr::FunctionCall {
            func: Box::new(Expr::Ident(callee.to_string())),
            args: vec![],
        }],
    };
    let exprs = vec![
        defun("a", "b"),
        defun("b", "c"),
        Expr::DefunDeploy {
            name: "c".to_string(),
            params: vec![],
            return_type: None,
            body: vec![Expr::Int(0)],
        },
    ];

    let cg = CallGraph::build(&exprs);
    assert!(!cg.has_cycles());
    let order = cg.topological_order().expect("acyclic graph must have an order");
    assert_eq!(order.len(), 3);
    let pos = |name: &str| order.iter().position(|n| n == name).unwrap();
    assert!(pos("a") < pos("b"));
    assert!(pos("b") < pos("c"));
}

#[test]
fn test_dangling_callee_becomes_node() {
    let exprs = vec![Expr::DefunDeploy {
        name: "entry".to_string(),
        params: vec![],
        return_type: None,
        body: vec![Expr::FunctionCall {
            func: Box::new(Expr::Ident("undefined-helper".to_string())),
            args: vec![],
        }],
    }];

    let cg = CallGraph::build(&exprs);
    assert_eq!(cg.function_count(), 2);
    assert!(!cg.has_cycles());
}

#[test]
fn test_empty_program_graph() {
    let exprs: Vec<Expr> = vec![];
    let cg = CallGraph::build(&exprs);
    assert_eq!(cg.function_count(), 0);
    assert!(!cg.has_cycles());
    assert_eq!(cg.topological_order(), Some(vec![]));
}

#[test]
fn test_duplicate_function_names_share_a_node() {
    let exprs = vec![
        Expr::DefunDeploy {
            name: "dup".to_string(),
            params: vec![],
            return_type: None,
            body: vec![Expr::Int(1)],
        },
        Expr::DefunDeploy {
            name: "dup".to_string(),
            params: vec![],
            return_type: None,
            body: vec![Expr::Int(2)],
        },
    ];

    let cg = CallGraph::build(&exprs);
    assert_eq!(cg.function_count(), 1);
}
