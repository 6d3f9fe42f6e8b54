use oblibeny_parser::ast::Expr;
use oblibeny_parser::termination::{TerminationChecker, TerminationError};

#[test]
fn test_bounded_for_valid() {
    let expr = Expr::BoundedFor {
        var: "i".to_string(),
        start: Box::new(Expr::Int(0)),
        end: Box::new(Expr::Int(10)),
        body: vec![Expr::Int(1)],
    };

    let exprs = vec![expr];
    let checker = TerminationChecker::new(&exprs);
    assert!(checker.check_terminates(&exprs).is_ok());
}

#[test]
fn test_while_invalid() {
    let expr = Expr::While {
        condition: Box::new(Expr::Bool(true)),
        body: vec![Expr::Int(1)],
    };

    let exprs = vec![expr];
    let checker = TerminationChecker::new(&exprs);
    assert!(checker.check_terminates(&exprs).is_err());
}

#[test]
fn test_recursion_detection() {
    let exprs = vec![Expr::DefunDeploy {
        name: "foo".to_string(),
        params: vec![],
        return_type: None,
        body: vec![Expr::FunctionCall {
            func: Box::new(Expr::Ident("foo".to_string())),
            args: vec![],
        }],
    }];

    let checker = TerminationChecker::new(&exprs);
    assert!(checker.check_terminates(&exprs).is_err());
}

#[test]
fn test_recursion_error_kind() {
    let exprs = vec![
        Expr::DefunDeploy {
            name: "foo".to_string(),
            params: vec![],
            return_type: None,
            body: vec![Expr::FunctionCall {
                func: Box::new(Expr::Ident("bar".to_string())),
                args: vec![],
            }],
        },
        Expr::DefunDeploy {
            name: "bar".to_string(),
            params: vec![],
            return_type: None,
            body: vec![Expr::FunctionCall {
                func: Box::new(Expr::Ident("foo".to_string())),
                args: vec![],
            }],
        },
    ];

    let checker = TerminationChecker::new(&exprs);
    assert_eq!(checker.check_terminates(&exprs), Err(TerminationError::Recursion));
}

#[test]
fn test_while_error_payload() {
    let exprs = vec![Expr::DefunDeploy {
        name: "f".to_string(),
        params: vec![],
        return_type: None,
        body: vec![Expr::While {
            condition: Box::new(Expr::Bool(true)),
            body: vec![Expr::SleepMs(Box::new(Expr::Int(10)))],
        }],
    }];

    let checker = TerminationChecker::new(&exprs);
    assert_eq!(
        checker.check_terminates(&exprs),
        Err(TerminationError::UnboundedLoop("while loop".to_string()))
    );
}

#[test]
fn test_for_error_payload() {
    let exprs = vec![Expr::For {
        var: "x".to_string(),
        iterable: Box::new(Expr::Ident("xs".to_string())),
        body: vec![Expr::Int(1)],
    }];

    let checker = TerminationChecker::new(&exprs);
    assert_eq!(
        checker.check_terminates(&exprs),
        Err(TerminationError::UnboundedLoop("for loop".to_string()))
    );
}

#[test]
fn test_unknown_bounds_names_the_variable() {
    let exprs = vec![Expr::DefunDeploy {
        name: "g".to_string(),
        params: vec![],
        return_type: None,
        body: vec![Expr::BoundedFor {
            var: "i".to_string(),
            start: Box::new(Expr::Int(0)),
            end: Box::new(Expr::Ident("n".to_string())),
            body: vec![Expr::SleepMs(Box::new(Expr::Int(1)))],
        }],
    }];

    let checker = TerminationChecker::new(&exprs);
    assert_eq!(
        checker.check_terminates(&exprs),
        Err(TerminationError::UnknownBounds("i".to_string()))
    );
}

#[test]
fn test_loop_ranking_function_literal_bounds() {
    let exprs: Vec<Expr> = vec![];
    let checker = TerminationChecker::new(&exprs);
    assert_eq!(checker.loop_ranking_function(&Expr::Int(0), &Expr::Int(10)), Some(10));
    assert_eq!(checker.loop_ranking_function(&Expr::Int(7), &Expr::Int(7)), Some(0));
    assert_eq!(checker.loop_ranking_function(&Expr::Int(10), &Expr::Int(3)), Some(0));
    assert_eq!(
        checker.loop_ranking_function(&Expr::Int(0), &Expr::Ident("n".to_string())),
        None
    );
}

#[test]
fn test_function_order_callers_first() {
    let exprs = vec![
        Expr::DefunDeploy {
            name: "top".to_string(),
            params: vec![],
            return_type: None,
            body: vec![Expr::FunctionCall {
                func: Box::new(Expr::Ident("leaf".to_string())),
                args: vec![],
            }],
        },
        Expr::DefunDeploy {
            name: "leaf".to_string(),
            params: vec![],
            return_type: None,
            body: vec![Expr::Int(1)],
        },
    ];

    let checker = TerminationChecker::new(&exprs);
    let order = checker.function_order().expect("acyclic graph must have an order");
    let pos = |name: &str| order.iter().position(|n| n == name).unwrap();
    assert!(pos("top") < pos("leaf"));
}

#[test]
fn test_nested_while_under_bounded_for_rejected() {
    let exprs = vec![Expr::BoundedFor {
        var: "i".to_string(),
        start: Box::new(Expr::Int(0)),
        end: Box::new(Expr::Int(5)),
        body: vec![Expr::While {
            condition: Box::new(Expr::Bool(true)),
            body: vec![Expr::Int(1)],
        }],
    }];

    let checker = TerminationChecker::new(&exprs);
    assert_eq!(
        checker.check_terminates(&exprs),
        Err(TerminationError::UnboundedLoop("while loop".to_string()))
    );
}
