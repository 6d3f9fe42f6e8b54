use oblibeny_parser::ast::{Expr, Phase};
use oblibeny_parser::phases::{PhaseError, PhaseSeparator};

#[test]
fn test_deploy_function_valid() {
    let separator = PhaseSeparator::new();

    let expr = Expr::DefunDeploy {
        name: "test".to_string(),
        params: vec![],
        return_type: None,
        body: vec![
            Expr::Int(42),
            Expr::BoundedFor {
                var: "i".to_string(),
                start: Box::new(Expr::Int(0)),
                end: Box::new(Expr::Int(10)),
                body: vec![Expr::Int(1)],
            },
        ],
    };

    assert!(separator.analyze(&expr).is_ok());
}

#[test]
fn test_deploy_function_invalid() {
    let separator = PhaseSeparator::new();

    let expr = Expr::DefunDeploy {
        name: "test".to_string(),
        params: vec![],
        return_type: None,
        body: vec![
            Expr::Int(42),
            Expr::While {
                condition: Box::new(Expr::Bool(true)),
                body: vec![Expr::Int(1)],
            },
        ],
    };

    assert!(separator.analyze(&expr).is_err());
}

#[test]
fn test_compile_in_deploy_names_the_function() {
    let separator = PhaseSeparator::new();

    let expr = Expr::DefunDeploy {
        name: "f".to_string(),
        params: vec![],
        return_type: None,
        body: vec![Expr::While {
            condition: Box::new(Expr::Bool(true)),
            body: vec![Expr::SleepMs(Box::new(Expr::Int(10)))],
        }],
    };

    assert_eq!(
        separator.analyze(&expr),
        Err(PhaseError::CompileInDeploy("in function f".to_string()))
    );
}

#[test]
fn test_compile_node_nested_in_if_rejected() {
    let separator = PhaseSeparator::new();

    let expr = Expr::DefunDeploy {
        name: "nested".to_string(),
        params: vec![],
        return_type: None,
        body: vec![Expr::If {
            condition: Box::new(Expr::Bool(true)),
            then_branch: Box::new(Expr::While {
                condition: Box::new(Expr::Bool(true)),
                body: vec![Expr::Int(1)],
            }),
            else_branch: Box::new(Expr::Int(0)),
        }],
    };

    assert_eq!(
        separator.analyze(&expr),
        Err(PhaseError::CompileInDeploy("in function nested".to_string()))
    );
}

#[test]
fn test_compile_node_nested_in_let_rejected() {
    let separator = PhaseSeparator::new();

    let exprs = vec![Expr::DefunDeploy {
        name: "shadowed".to_string(),
        params: vec![],
        return_type: None,
        body: vec![Expr::Let {
            bindings: vec![("m".to_string(), Expr::EvalCompile(Box::new(Expr::Int(1))))],
            body: vec![Expr::Ident("m".to_string())],
        }],
    }];

    assert!(separator.validate_deploy_phase(&exprs).is_err());
}

#[test]
fn test_validate_accepts_clean_program() {
    let separator = PhaseSeparator::new();

    let exprs = vec![
        Expr::DefunCompile {
            name: "gen".to_string(),
            params: vec![],
            return_type: None,
            body: vec![Expr::While {
                condition: Box::new(Expr::Bool(true)),
                body: vec![Expr::Int(1)],
            }],
        },
        Expr::DefunDeploy {
            name: "run".to_string(),
            params: vec![],
            return_type: None,
            body: vec![Expr::GpioSet {
                device: Box::new(Expr::Int(1)),
                value: Box::new(Expr::Int(0)),
            }],
        },
    ];

    // A while loop inside a compile-time function is legal: only deploy
    // functions are held to the phase discipline.
    assert!(separator.validate_deploy_phase(&exprs).is_ok());
}

#[test]
fn test_top_level_compile_form_is_compile_phase() {
    let separator = PhaseSeparator::new();
    let expr = Expr::While {
        condition: Box::new(Expr::Bool(true)),
        body: vec![Expr::Int(1)],
    };
    assert_eq!(separator.analyze(&expr), Ok(Phase::Compile));
}

#[test]
fn test_expr_phase_classification() {
    let w = Expr::While {
        condition: Box::new(Expr::Bool(true)),
        body: vec![Expr::Int(1)],
    };
    assert_eq!(w.phase(), Phase::Compile);
    assert!(w.is_compile_only());
    assert!(!w.is_deploy_safe());

    let i = Expr::Int(3);
    assert_eq!(i.phase(), Phase::Deploy);
    assert!(!i.is_compile_only());
    assert!(i.is_deploy_safe());

    let mixed = Expr::DefunDeploy {
        name: "m".to_string(),
        params: vec![],
        return_type: None,
        body: vec![Expr::Include("other.obl".to_string())],
    };
    assert_eq!(mixed.phase(), Phase::Mixed);
    assert!(!mixed.is_deploy_safe());
}

#[test]
fn test_extract_deploy_and_compile_functions() {
    let separator = PhaseSeparator::new();
    let exprs = vec![
        Expr::DefunDeploy {
            name: "d1".to_string(),
            params: vec![],
            return_type: None,
            body: vec![Expr::Int(1)],
        },
        Expr::DefunCompile {
            name: "c1".to_string(),
            params: vec![],
            return_type: None,
            body: vec![Expr::Int(2)],
        },
        Expr::Macro {
            name: "m1".to_string(),
            params: vec![],
            body: vec![Expr::Int(3)],
        },
        Expr::Int(9),
    ];

    let deploys = separator.extract_deploy_functions(&exprs);
    assert_eq!(deploys.len(), 1);
    assert!(matches!(deploys[0], Expr::DefunDeploy { .. }));

    let compiles = separator.extract_compile_functions(&exprs);
    assert_eq!(compiles.len(), 2);
}

#[test]
fn test_ident_collector_gathers_names() {
    let expr = Expr::FunctionCall {
        func: Box::new(Expr::Ident("+".to_string())),
        args: vec![Expr::Ident("a".to_string()), Expr::Ident("b".to_string())],
    };
    let idents = oblibeny_parser::idents::IdentCollector::collect(&expr);
    assert_eq!(idents, vec!["+".to_string(), "a".to_string(), "b".to_string()]);
}
