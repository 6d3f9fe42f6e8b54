use oblibeny_parser::ast::{Expr, Parameter, ResourceKind, ResourceSpec};
use oblibeny_parser::report::ProgramAnalysis;
use oblibeny_parser::termination::TerminationError;

#[test]
fn test_simple_function_is_valid() {
    // (defun-deploy add (a b) : int32 (+ a b))
    let exprs = vec![Expr::DefunDeploy {
        name: "add".to_string(),
        params: vec![
            Parameter::new("a".to_string(), None),
            Parameter::new("b".to_string(), None),
        ],
        return_type: Some(oblibeny_parser::ast::Type::Int32),
        body: vec![Expr::FunctionCall {
            func: Box::new(Expr::Ident("+".to_string())),
            args: vec![Expr::Ident("a".to_string()), Expr::Ident("b".to_string())],
        }],
    }];

    let analysis = ProgramAnalysis::analyze(exprs);
    assert!(analysis.is_valid());
    assert_eq!(analysis.call_graph.function_count(), 2);
    assert!(!analysis.call_graph.has_cycles());
}

#[test]
fn test_bounded_loop_program_is_valid() {
    // (defun-deploy sum-range (n) (let ((total 0))
    //   (bounded-for i 0 10 (set total (+ total i))) total))
    let exprs = vec![Expr::DefunDeploy {
        name: "sum-range".to_string(),
        params: vec![Parameter::new("n".to_string(), None)],
        return_type: Some(oblibeny_parser::ast::Type::Int32),
        body: vec![Expr::Let {
            bindings: vec![("total".to_string(), Expr::Int(0))],
            body: vec![
                Expr::BoundedFor {
                    var: "i".to_string(),
                    start: Box::new(Expr::Int(0)),
                    end: Box::new(Expr::Int(10)),
                    body: vec![Expr::SetVar {
                        var: "total".to_string(),
                        value: Box::new(Expr::FunctionCall {
                            func: Box::new(Expr::Ident("+".to_string())),
                            args: vec![
                                Expr::Ident("total".to_string()),
                                Expr::Ident("i".to_string()),
                            ],
                        }),
                    }],
                },
                Expr::Ident("total".to_string()),
            ],
        }],
    }];

    let analysis = ProgramAnalysis::analyze(exprs);
    assert!(analysis.is_valid());
}

#[test]
fn test_mutual_recursion_is_invalid() {
    let call = |callee: &str| Expr::FunctionCall {
        func: Box::new(Expr::Ident(callee.to_string())),
        args: vec![],
    };
    let exprs = vec![
        Expr::DefunDeploy {
            name: "foo".to_string(),
            params: vec![],
            return_type: None,
            body: vec![call("bar")],
        },
        Expr::DefunDeploy {
            name: "bar".to_string(),
            params: vec![],
            return_type: None,
            body: vec![call("foo")],
        },
    ];

    let analysis = ProgramAnalysis::analyze(exprs);
    assert!(analysis.phase_check.is_ok());
    assert_eq!(analysis.termination_check, Err(TerminationError::Recursion));
    assert!(!analysis.is_valid());
}

#[test]
fn test_while_under_deploy_fails_both_checks() {
    let exprs = vec![Expr::DefunDeploy {
        name: "f".to_string(),
        params: vec![],
        return_type: None,
        body: vec![Expr::While {
            condition: Box::new(Expr::Bool(true)),
            body: vec![Expr::SleepMs(Box::new(Expr::Int(10)))],
        }],
    }];

    let analysis = ProgramAnalysis::analyze(exprs);
    assert!(analysis.phase_check.is_err());
    assert_eq!(
        analysis.termination_check,
        Err(TerminationError::UnboundedLoop("while loop".to_string()))
    );
    assert!(!analysis.is_valid());
}

#[test]
fn test_report_sums_deploy_function_bounds() {
    // Two deploy functions: one gpio write (100) and one sensor read (500).
    let exprs = vec![
        Expr::DefunDeploy {
            name: "out".to_string(),
            params: vec![],
            return_type: None,
            body: vec![Expr::GpioSet {
                device: Box::new(Expr::Int(1)),
                value: Box::new(Expr::Int(0)),
            }],
        },
        Expr::DefunDeploy {
            name: "read".to_string(),
            params: vec![],
            return_type: None,
            body: vec![Expr::SensorRead(Box::new(Expr::Int(2)))],
        },
        Expr::Int(7),
    ];

    let analysis = ProgramAnalysis::analyze(exprs);
    assert_eq!(analysis.resource_bounds.time_ms, 600);
    assert_eq!(analysis.resource_bounds.memory_bytes, 0);
}

#[test]
fn test_resource_admissibility_against_budget() {
    let program = |budget_ms: u64| {
        vec![
            Expr::ResourceBudget {
                specs: vec![
                    ResourceSpec::new(ResourceKind::TimeMs, budget_ms),
                    ResourceSpec::new(ResourceKind::MemoryBytes, 4096),
                    ResourceSpec::new(ResourceKind::NetworkBytes, 4096),
                    ResourceSpec::new(ResourceKind::StorageBytes, 4096),
                ],
            },
            Expr::DefunDeploy {
                name: "blink".to_string(),
                params: vec![],
                return_type: None,
                body: vec![Expr::GpioSet {
                    device: Box::new(Expr::Int(1)),
                    value: Box::new(Expr::Int(1)),
                }],
            },
        ]
    };

    let roomy = ProgramAnalysis::analyze(program(100));
    assert_eq!(roomy.resource_admissible(), Some(true));

    let tight = ProgramAnalysis::analyze(program(99));
    assert_eq!(tight.resource_admissible(), Some(false));
}

#[test]
fn test_no_budget_means_no_verdict() {
    let exprs = vec![Expr::DefunDeploy {
        name: "f".to_string(),
        params: vec![],
        return_type: None,
        body: vec![Expr::Int(1)],
    }];
    let analysis = ProgramAnalysis::analyze(exprs);
    assert_eq!(analysis.resource_admissible(), None);
}

#[test]
fn test_empty_program_is_valid() {
    let analysis = ProgramAnalysis::analyze(vec![]);
    assert!(analysis.is_valid());
    assert_eq!(analysis.resource_bounds.time_ms, 0);
    assert_eq!(analysis.call_graph.function_count(), 0);
}

#[test]
fn test_program_envelope_is_checked() {
    let envelope = |body: Vec<Expr>| {
        vec![Expr::Program {
            name: "app".to_string(),
            budget: Box::new(Expr::ResourceBudget {
                specs: vec![ResourceSpec::new(ResourceKind::TimeMs, 10_000)],
            }),
            forms: vec![Expr::DefunDeploy {
                name: "entry".to_string(),
                params: vec![],
                return_type: None,
                body,
            }],
        }]
    };

    let clean = ProgramAnalysis::analyze(envelope(vec![Expr::Int(1)]));
    assert!(clean.phase_check.is_ok());
    assert!(clean.termination_check.is_ok());

    let dirty = ProgramAnalysis::analyze(envelope(vec![Expr::While {
        condition: Box::new(Expr::Bool(true)),
        body: vec![Expr::Int(1)],
    }]));
    assert!(dirty.phase_check.is_err());
    assert!(dirty.termination_check.is_err());
}
