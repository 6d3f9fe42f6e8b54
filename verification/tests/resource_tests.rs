use oblibeny_parser::ast::{Expr, ResourceKind, ResourceSpec, Type};
use oblibeny_parser::resources::{ResourceAnalyzer, ResourceBounds};

fn rb(time_ms: u64, memory_bytes: u64, network_bytes: u64, storage_bytes: u64) -> ResourceBounds {
    ResourceBounds { time_ms, memory_bytes, network_bytes, storage_bytes }
}

#[test]
fn test_add_is_commutative_and_associative() {
    let a = rb(1, 2, 3, 4);
    let b = rb(10, 20, 30, 40);
    let c = rb(100, 200, 300, 400);

    let mut ab = a;
    ab.add(&b);
    let mut ba = b;
    ba.add(&a);
    assert_eq!(ab, ba);

    let mut ab_c = ab;
    ab_c.add(&c);
    let mut bc = b;
    bc.add(&c);
    let mut a_bc = a;
    a_bc.add(&bc);
    assert_eq!(ab_c, a_bc);
}

#[test]
fn test_add_saturates() {
    let mut a = rb(u64::MAX - 1, 0, 0, 0);
    a.add(&rb(5, 1, 0, 0));
    assert_eq!(a.time_ms, u64::MAX);
    assert_eq!(a.memory_bytes, 1);
}

#[test]
fn test_max_is_idempotent_and_componentwise() {
    let a = rb(5, 7, 1, 9);
    let mut aa = a;
    aa.max(&a);
    assert_eq!(aa, a);

    let mut m = rb(1, 100, 2, 0);
    m.max(&rb(50, 3, 2, 4));
    assert_eq!(m, rb(50, 100, 2, 4));
}

#[test]
fn test_multiply_distributes_over_add() {
    let a = rb(3, 5, 7, 11);
    let b = rb(13, 17, 19, 23);

    let mut sum = a;
    sum.add(&b);
    sum.multiply(6);

    let mut a6 = a;
    a6.multiply(6);
    let mut b6 = b;
    b6.multiply(6);
    a6.add(&b6);

    assert_eq!(sum, a6);
}

#[test]
fn test_multiply_saturates() {
    let mut a = rb(u64::MAX / 2 + 1, 2, 0, 0);
    a.multiply(3);
    assert_eq!(a.time_ms, u64::MAX);
    assert_eq!(a.memory_bytes, 6);
}

#[test]
fn test_fits_within_is_componentwise() {
    let usage = rb(10, 20, 30, 40);
    assert!(usage.fits_within(&rb(10, 20, 30, 40)));
    assert!(usage.fits_within(&rb(11, 21, 31, 41)));
    assert!(!usage.fits_within(&rb(9, 100, 100, 100)));
}

#[test]
fn test_literal_costs_one_time_unit() {
    let analyzer = ResourceAnalyzer::new();
    assert_eq!(analyzer.analyze(&Expr::Int(5)), rb(1, 0, 0, 0));
    assert_eq!(analyzer.analyze(&Expr::Bool(true)), rb(1, 0, 0, 0));
    assert_eq!(analyzer.analyze(&Expr::Ident("x".to_string())), rb(1, 0, 0, 0));
}

#[test]
fn test_if_adds_condition_and_max_branch() {
    // (if true (gpio-set 1 0) (sensor-read 2)): 1 + max(100, 500) = 501.
    let analyzer = ResourceAnalyzer::new();
    let expr = Expr::If {
        condition: Box::new(Expr::Bool(true)),
        then_branch: Box::new(Expr::GpioSet {
            device: Box::new(Expr::Int(1)),
            value: Box::new(Expr::Int(0)),
        }),
        else_branch: Box::new(Expr::SensorRead(Box::new(Expr::Int(2)))),
    };
    assert_eq!(analyzer.analyze(&expr).time_ms, 501);
}

#[test]
fn test_bounded_loop_scales_body_cost() {
    // Body: one call (+ total i) = 10 base + 1 table + 1 + 1 args = 13;
    // ten iterations make 130.
    let analyzer = ResourceAnalyzer::new();
    let expr = Expr::BoundedFor {
        var: "i".to_string(),
        start: Box::new(Expr::Int(0)),
        end: Box::new(Expr::Int(10)),
        body: vec![Expr::FunctionCall {
            func: Box::new(Expr::Ident("add".to_string())),
            args: vec![Expr::Ident("total".to_string()), Expr::Ident("i".to_string())],
        }],
    };
    assert_eq!(analyzer.analyze(&expr).time_ms, 130);
}

#[test]
fn test_unknown_loop_bound_uses_default_estimate() {
    let analyzer = ResourceAnalyzer::new();
    let expr = Expr::BoundedFor {
        var: "i".to_string(),
        start: Box::new(Expr::Int(0)),
        end: Box::new(Expr::Ident("n".to_string())),
        body: vec![Expr::Int(1)],
    };
    assert_eq!(analyzer.analyze(&expr).time_ms, 100);
}

#[test]
fn test_call_cost_uses_operation_table() {
    let analyzer = ResourceAnalyzer::new();
    // (div 1 2): 10 base + 10 table + 1 + 1 for the literal arguments.
    let expr = Expr::FunctionCall {
        func: Box::new(Expr::Ident("div".to_string())),
        args: vec![Expr::Int(1), Expr::Int(2)],
    };
    assert_eq!(analyzer.analyze(&expr).time_ms, 22);

    // An unknown callee costs the base overhead alone.
    let unknown = Expr::FunctionCall {
        func: Box::new(Expr::Ident("blink".to_string())),
        args: vec![],
    };
    assert_eq!(analyzer.analyze(&unknown).time_ms, 10);
}

#[test]
fn test_sleep_costs() {
    let analyzer = ResourceAnalyzer::new();
    assert_eq!(analyzer.analyze(&Expr::SleepMs(Box::new(Expr::Int(50)))).time_ms, 50);
    assert_eq!(
        analyzer.analyze(&Expr::SleepMs(Box::new(Expr::Ident("d".to_string())))).time_ms,
        1000
    );
}

#[test]
fn test_network_send_charges_bytes() {
    let analyzer = ResourceAnalyzer::new();
    let expr = Expr::NetworkSend {
        device: Box::new(Expr::Int(0)),
        data: Box::new(Expr::String("hello".to_string())),
    };
    let bounds = analyzer.analyze(&expr);
    assert_eq!(bounds.time_ms, 1000);
    assert_eq!(bounds.network_bytes, 256);
}

#[test]
fn test_array_literal_charges_memory() {
    let analyzer = ResourceAnalyzer::new();
    let expr = Expr::ArrayLiteral { elem_type: Type::Int32, size: 16 };
    assert_eq!(analyzer.analyze(&expr), rb(0, 128, 0, 0));
}

#[test]
fn test_array_access_cost() {
    let analyzer = ResourceAnalyzer::new();
    let expr = Expr::ArrayGet {
        array: Box::new(Expr::Ident("xs".to_string())),
        index: Box::new(Expr::Int(0)),
    };
    assert_eq!(analyzer.analyze(&expr).time_ms, 3);
}

#[test]
fn test_extract_budget_top_level() {
    let exprs = vec![Expr::ResourceBudget {
        specs: vec![
            ResourceSpec::new(ResourceKind::TimeMs, 1000),
            ResourceSpec::new(ResourceKind::MemoryBytes, 2048),
        ],
    }];
    assert_eq!(ResourceAnalyzer::extract_budget(&exprs), Some(rb(1000, 2048, 0, 0)));
}

#[test]
fn test_extract_budget_inside_program() {
    let exprs = vec![Expr::Program {
        name: "blinky".to_string(),
        budget: Box::new(Expr::ResourceBudget {
            specs: vec![ResourceSpec::new(ResourceKind::NetworkBytes, 512)],
        }),
        forms: vec![],
    }];
    assert_eq!(ResourceAnalyzer::extract_budget(&exprs), Some(rb(0, 0, 512, 0)));
}

#[test]
fn test_extract_budget_absent() {
    let exprs = vec![Expr::Int(1)];
    assert_eq!(ResourceAnalyzer::extract_budget(&exprs), None);
}

#[test]
fn test_extract_budget_first_declaration_wins() {
    let exprs = vec![
        Expr::ResourceBudget { specs: vec![ResourceSpec::new(ResourceKind::TimeMs, 1)] },
        Expr::ResourceBudget { specs: vec![ResourceSpec::new(ResourceKind::TimeMs, 2)] },
    ];
    assert_eq!(ResourceAnalyzer::extract_budget(&exprs), Some(rb(1, 0, 0, 0)));
}

#[test]
fn test_specs_to_bounds_later_entry_overwrites() {
    let specs = vec![
        ResourceSpec::new(ResourceKind::StorageBytes, 10),
        ResourceSpec::new(ResourceKind::StorageBytes, 77),
    ];
    assert_eq!(ResourceAnalyzer::specs_to_bounds(&specs), rb(0, 0, 0, 77));
}

#[test]
fn test_resource_bounds_new_is_zero() {
    assert_eq!(ResourceBounds::new(), rb(0, 0, 0, 0));
}
