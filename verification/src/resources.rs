//! Worst-case resource analysis: a compositional upper bound on time,
//! memory, network, and storage consumption.
//!
//! The model is deliberately syntactic and conservative: loop bodies are
//! multiplied by their iteration count and branches are joined with a
//! componentwise maximum, which gives a sound worst-case bound under the
//! fixed operation-cost table regardless of runtime data. All arithmetic
//! saturates at `u64::MAX`, so a bound never wraps; a saturated bound simply
//! fails every finite budget.

use vstd::prelude::*;
use crate::ast::{iter_count, spec_eval_const, Expr, ResourceKind, ResourceSpec};

verus! {

/// Time cost of the named arithmetic and I/O operations, in the unit of
/// `time_ms` (see the operation-cost table of the resource model).
pub const COST_ADD: u64 = 1;

pub const COST_SUB: u64 = 1;

pub const COST_MUL: u64 = 2;

pub const COST_DIV: u64 = 10;

pub const COST_MOD: u64 = 10;

pub const COST_ARRAY_ACCESS: u64 = 1;

pub const COST_GPIO: u64 = 100;

pub const COST_UART: u64 = 200;

pub const COST_SENSOR: u64 = 500;

pub const COST_NETWORK: u64 = 1000;

pub const COST_SLEEP: u64 = 0;

/// Base time overhead of any function call.
pub const COST_CALL_BASE: u64 = 10;

/// Bytes charged for one network send: a fixed upper estimate.
pub const NETWORK_SEND_BYTES: u64 = 256;

/// Bytes charged per array element: element size is fixed at eight.
pub const ARRAY_ELEM_BYTES: u64 = 8;

/// Iteration estimate for a loop whose bounds are not integer literals.
pub const DEFAULT_ITERATIONS: u64 = 100;

/// Conservative time estimate for a sleep whose duration is not a literal.
pub const UNKNOWN_SLEEP_MS: u64 = 1000;

/// Addition on `u64` that saturates at `u64::MAX`.
pub open spec fn sat_add(a: u64, b: u64) -> u64 {
    if a + b > u64::MAX {
        u64::MAX
    } else {
        (a + b) as u64
    }
}

/// Multiplication on `u64` that saturates at `u64::MAX`.
pub open spec fn sat_mul(a: u64, b: u64) -> u64 {
    if a * b > u64::MAX {
        u64::MAX
    } else {
        (a * b) as u64
    }
}

/// An upper bound on the four resource dimensions.
#[derive(Debug, Clone, Copy, PartialEq, Eq, Structural)]
pub struct ResourceBounds {
    pub time_ms: u64,
    pub memory_bytes: u64,
    pub network_bytes: u64,
    pub storage_bytes: u64,
}

/// The all-zero bounds.
pub open spec fn rb_zero() -> ResourceBounds {
    ResourceBounds { time_ms: 0, memory_bytes: 0, network_bytes: 0, storage_bytes: 0 }
}

/// Componentwise saturating sum.
pub open spec fn rb_add(a: ResourceBounds, b: ResourceBounds) -> ResourceBounds {
    ResourceBounds {
        time_ms: sat_add(a.time_ms, b.time_ms),
        memory_bytes: sat_add(a.memory_bytes, b.memory_bytes),
        network_bytes: sat_add(a.network_bytes, b.network_bytes),
        storage_bytes: sat_add(a.storage_bytes, b.storage_bytes),
    }
}

/// Componentwise maximum.
pub open spec fn rb_max(a: ResourceBounds, b: ResourceBounds) -> ResourceBounds {
    ResourceBounds {
        time_ms: if a.time_ms >= b.time_ms {
            a.time_ms
        } else {
            b.time_ms
        },
        memory_bytes: if a.memory_bytes >= b.memory_bytes {
            a.memory_bytes
        } else {
            b.memory_bytes
        },
        network_bytes: if a.network_bytes >= b.network_bytes {
            a.network_bytes
        } else {
            b.network_bytes
        },
        storage_bytes: if a.storage_bytes >= b.storage_bytes {
            a.storage_bytes
        } else {
            b.storage_bytes
        },
    }
}

/// Componentwise saturating scaling.
pub open spec fn rb_scale(a: ResourceBounds, k: u64) -> ResourceBounds {
    ResourceBounds {
        time_ms: sat_mul(a.time_ms, k),
        memory_bytes: sat_mul(a.memory_bytes, k),
        network_bytes: sat_mul(a.network_bytes, k),
        storage_bytes: sat_mul(a.storage_bytes, k),
    }
}

/// Componentwise comparison against a budget.
pub open spec fn rb_fits(a: ResourceBounds, budget: ResourceBounds) -> bool {
    a.time_ms <= budget.time_ms && a.memory_bytes <= budget.memory_bytes && a.network_bytes
        <= budget.network_bytes && a.storage_bytes <= budget.storage_bytes
}

impl ResourceBounds {
    /// The all-zero bounds.
    pub fn new() -> (r: Self)
        ensures
            r == rb_zero(),
    {
        Self { time_ms: 0, memory_bytes: 0, network_bytes: 0, storage_bytes: 0 }
    }

    /// Accumulate another bound, saturating componentwise.
    pub fn add(&mut self, other: &ResourceBounds)
        ensures
            *final(self) == rb_add(*old(self), *other),
    {
        self.time_ms = self.time_ms.saturating_add(other.time_ms);
        self.memory_bytes = self.memory_bytes.saturating_add(other.memory_bytes);
        self.network_bytes = self.network_bytes.saturating_add(other.network_bytes);
        self.storage_bytes = self.storage_bytes.saturating_add(other.storage_bytes);
    }

    /// Join with another bound, taking the componentwise maximum.
    pub fn max(&mut self, other: &ResourceBounds)
        ensures
            *final(self) == rb_max(*old(self), *other),
    {
        if other.time_ms > self.time_ms {
            self.time_ms = other.time_ms;
        }
        if other.memory_bytes > self.memory_bytes {
            self.memory_bytes = other.memory_bytes;
        }
        if other.network_bytes > self.network_bytes {
            self.network_bytes = other.network_bytes;
        }
        if other.storage_bytes > self.storage_bytes {
            self.storage_bytes = other.storage_bytes;
        }
    }

    /// Scale by a factor, saturating componentwise.
    pub fn multiply(&mut self, factor: u64)
        ensures
            *final(self) == rb_scale(*old(self), factor),
    {
        self.time_ms = match self.time_ms.checked_mul(factor) {
            Some(v) => v,
            None => u64::MAX,
        };
        self.memory_bytes = match self.memory_bytes.checked_mul(factor) {
            Some(v) => v,
            None => u64::MAX,
        };
        self.network_bytes = match self.network_bytes.checked_mul(factor) {
            Some(v) => v,
            None => u64::MAX,
        };
        self.storage_bytes = match self.storage_bytes.checked_mul(factor) {
            Some(v) => v,
            None => u64::MAX,
        };
    }

    /// Whether this bound lies within the budget, componentwise.
    pub fn fits_within(&self, budget: &ResourceBounds) -> (r: bool)
        ensures
            r == rb_fits(*self, *budget),
    {
        self.time_ms <= budget.time_ms && self.memory_bytes <= budget.memory_bytes
            && self.network_bytes <= budget.network_bytes && self.storage_bytes
            <= budget.storage_bytes
    }
}

impl Default for ResourceBounds {
    /// The all-zero bounds.
    fn default() -> (r: Self)
        ensures
            r == rb_zero(),
    {
        Self { time_ms: 0, memory_bytes: 0, network_bytes: 0, storage_bytes: 0 }
    }
}

/// Saturating sum is commutative.
pub proof fn lemma_rb_add_commutative(a: ResourceBounds, b: ResourceBounds)
    ensures
        rb_add(a, b) == rb_add(b, a),
{
}

/// Saturating sum is associative.
pub proof fn lemma_rb_add_associative(a: ResourceBounds, b: ResourceBounds, c: ResourceBounds)
    ensures
        rb_add(rb_add(a, b), c) == rb_add(a, rb_add(b, c)),
{
}

/// Componentwise maximum is idempotent.
pub proof fn lemma_rb_max_idempotent(a: ResourceBounds)
    ensures
        rb_max(a, a) == a,
{
}

/// Saturating scaling by one component: `(a + b) * k == a * k + b * k`.
proof fn lemma_sat_mul_distributes(a: u64, b: u64, k: u64)
    ensures
        sat_mul(sat_add(a, b), k) == sat_add(sat_mul(a, k), sat_mul(b, k)),
{
    if k == 0 {
        assert(sat_mul(sat_add(a, b), 0) == 0) by (nonlinear_arith);
        assert(sat_mul(a, 0) == 0 && sat_mul(b, 0) == 0) by (nonlinear_arith);
    } else if a + b <= u64::MAX {
        assert((a + b) * k == a * k + b * k) by (nonlinear_arith);
        assert(a * k <= (a + b) * k && b * k <= (a + b) * k) by (nonlinear_arith)
            requires
                k >= 1,
        ;
    } else {
        // The true sum exceeds u64::MAX, so with k >= 1 every side saturates.
        assert(a * k + b * k > u64::MAX) by (nonlinear_arith)
            requires
                k >= 1,
                a + b > u64::MAX,
        ;
        assert(sat_add(a, b) * k >= sat_add(a, b)) by (nonlinear_arith)
            requires
                k >= 1,
        ;
    }
}

/// Scaling distributes over the sum: a scalar factor applied to a sum of
/// bounds equals the sum of the scaled bounds.
pub proof fn lemma_rb_scale_distributes_add(a: ResourceBounds, b: ResourceBounds, k: u64)
    ensures
        rb_scale(rb_add(a, b), k) == rb_add(rb_scale(a, k), rb_scale(b, k)),
{
    lemma_sat_mul_distributes(a.time_ms, b.time_ms, k);
    lemma_sat_mul_distributes(a.memory_bytes, b.memory_bytes, k);
    lemma_sat_mul_distributes(a.network_bytes, b.network_bytes, k);
    lemma_sat_mul_distributes(a.storage_bytes, b.storage_bytes, k);
}

/// Time cost that the table assigns to a named operation, if any.
pub open spec fn spec_op_cost(name: Seq<char>) -> Option<u64> {
    if name == "add"@ {
        Some(COST_ADD)
    } else if name == "sub"@ {
        Some(COST_SUB)
    } else if name == "mul"@ {
        Some(COST_MUL)
    } else if name == "div"@ {
        Some(COST_DIV)
    } else if name == "mod"@ {
        Some(COST_MOD)
    } else if name == "array-access"@ {
        Some(COST_ARRAY_ACCESS)
    } else if name == "gpio"@ {
        Some(COST_GPIO)
    } else if name == "uart"@ {
        Some(COST_UART)
    } else if name == "sensor"@ {
        Some(COST_SENSOR)
    } else if name == "network"@ {
        Some(COST_NETWORK)
    } else if name == "sleep"@ {
        Some(COST_SLEEP)
    } else {
        None
    }
}

/// Time charged for one call: the base overhead, plus the table cost of the
/// callee when the callee is a named operation of the table.
pub open spec fn spec_call_time(func: Expr) -> u64 {
    match func {
        Expr::Ident(name) => match spec_op_cost(name@) {
            Some(c) => sat_add(COST_CALL_BASE, c),
            None => COST_CALL_BASE,
        },
        _ => COST_CALL_BASE,
    }
}

/// Iterations charged for a bounded loop: the literal range length, or the
/// default heuristic when a bound is not a literal.
pub open spec fn spec_iter_estimate(start: Expr, end: Expr) -> u64 {
    match (spec_eval_const(start), spec_eval_const(end)) {
        (Some(s), Some(e)) => iter_count(s, e),
        _ => DEFAULT_ITERATIONS,
    }
}

/// Time charged for a sleep: the literal duration (a negative literal
/// sleeps for no time), or the conservative estimate when not a literal.
pub open spec fn spec_sleep_time(m: Expr) -> u64 {
    match m {
        Expr::Int(n) => if n >= 0 {
            n as u64
        } else {
            0
        },
        _ => UNKNOWN_SLEEP_MS,
    }
}

/// A bound that charges time only.
pub open spec fn rb_time(t: u64) -> ResourceBounds {
    ResourceBounds { time_ms: t, memory_bytes: 0, network_bytes: 0, storage_bytes: 0 }
}

/// The bound of every literal and identifier: one unit of time.
pub open spec fn rb_literal() -> ResourceBounds {
    rb_time(1)
}

/// The worst-case bound of one expression, composed bottom-up.
pub open spec fn analyze_spec(e: Expr) -> ResourceBounds
    decreases e,
{
    match e {
        Expr::Int(_) => rb_literal(),
        Expr::Float(_) => rb_literal(),
        Expr::Bool(_) => rb_literal(),
        Expr::String(_) => rb_literal(),
        Expr::Ident(_) => rb_literal(),
        Expr::BoundedFor { start, end, body, .. } => rb_scale(
            analyze_sum(body@),
            spec_iter_estimate(*start, *end),
        ),
        Expr::Let { bindings, body } => rb_add(
            analyze_bindings_sum(bindings@),
            analyze_sum(body@),
        ),
        Expr::If { condition, then_branch, else_branch } => rb_add(
            analyze_spec(*condition),
            rb_max(analyze_spec(*then_branch), analyze_spec(*else_branch)),
        ),
        Expr::FunctionCall { func, args } => rb_add(
            rb_time(spec_call_time(*func)),
            analyze_sum(args@),
        ),
        Expr::GpioSet { .. } => rb_time(COST_GPIO),
        Expr::GpioGet(_) => rb_time(COST_GPIO),
        Expr::SensorRead(_) => rb_time(COST_SENSOR),
        Expr::NetworkSend { .. } => ResourceBounds {
            time_ms: COST_NETWORK,
            memory_bytes: 0,
            network_bytes: NETWORK_SEND_BYTES,
            storage_bytes: 0,
        },
        Expr::SleepMs(m) => rb_time(spec_sleep_time(*m)),
        Expr::ArrayGet { array, index } => rb_add(
            rb_add(analyze_spec(*array), analyze_spec(*index)),
            rb_time(COST_ARRAY_ACCESS),
        ),
        Expr::ArraySet { array, index, value } => rb_add(
            rb_add(rb_add(analyze_spec(*array), analyze_spec(*index)), analyze_spec(*value)),
            rb_time(COST_ARRAY_ACCESS),
        ),
        Expr::ArrayLiteral { size, .. } => ResourceBounds {
            time_ms: 0,
            memory_bytes: sat_mul(size as u64, ARRAY_ELEM_BYTES),
            network_bytes: 0,
            storage_bytes: 0,
        },
        Expr::WithCapability { body, .. } => analyze_sum(body@),
        Expr::DefunDeploy { body, .. } => analyze_sum(body@),
        _ => rb_zero(),
    }
}

/// The saturating sum of the bounds of a list, left to right.
pub open spec fn analyze_sum(es: Seq<Expr>) -> ResourceBounds
    decreases es,
{
    if es.len() == 0 {
        rb_zero()
    } else {
        rb_add(analyze_sum(es.drop_last()), analyze_spec(es.last()))
    }
}

/// The saturating sum of the bounds of the right-hand sides of a binding
/// list, left to right.
pub open spec fn analyze_bindings_sum(bs: Seq<(String, Expr)>) -> ResourceBounds
    decreases bs,
{
    if bs.len() == 0 {
        rb_zero()
    } else {
        rb_add(analyze_bindings_sum(bs.drop_last()), analyze_spec(bs.last().1))
    }
}

/// Relies on str's PartialEq: two slices compare equal exactly when their
/// character sequences are equal.
#[verifier::external_body]
fn str_eq(a: &str, b: &str) -> (r: bool)
    ensures
        r == (a@ == b@),
{
    a == b
}

/// The table cost of a named operation.
fn op_cost(name: &str) -> (r: Option<u64>)
    ensures
        r == spec_op_cost(name@),
{
    if str_eq(name, "add") {
        Some(COST_ADD)
    } else if str_eq(name, "sub") {
        Some(COST_SUB)
    } else if str_eq(name, "mul") {
        Some(COST_MUL)
    } else if str_eq(name, "div") {
        Some(COST_DIV)
    } else if str_eq(name, "mod") {
        Some(COST_MOD)
    } else if str_eq(name, "array-access") {
        Some(COST_ARRAY_ACCESS)
    } else if str_eq(name, "gpio") {
        Some(COST_GPIO)
    } else if str_eq(name, "uart") {
        Some(COST_UART)
    } else if str_eq(name, "sensor") {
        Some(COST_SENSOR)
    } else if str_eq(name, "network") {
        Some(COST_NETWORK)
    } else if str_eq(name, "sleep") {
        Some(COST_SLEEP)
    } else {
        None
    }
}

/// Iterations of a bounded loop, from its bound expressions.
fn iter_estimate(start: &Expr, end: &Expr) -> (r: u64)
    ensures
        r == spec_iter_estimate(*start, *end),
{
    match (start, end) {
        (Expr::Int(s), Expr::Int(e)) => {
            if *e >= *s {
                ((*e as i128) - (*s as i128)) as u64
            } else {
                0
            }
        },
        _ => DEFAULT_ITERATIONS,
    }
}

/// The worst-case resource analysis pass.
pub struct ResourceAnalyzer {}

impl Default for ResourceAnalyzer {
    fn default() -> (r: Self) {
        Self {  }
    }
}

impl ResourceAnalyzer {
    pub fn new() -> (r: Self) {
        Self {  }
    }

    /// The worst-case bound of one expression. Total: every kind of node
    /// gets a bound, zero for the kinds outside the cost model.
    #[verifier::loop_isolation(false)]
    pub fn analyze(&self, expr: &Expr) -> (r: ResourceBounds)
        ensures
            r == analyze_spec(*expr),
        decreases *expr,
    {
        match expr {
            Expr::BoundedFor { start, end, body, .. } => {
                let mut b = self.analyze_sum_vec(body);
                b.multiply(iter_estimate(start, end));
                b
            },
            Expr::Let { bindings, body } => {
                let mut b = self.analyze_bindings_vec(bindings);
                let s = self.analyze_sum_vec(body);
                b.add(&s);
                b
            },
            Expr::If { condition, then_branch, else_branch } => {
                let mut b = self.analyze(condition);
                let t = self.analyze(then_branch);
                let f = self.analyze(else_branch);
                let mut m = t;
                m.max(&f);
                b.add(&m);
                b
            },
            Expr::FunctionCall { func, args } => {
                let base: u64 = match &**func {
                    Expr::Ident(name) => match op_cost(name.as_str()) {
                        Some(c) => COST_CALL_BASE.saturating_add(c),
                        None => COST_CALL_BASE,
                    },
                    _ => COST_CALL_BASE,
                };
                let mut b = ResourceBounds {
                    time_ms: base,
                    memory_bytes: 0,
                    network_bytes: 0,
                    storage_bytes: 0,
                };
                let s = self.analyze_sum_vec(args);
                b.add(&s);
                b
            },
            Expr::GpioSet { .. } => ResourceBounds {
                time_ms: COST_GPIO,
                memory_bytes: 0,
                network_bytes: 0,
                storage_bytes: 0,
            },
            Expr::GpioGet(_) => ResourceBounds {
                time_ms: COST_GPIO,
                memory_bytes: 0,
                network_bytes: 0,
                storage_bytes: 0,
            },
            Expr::SensorRead(_) => ResourceBounds {
                time_ms: COST_SENSOR,
                memory_bytes: 0,
                network_bytes: 0,
                storage_bytes: 0,
            },
            Expr::NetworkSend { .. } => ResourceBounds {
                time_ms: COST_NETWORK,
                memory_bytes: 0,
                network_bytes: NETWORK_SEND_BYTES,
                storage_bytes: 0,
            },
            Expr::SleepMs(m) => {
                let t: u64 = match &**m {
                    Expr::Int(n) => if *n >= 0 {
                        *n as u64
                    } else {
                        0
                    },
                    _ => UNKNOWN_SLEEP_MS,
                };
                ResourceBounds { time_ms: t, memory_bytes: 0, network_bytes: 0, storage_bytes: 0 }
            },
            Expr::ArrayGet { array, index } => {
                let mut b = self.analyze(array);
                let i = self.analyze(index);
                b.add(&i);
                b.add(
                    &(ResourceBounds {
                        time_ms: COST_ARRAY_ACCESS,
                        memory_bytes: 0,
                        network_bytes: 0,
                        storage_bytes: 0,
                    }),
                );
                b
            },
            Expr::ArraySet { array, index, value } => {
                let mut b = self.analyze(array);
                let i = self.analyze(index);
                b.add(&i);
                let v = self.analyze(value);
                b.add(&v);
                b.add(
                    &(ResourceBounds {
                        time_ms: COST_ARRAY_ACCESS,
                        memory_bytes: 0,
                        network_bytes: 0,
                        storage_bytes: 0,
                    }),
                );
                b
            },
            Expr::ArrayLiteral { size, .. } => {
                let m: u64 = match (*size as u64).checked_mul(ARRAY_ELEM_BYTES) {
                    Some(v) => v,
                    None => u64::MAX,
                };
                ResourceBounds { time_ms: 0, memory_bytes: m, network_bytes: 0, storage_bytes: 0 }
            },
            Expr::WithCapability { body, .. } => self.analyze_sum_vec(body),
            Expr::DefunDeploy { body, .. } => self.analyze_sum_vec(body),
            Expr::Int(_) => ResourceBounds {
                time_ms: 1,
                memory_bytes: 0,
                network_bytes: 0,
                storage_bytes: 0,
            },
            Expr::Float(_) => ResourceBounds {
                time_ms: 1,
                memory_bytes: 0,
                network_bytes: 0,
                storage_bytes: 0,
            },
            Expr::Bool(_) => ResourceBounds {
                time_ms: 1,
                memory_bytes: 0,
                network_bytes: 0,
                storage_bytes: 0,
            },
            Expr::String(_) => ResourceBounds {
                time_ms: 1,
                memory_bytes: 0,
                network_bytes: 0,
                storage_bytes: 0,
            },
            Expr::Ident(_) => ResourceBounds {
                time_ms: 1,
                memory_bytes: 0,
                network_bytes: 0,
                storage_bytes: 0,
            },
            _ => ResourceBounds::new(),
        }
    }

    /// The summed bound of a list of expressions.
    #[verifier::loop_isolation(false)]
    fn analyze_sum_vec(&self, es: &Vec<Expr>) -> (r: ResourceBounds)
        ensures
            r == analyze_sum(es@),
        decreases es@,
    {
        let mut acc = ResourceBounds::new();
        let n = es.len();
        assert(es@.take(0) =~= Seq::<Expr>::empty());
        for i in 0..n
            invariant
                n == es@.len(),
                acc == analyze_sum(es@.take(i as int)),
        {
            let b = self.analyze(&es[i]);
            acc.add(&b);
            proof {
                assert(es@.take(i + 1).drop_last() =~= es@.take(i as int));
                assert(es@.take(i + 1).last() == es@[i as int]);
            }
        }
        proof {
            assert(es@.take(n as int) =~= es@);
        }
        acc
    }

    /// The summed bound of the right-hand sides of a binding list.
    #[verifier::loop_isolation(false)]
    fn analyze_bindings_vec(&self, bs: &Vec<(String, Expr)>) -> (r: ResourceBounds)
        ensures
            r == analyze_bindings_sum(bs@),
        decreases bs@,
    {
        let mut acc = ResourceBounds::new();
        let n = bs.len();
        assert(bs@.take(0) =~= Seq::<(String, Expr)>::empty());
        for i in 0..n
            invariant
                n == bs@.len(),
                acc == analyze_bindings_sum(bs@.take(i as int)),
        {
            let b = self.analyze(&bs[i].1);
            acc.add(&b);
            proof {
                assert(bs@.take(i + 1).drop_last() =~= bs@.take(i as int));
                assert(bs@.take(i + 1).last() == bs@[i as int]);
            }
        }
        proof {
            assert(bs@.take(n as int) =~= bs@);
        }
        acc
    }

    /// The first declared resource budget among the top-level forms, looking
    /// through a program envelope; `None` when no budget is declared.
    #[verifier::loop_isolation(false)]
    pub fn extract_budget(exprs: &Vec<Expr>) -> (r: Option<ResourceBounds>)
        ensures
            r == extract_budget_spec(exprs@),
    {
        let n = exprs.len();
        assert(exprs@.skip(0) =~= exprs@);
        for i in 0..n
            invariant
                n == exprs@.len(),
                extract_budget_spec(exprs@) == extract_budget_spec(exprs@.skip(i as int)),
        {
            proof {
                assert(exprs@.skip(i as int).drop_first() =~= exprs@.skip(i + 1));
                assert(exprs@.skip(i as int)[0] == exprs@[i as int]);
            }
            match &exprs[i] {
                Expr::Program { budget, .. } => {
                    if let Expr::ResourceBudget { specs } = &**budget {
                        return Some(Self::specs_to_bounds(specs));
                    }
                },
                Expr::ResourceBudget { specs } => {
                    return Some(Self::specs_to_bounds(specs));
                },
                _ => {},
            }
        }
        proof {
            assert(exprs@.skip(n as int) =~= Seq::<Expr>::empty());
        }
        None
    }

    /// Fold a list of resource specifications into one bound; a later
    /// specification of the same kind overwrites an earlier one.
    #[verifier::loop_isolation(false)]
    pub fn specs_to_bounds(specs: &Vec<ResourceSpec>) -> (r: ResourceBounds)
        ensures
            r == specs_bounds(specs@),
    {
        let mut b = ResourceBounds::new();
        let n = specs.len();
        assert(specs@.take(0) =~= Seq::<ResourceSpec>::empty());
        for i in 0..n
            invariant
                n == specs@.len(),
                b == specs_bounds(specs@.take(i as int)),
        {
            match specs[i].kind {
                ResourceKind::TimeMs => {
                    b.time_ms = specs[i].amount;
                },
                ResourceKind::MemoryBytes => {
                    b.memory_bytes = specs[i].amount;
                },
                ResourceKind::NetworkBytes => {
                    b.network_bytes = specs[i].amount;
                },
                ResourceKind::StorageBytes => {
                    b.storage_bytes = specs[i].amount;
                },
            }
            proof {
                assert(specs@.take(i + 1).drop_last() =~= specs@.take(i as int));
                assert(specs@.take(i + 1).last() == specs@[i as int]);
            }
        }
        proof {
            assert(specs@.take(n as int) =~= specs@);
        }
        b
    }
}

/// What one resource specification writes into a bound.
pub open spec fn apply_resource_spec(b: ResourceBounds, s: ResourceSpec) -> ResourceBounds {
    match s.kind {
        ResourceKind::TimeMs => ResourceBounds { time_ms: s.amount, ..b },
        ResourceKind::MemoryBytes => ResourceBounds { memory_bytes: s.amount, ..b },
        ResourceKind::NetworkBytes => ResourceBounds { network_bytes: s.amount, ..b },
        ResourceKind::StorageBytes => ResourceBounds { storage_bytes: s.amount, ..b },
    }
}

/// The bound declared by a list of resource specifications, folded left to
/// right over the all-zero bound.
pub open spec fn specs_bounds(specs: Seq<ResourceSpec>) -> ResourceBounds
    decreases specs,
{
    if specs.len() == 0 {
        rb_zero()
    } else {
        apply_resource_spec(specs_bounds(specs.drop_last()), specs.last())
    }
}

/// The budget a single top-level form declares, if any.
pub open spec fn budget_of_form(e: Expr) -> Option<ResourceBounds> {
    match e {
        Expr::Program { budget, .. } => match *budget {
            Expr::ResourceBudget { specs } => Some(specs_bounds(specs@)),
            _ => None,
        },
        Expr::ResourceBudget { specs } => Some(specs_bounds(specs@)),
        _ => None,
    }
}

/// The first declared budget of a top-level sequence, if any.
pub open spec fn extract_budget_spec(exprs: Seq<Expr>) -> Option<ResourceBounds>
    decreases exprs,
{
    if exprs.len() == 0 {
        None
    } else if budget_of_form(exprs[0]) is Some {
        budget_of_form(exprs[0])
    } else {
        extract_budget_spec(exprs.drop_first())
    }
}

/// The bound of a bounded loop with literal bounds `s <= e` is the bound of
/// its summed body scaled by exactly `e - s` iterations.
pub proof fn lemma_bounded_for_scales(lp: Expr, s: i64, e: i64)
    requires
        lp matches Expr::BoundedFor { start, end, .. } && *start == Expr::Int(s) && *end
            == Expr::Int(e),
        s <= e,
    ensures
        analyze_spec(lp) == rb_scale(analyze_sum(lp->BoundedFor_body@), iter_count(s, e)),
        iter_count(s, e) == e - s,
{
}

/// The bound of a conditional is the bound of its condition plus the
/// componentwise maximum of the bounds of its two branches.
pub proof fn lemma_if_adds_branch_max(ife: Expr)
    requires
        ife is If,
    ensures
        analyze_spec(ife) == rb_add(
            analyze_spec(*ife->If_condition),
            rb_max(analyze_spec(*ife->If_then_branch), analyze_spec(*ife->If_else_branch)),
        ),
{
}

} // verus!
