// Hook composition, the outer orchestrator and the one-shot hook rule.
use std::cell::{Cell, RefCell};

use game_balance::idle::{IdleGenreConfig, IdleGenreHooks};
use game_balance::{
    Adjustment, Hook, Outcome, balance_with_hooks, refine_det, run_with_one_shot_hooks, run_with_outer_iters,
};
use game_balance::{Data, Metrics, Params};

#[derive(Clone, Copy, Debug, PartialEq)]
struct Adjust3 {
    a: f64,
    b: f64,
    c: f64,
}

fn times(x: Adjust3, next: Adjust3) -> Adjust3 {
    Adjust3 {
        a: x.a * next.a.max(0.0),
        b: x.b * next.b.max(0.0),
        c: x.c * next.c.max(0.0),
    }
}

impl Adjustment for Adjust3 {
    fn id_spec() -> Self {
        Adjust3 { a: 1.0, b: 1.0, c: 1.0 }
    }
    fn compose_spec(self, next: Self) -> Self {
        times(self, next)
    }
    fn identity() -> Self {
        Adjust3 { a: 1.0, b: 1.0, c: 1.0 }
    }
    fn compose(self, next: Self) -> Self {
        times(self, next)
    }
}

// A hook with every capability left at its default.
struct Plain;
impl Hook<(), (), (), u32, (), Adjust3> for Plain {}

// A hook with a fixed correction.
struct Fixed {
    adj: Adjust3,
}
impl Hook<(), (), (), u32, (), Adjust3> for Fixed {
    fn adjust_targets(&mut self, _theta: &(), _env: &(), _tgt: &(), _nom: &()) -> Adjust3 {
        self.adj
    }
}

// Runs one harness iteration with `hooks` and hands back the correction that
// reached the step function.
fn compose_all<H: Hook<(), (), (), u32, (), Adjust3>>(hooks: Vec<H>) -> Adjust3 {
    let got = RefCell::new(Vec::new());
    let out = balance_with_hooks(
        (),
        (),
        (),
        (),
        (),
        hooks,
        1,
        |_t: &(), _e: &(), _g: &(), _h: &[H]| 5u32,
        |_t: &(), _e: &(), _g: &(), _o: &u32| (),
        |_t: &(), _b: &(), _k: &(), _n: (), adj: Adjust3| got.borrow_mut().push(adj),
        |_o: &u32, _g: &()| true,
    );
    assert!(out.converged);
    assert_eq!(out.iters, 1);
    assert_eq!(out.obs, 5);
    let got = got.borrow();
    assert_eq!(got.len(), 1);
    got[0]
}

#[test]
fn default_hooks_compose_to_identity() {
    assert_eq!(compose_all(vec![Plain, Plain, Plain]), Adjust3 { a: 1.0, b: 1.0, c: 1.0 });
    let none: Vec<Plain> = Vec::new();
    assert_eq!(compose_all(none), Adjust3 { a: 1.0, b: 1.0, c: 1.0 });
}

#[test]
fn composition_ignores_registration_order() {
    let x = Adjust3 { a: 2.0, b: 0.5, c: 3.0 };
    let y = Adjust3 { a: 1.5, b: 4.0, c: 1.25 };
    let r1 = compose_all(vec![Fixed { adj: x }, Fixed { adj: y }]);
    let r2 = compose_all(vec![Fixed { adj: y }, Fixed { adj: x }]);
    assert_eq!(r1, r2);
    assert_eq!(r1, Adjust3 { a: 3.0, b: 2.0, c: 3.75 });
}

#[test]
fn negative_corrections_clamp_to_zero() {
    let hooks = vec![
        Fixed { adj: Adjust3 { a: -2.0, b: 2.0, c: 1.0 } },
        Fixed { adj: Adjust3 { a: 3.0, b: -0.5, c: 1.0 } },
    ];
    assert_eq!(compose_all(hooks), Adjust3 { a: 0.0, b: 0.0, c: 1.0 });
}

// A hook that logs, under its tag, every call it receives.
struct Logger<'a> {
    tag: u32,
    log: &'a RefCell<Vec<(u32, &'static str, u32)>>,
}
impl<'a> Hook<u32, (), (), u32, (), Adjust3> for Logger<'a> {
    fn on_observe(&mut self, obs: &u32, _theta: &u32, _env: &(), _tgt: &()) {
        self.log.borrow_mut().push((self.tag, "observe", *obs));
    }
    fn adjust_targets(&mut self, _theta: &u32, _env: &(), _tgt: &(), _nom: &()) -> Adjust3 {
        self.log.borrow_mut().push((self.tag, "adjust", 0));
        Adjust3::identity()
    }
}

#[test]
fn hooks_are_called_once_per_iteration_in_order() {
    let log = RefCell::new(Vec::new());
    let hooks = vec![Logger { tag: 1, log: &log }, Logger { tag: 2, log: &log }];
    let out = balance_with_hooks(
        0u32,
        (),
        (),
        (),
        (),
        hooks,
        2,
        |t: &u32, _e: &(), _g: &(), _h: &[Logger<'_>]| *t + 10,
        |_t: &u32, _e: &(), _g: &(), _o: &u32| (),
        |t: &u32, _b: &(), _k: &(), _n: (), _a: Adjust3| *t + 1,
        |_o: &u32, _g: &()| false,
    );
    assert_eq!(out.iters, 2);
    assert!(!out.converged);
    assert_eq!(out.theta, 2);
    assert_eq!(out.obs, 11);
    assert_eq!(
        *log.borrow(),
        vec![
            (1, "observe", 10),
            (2, "observe", 10),
            (1, "adjust", 0),
            (2, "adjust", 0),
            (1, "observe", 11),
            (2, "observe", 11),
            (1, "adjust", 0),
            (2, "adjust", 0),
        ]
    );
}

fn outcome(tag: usize, converged: bool) -> Outcome<usize, usize> {
    Outcome { theta: tag, obs: tag * 10, iters: 1, converged }
}

#[test]
fn outer_loop_calls_step_exactly_n_times() {
    let calls = Cell::new(0usize);
    let (last, outs) = run_with_outer_iters(100u64, 5, |s: u64| {
        calls.set(calls.get() + 1);
        // Every inner outcome reports convergence; the loop must still go on.
        (s + 1, outcome(s as usize, true))
    });
    assert_eq!(calls.get(), 5);
    assert_eq!(last, 105);
    assert_eq!(outs.len(), 5);
    for (i, o) in outs.iter().enumerate() {
        assert_eq!(o.theta, 100 + i);
        assert!(o.converged);
    }
}

#[test]
fn outer_loop_does_not_retry_unconverged_passes() {
    let calls = Cell::new(0usize);
    let (last, outs) = run_with_outer_iters(0u64, 3, |s: u64| {
        calls.set(calls.get() + 1);
        (s + 2, outcome(s as usize, false))
    });
    assert_eq!(calls.get(), 3);
    assert_eq!(last, 6);
    assert_eq!(outs.len(), 3);
    let (same, none) = run_with_outer_iters(7u64, 0, |s: u64| (s + 1, outcome(0, false)));
    assert_eq!(same, 7);
    assert!(none.is_empty());
}

#[test]
fn hooks_reach_only_the_first_pass() {
    let sizes = RefCell::new(Vec::new());
    let (last, outs) = run_with_one_shot_hooks(0u64, 3, vec![7u32, 8u32], |s: u64, hooks: Vec<u32>| {
        sizes.borrow_mut().push(hooks.len());
        let boost: u32 = hooks.iter().sum();
        (s + 1, outcome(boost as usize, true))
    });
    assert_eq!(last, 3);
    assert_eq!(*sizes.borrow(), vec![2, 0, 0]);
    // Pass 0 shows the hooks' effect; later passes reproduce the hook-free baseline.
    assert_eq!(outs[0].theta, 15);
    assert_eq!(outs[1].theta, 0);
    assert_eq!(outs[2].theta, 0);
}

#[test]
fn idle_config_defaults() {
    let cfg = IdleGenreConfig::default();
    assert_eq!(cfg.max_iters_per_system, 120_000);
    assert_eq!(cfg.outer_iters, 2);
    let hooks: IdleGenreHooks<u32> = IdleGenreHooks::default();
    assert!(hooks.core_mechs.is_empty());
}

#[test]
fn refine_stops_at_first_accepted_step() {
    let calls = Cell::new(0usize);
    let r = refine_det(
        0i64,
        |t: &i64| *t,
        |d: &i64| *d,
        |t: &i64, _m: &i64| {
            calls.set(calls.get() + 1);
            *t + 3
        },
        |_a: &i64, b: &i64| *b >= 9,
        100,
    );
    assert_eq!(r, 9);
    assert_eq!(calls.get(), 3);
}

#[test]
fn refine_budget_spent_returns_last_theta() {
    let r = refine_det(1i64, |t: &i64| *t, |d: &i64| *d, |t: &i64, _m: &i64| *t * 2, |_a: &i64, _b: &i64| false, 4);
    assert_eq!(r, 16);
    let r0 = refine_det(5i64, |t: &i64| *t, |d: &i64| *d, |t: &i64, _m: &i64| *t * 2, |_a: &i64, _b: &i64| true, 0);
    assert_eq!(r0, 5);
}

#[test]
fn refine_accepts_placeholder_tokens() {
    let steps = Cell::new(0u32);
    let _ = refine_det(
        Params {},
        |_t: &Params| Data {},
        |_d: &Data| Metrics {},
        |_t: &Params, _m: &Metrics| {
            steps.set(steps.get() + 1);
            Params {}
        },
        |_a: &Params, _b: &Params| false,
        7,
    );
    assert_eq!(steps.get(), 7);
}
