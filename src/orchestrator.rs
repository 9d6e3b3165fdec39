//! The outer orchestrator: a fixed number of passes, each running one or more
//! harness calls and handing a shared signal on to the next pass.
use vstd::prelude::*;
use crate::harness::Outcome;

verus! {

/// One pass's result as the outer loop threads it.
#[derive(Clone, Debug)]
pub struct Step<TParams, TObs, S> {
    pub outcome: Outcome<TParams, TObs>,
    pub signals: S,
}

/// `trace` lists the signals of a run of `outs.len()` passes from `signals0`:
/// pass `i` may map `trace[i]` to `trace[i + 1]` and outcome `outs[i]`.
pub open spec fn is_pass_run<F, S, TParams, TObs>(
    step: F,
    signals0: S,
    trace: Seq<S>,
    outs: Seq<Outcome<TParams, TObs>>,
) -> bool
    where
        F: Fn(S) -> (S, Outcome<TParams, TObs>),
{
    &&& trace.len() == outs.len() + 1
    &&& trace[0] == signals0
    &&& forall|i: int| 0 <= i < outs.len() ==> #[trigger] step.ensures((trace[i],), (trace[i + 1], outs[i]))
}

/// Calls `step` exactly `outer_iters` times, in sequence, each time on the
/// signals that the previous call returned. It never stops early and never
/// retries, whatever the outcomes report. Returns the last signals and the
/// outcomes in pass order.
pub fn run_with_outer_iters<F, S, TParams, TObs>(
    signals: S,
    outer_iters: usize,
    step: F,
) -> (r: (S, Vec<Outcome<TParams, TObs>>))
    where
        F: Fn(S) -> (S, Outcome<TParams, TObs>),
    requires
        forall|s: S| step.requires((s,)),
    ensures
        r.1@.len() == outer_iters,
        exists|trace: Seq<S>| is_pass_run(step, signals, trace, r.1@) && r.0 == trace.last(),
{
    let ghost signals0 = signals;
    let mut signals = signals;
    let mut outs: Vec<Outcome<TParams, TObs>> = Vec::new();
    let ghost mut trace: Seq<S> = seq![signals];
    let mut i: usize = 0;
    while i < outer_iters
        invariant
            forall|s: S| step.requires((s,)),
            i <= outer_iters,
            outs@.len() == i,
            is_pass_run(step, signals0, trace, outs@),
            trace.last() == signals,
        decreases outer_iters - i,
    {
        let (s2, out) = step(signals);
        proof {
            let old_trace = trace;
            let old_outs = outs@;
            trace = trace.push(s2);
            assert forall|k: int| 0 <= k < old_outs.len() + 1 implies #[trigger] step.ensures(
                (trace[k],),
                (trace[k + 1], old_outs.push(out)[k]),
            ) by {
                if k < old_outs.len() {
                    assert(trace[k] == old_trace[k] && trace[k + 1] == old_trace[k + 1]);
                }
            }
        }
        signals = s2;
        outs.push(out);
        i = i + 1;
    }
    (signals, outs)
}

/// Empties `slot` and hands out what it held: the hooks on the first call,
/// an empty list on every later one.
pub fn take_once<H>(slot: &mut Option<Vec<H>>) -> (hooks: Vec<H>)
    ensures
        final(slot).is_none(),
        old(slot).is_some() ==> hooks == old(slot).unwrap(),
        old(slot).is_none() ==> hooks@.len() == 0,
{
    match slot.take() {
        Some(hs) => hs,
        None => Vec::new(),
    }
}

/// `trace` and `given` record a run of `outs.len()` passes from `signals0`:
/// pass `i` was handed the signals `trace[i]` and the hook list `given[i]` and
/// may have returned `trace[i + 1]` and `outs[i]`.
pub open spec fn is_hooked_pass_run<F, S, H, TParams, TObs>(
    step: F,
    signals0: S,
    trace: Seq<S>,
    given: Seq<Vec<H>>,
    outs: Seq<Outcome<TParams, TObs>>,
) -> bool
    where
        F: Fn(S, Vec<H>) -> (S, Outcome<TParams, TObs>),
{
    &&& trace.len() == outs.len() + 1
    &&& given.len() == outs.len()
    &&& trace[0] == signals0
    &&& forall|i: int|
        0 <= i < outs.len() ==> #[trigger] step.ensures((trace[i], given[i]), (trace[i + 1], outs[i]))
}

/// Runs `outer_iters` passes like `run_with_outer_iters`, and hands the
/// caller's hooks to the first pass only: hook instances need not be
/// duplicable, so they are consumed once and every later pass runs with an
/// empty hook list.
pub fn run_with_one_shot_hooks<F, S, H, TParams, TObs>(
    signals: S,
    outer_iters: usize,
    hooks: Vec<H>,
    step: F,
) -> (r: (S, Vec<Outcome<TParams, TObs>>))
    where
        F: Fn(S, Vec<H>) -> (S, Outcome<TParams, TObs>),
    requires
        forall|s: S, h: Vec<H>| step.requires((s, h)),
    ensures
        r.1@.len() == outer_iters,
        exists|trace: Seq<S>, given: Seq<Vec<H>>|
            is_hooked_pass_run(step, signals, trace, given, r.1@) && r.0 == trace.last() && (outer_iters
                >= 1 ==> given[0] == hooks) && forall|i: int|
                1 <= i < given.len() ==> (#[trigger] given[i])@.len() == 0,
{
    let ghost signals0 = signals;
    let ghost hooks0 = hooks;
    let mut slot: Option<Vec<H>> = Some(hooks);
    let mut signals = signals;
    let mut outs: Vec<Outcome<TParams, TObs>> = Vec::new();
    let ghost mut trace: Seq<S> = seq![signals];
    let ghost mut given: Seq<Vec<H>> = Seq::empty();
    let mut i: usize = 0;
    while i < outer_iters
        invariant
            forall|s: S, h: Vec<H>| step.requires((s, h)),
            i <= outer_iters,
            outs@.len() == i,
            is_hooked_pass_run(step, signals0, trace, given, outs@),
            trace.last() == signals,
            i == 0 ==> slot == Some(hooks0),
            i >= 1 ==> slot.is_none() && given[0] == hooks0,
            forall|k: int| 1 <= k < given.len() ==> (#[trigger] given[k])@.len() == 0,
        decreases outer_iters - i,
    {
        let hs = take_once(&mut slot);
        let ghost hs_given = hs;
        let (s2, out) = step(signals, hs);
        proof {
            let old_trace = trace;
            let old_given = given;
            let old_outs = outs@;
            trace = trace.push(s2);
            given = given.push(hs_given);
            assert forall|k: int| 0 <= k < old_outs.len() + 1 implies #[trigger] step.ensures(
                (trace[k], given[k]),
                (trace[k + 1], old_outs.push(out)[k]),
            ) by {
                if k < old_outs.len() {
                    assert(trace[k] == old_trace[k] && trace[k + 1] == old_trace[k + 1] && given[k] == old_given[k]);
                }
            }
        }
        signals = s2;
        outs.push(out);
        i = i + 1;
    }
    (signals, outs)
}

/// One-shot hooks: in a run of `run_with_one_shot_hooks` whose pass function
/// answers deterministically when handed no hooks, every pass after the first
/// reproduces the hook-free baseline: it returns exactly what the pass
/// function returns for the same signals and an empty hook list.
pub proof fn lemma_later_passes_reproduce_baseline<F, S, H, TParams, TObs>(
    step: F,
    signals0: S,
    trace: Seq<S>,
    given: Seq<Vec<H>>,
    outs: Seq<Outcome<TParams, TObs>>,
    i: int,
    empty: Vec<H>,
    baseline: (S, Outcome<TParams, TObs>),
)
    where
        F: Fn(S, Vec<H>) -> (S, Outcome<TParams, TObs>),
    requires
        is_hooked_pass_run(step, signals0, trace, given, outs),
        forall|k: int| 1 <= k < given.len() ==> (#[trigger] given[k])@.len() == 0,
        forall|s: S, h1: Vec<H>, h2: Vec<H>, r1: (S, Outcome<TParams, TObs>), r2: (S, Outcome<TParams, TObs>)|
            h1@.len() == 0 && h2@.len() == 0 && #[trigger] step.ensures((s, h1), r1) && #[trigger] step.ensures(
                (s, h2),
                r2,
            ) ==> r1 == r2,
        1 <= i < outs.len(),
        empty@.len() == 0,
        step.ensures((trace[i], empty), baseline),
    ensures
        outs[i] == baseline.1,
        trace[i + 1] == baseline.0,
{
    assert(step.ensures((trace[i], given[i]), (trace[i + 1], outs[i])));
    assert(given[i]@.len() == 0);
}

} // verus!
