//! The refinement driver: `theta' = update(theta, measure(simulate(theta)))`,
//! repeated until a stopping predicate holds or the iteration budget is spent.
use vstd::prelude::*;

verus! {

/// Placeholder parameter token for callers that keep their state elsewhere.
#[derive(Clone, Copy, Debug)]
pub struct Params {}

/// Placeholder simulation output.
#[derive(Clone, Copy, Debug)]
pub struct Data {}

/// Placeholder measurement.
#[derive(Clone, Copy, Debug)]
pub struct Metrics {}

/// `next` is a value that `update` may return for `theta` and metrics that
/// `measure` may return for data that `simulate` may return for `theta`.
pub open spec fn refine_step<P, D, M, Sim, Meas, Upd>(
    simulate: Sim,
    measure: Meas,
    update: Upd,
    theta: P,
    next: P,
) -> bool
    where
        Sim: Fn(&P) -> D,
        Meas: Fn(&D) -> M,
        Upd: Fn(&P, &M) -> P,
{
    exists|d: D, m: M|
        simulate.ensures((&theta,), d) && measure.ensures((&d,), m) && update.ensures((&theta, &m), next)
}

/// The stopping predicate may answer `answer` for the step from `theta` to `next`.
pub open spec fn stop_answer<P, Conv>(converged: Conv, theta: P, next: P, answer: bool) -> bool
    where
        Conv: Fn(&P, &P) -> bool,
{
    converged.ensures((&theta, &next), answer)
}

/// `trace` lists the parameters of a refinement run from `theta0`: each entry
/// follows from the previous one by one step, and the stopping predicate
/// rejected every step but possibly the last.
pub open spec fn is_refine_run<P, D, M, Sim, Meas, Upd, Conv>(
    simulate: Sim,
    measure: Meas,
    update: Upd,
    converged: Conv,
    theta0: P,
    trace: Seq<P>,
) -> bool
    where
        Sim: Fn(&P) -> D,
        Meas: Fn(&D) -> M,
        Upd: Fn(&P, &M) -> P,
        Conv: Fn(&P, &P) -> bool,
{
    &&& trace.len() >= 1
    &&& trace[0] == theta0
    &&& forall|i: int|
        0 <= i < trace.len() - 1 ==> #[trigger] refine_step(simulate, measure, update, trace[i], trace[i + 1])
    &&& forall|i: int| 0 <= i < trace.len() - 2 ==> #[trigger] stop_answer(converged, trace[i], trace[i + 1], false)
}

/// How a run ended: after `n = trace.len() - 1` steps, either the last step
/// satisfied the stopping predicate, or the budget of `max_iters` steps is spent
/// and no step satisfied it.
pub open spec fn refine_run_ends<P, Conv>(converged: Conv, trace: Seq<P>, max_iters: nat) -> bool
    where
        Conv: Fn(&P, &P) -> bool,
{
    let n = trace.len() - 1;
    &&& n <= max_iters
    &&& {
        ||| n >= 1 && stop_answer(converged, trace[n - 1], trace[n], true)
        ||| n == max_iters && (n == 0 || stop_answer(converged, trace[n - 1], trace[n], false))
    }
}

/// Deterministic refinement: runs at most `max_iters` steps
/// `theta_next = update(theta, measure(simulate(theta)))` and returns
/// `theta_next` as soon as `converged(theta, theta_next)` holds. When the
/// budget is spent it returns the last `theta` without any error.
pub fn refine_det<P, D, M, Sim, Meas, Upd, Conv>(
    theta0: P,
    simulate: Sim,
    measure: Meas,
    update: Upd,
    converged: Conv,
    max_iters: usize,
) -> (r: P)
    where
        Sim: Fn(&P) -> D,
        Meas: Fn(&D) -> M,
        Upd: Fn(&P, &M) -> P,
        Conv: Fn(&P, &P) -> bool,
    requires
        forall|p: &P| simulate.requires((p,)),
        forall|d: &D| measure.requires((d,)),
        forall|p: &P, m: &M| update.requires((p, m)),
        forall|p: &P, q: &P| converged.requires((p, q)),
    ensures
        exists|trace: Seq<P>|
            is_refine_run(simulate, measure, update, converged, theta0, trace)
                && refine_run_ends(converged, trace, max_iters as nat)
                && r == trace.last(),
{
    let ghost theta_init = theta0;
    let mut theta = theta0;
    let ghost mut trace: Seq<P> = seq![theta0];
    let mut i: usize = 0;
    while i < max_iters
        invariant
            forall|p: &P| simulate.requires((p,)),
            forall|d: &D| measure.requires((d,)),
            forall|p: &P, m: &M| update.requires((p, m)),
            forall|p: &P, q: &P| converged.requires((p, q)),
            i <= max_iters,
            trace.len() == i + 1,
            trace.last() == theta,
            trace[0] == theta_init,
            theta_init == theta0,
            forall|k: int|
                0 <= k < trace.len() - 1 ==> #[trigger] refine_step(simulate, measure, update, trace[k], trace[k + 1]),
            forall|k: int| 0 <= k < trace.len() - 1 ==> #[trigger] stop_answer(converged, trace[k], trace[k + 1], false),
        decreases max_iters - i,
    {
        let data = simulate(&theta);
        let pi = measure(&data);
        let next = update(&theta, &pi);
        let done = converged(&theta, &next);
        proof {
            let old_trace = trace;
            trace = trace.push(next);
            assert(stop_answer(converged, theta, next, done));
            assert(refine_step(simulate, measure, update, old_trace.last(), next));
            assert forall|k: int|
                0 <= k < trace.len() - 1 implies #[trigger] refine_step(simulate, measure, update, trace[k], trace[k + 1]) by {
                if k < old_trace.len() - 1 {
                    assert(trace[k] == old_trace[k] && trace[k + 1] == old_trace[k + 1]);
                }
            }
        }
        if done {
            proof {
                assert(trace[trace.len() - 2] == theta && trace[trace.len() - 1] == next);
                assert(stop_answer(converged, theta, next, true));
                assert(is_refine_run(simulate, measure, update, converged, theta_init, trace));
                assert(refine_run_ends(converged, trace, max_iters as nat));
                assert(next == trace.last());
            }
            return next;
        }
        theta = next;
        i = i + 1;
    }
    proof {
        let n = trace.len() - 1;
        if n > 0 {
            assert(stop_answer(converged, trace[n - 1], trace[(n - 1) + 1], false));
        }
        assert(is_refine_run(simulate, measure, update, converged, theta_init, trace));
        assert(refine_run_ends(converged, trace, max_iters as nat));
    }
    theta
}

} // verus!
