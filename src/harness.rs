//! The balance harness: binds one concrete system's four functions, its
//! bounds, gains, targets and hooks to a bounded refinement loop.
use vstd::prelude::*;
use crate::hooks::{
    Adjustment, Hook, compose_adjustments, compose_commutes, fold_adjust, lemma_fold_ignores_order, observe_all,
};

verus! {

/// What a harness run hands back: the last parameters and observation, how
/// many iterations ran, and whether the last one met the convergence band.
#[derive(Clone, Debug)]
pub struct Outcome<TParams, Obs> {
    pub theta: TParams,
    pub obs: Obs,
    pub iters: usize,
    pub converged: bool,
}

/// `simulate` may return `obs` for `theta` when handed the hooks `hooks`.
pub open spec fn simulated<TParams, Env, Tgt, Obs, H, Sim>(
    simulate: Sim,
    env: Env,
    tgt: Tgt,
    theta: TParams,
    hooks: Seq<H>,
    obs: Obs,
) -> bool
    where
        Sim: Fn(&TParams, &Env, &Tgt, &[H]) -> Obs,
{
    exists|h: &[H]| h@ == hooks && simulate.ensures((&theta, &env, &tgt, h), obs)
}

/// One harness iteration may lead from `theta`, with the hooks `hooks` as they
/// stand when it starts, to `next`: `simulate`, handed those hooks to read
/// (e.g. for an income multiplier), observes `obs`; `nominal` turns the observation into the goals `nom`; the
/// hooks, asked in registration order, answer `answers`, one answer per hook;
/// and `step` moves `theta` to `next` for `nom` and the composition of the
/// answers. With no hooks, `step` gets the identity correction.
pub open spec fn harness_step<TParams, Env, Tgt, Bnd, G, Obs, Nom, Adj, H, Sim, NomF, StepF>(
    simulate: Sim,
    nominal: NomF,
    step: StepF,
    env: Env,
    tgt: Tgt,
    bnd: Bnd,
    gains: G,
    theta: TParams,
    hooks: Seq<H>,
    obs: Obs,
    nom: Nom,
    answers: Seq<Adj>,
    next: TParams,
) -> bool
    where
        Adj: Adjustment,
        Sim: Fn(&TParams, &Env, &Tgt, &[H]) -> Obs,
        NomF: Fn(&TParams, &Env, &Tgt, &Obs) -> Nom,
        StepF: Fn(&TParams, &Bnd, &G, Nom, Adj) -> TParams,
{
    &&& simulated(simulate, env, tgt, theta, hooks, obs)
    &&& nominal.ensures((&theta, &env, &tgt, &obs), nom)
    &&& answers.len() == hooks.len()
    &&& step.ensures((&theta, &bnd, &gains, nom, fold_adjust(answers)), next)
}

/// The convergence test may answer `answer` for `obs`.
pub open spec fn band_answer<Obs, Tgt, ConvF>(converged: ConvF, obs: Obs, tgt: Tgt, answer: bool) -> bool
    where
        ConvF: Fn(&Obs, &Tgt) -> bool,
{
    converged.ensures((&obs, &tgt), answer)
}

/// The record of a harness run from `theta0` with the caller's hooks
/// `hooks0`. Iteration `i` starts at `thetas[i]` with the hooks as they stand
/// then, `hooks_in[i]` (the caller's hooks for the first iteration, the same
/// hooks as the previous iteration's calls left them for the others); it
/// observes `obs[i]`, aims at `noms[i]`, gets the hooks' answers `answers[i]`
/// (one per caller hook) and steps to `thetas[i + 1]`. Every observation but
/// possibly the last was outside the convergence band.
pub open spec fn is_balance_run<TParams, Env, Tgt, Bnd, G, Obs, Nom, Adj, H, Sim, NomF, StepF, ConvF>(
    simulate: Sim,
    nominal: NomF,
    step: StepF,
    converged: ConvF,
    env: Env,
    tgt: Tgt,
    bnd: Bnd,
    gains: G,
    theta0: TParams,
    hooks0: Seq<H>,
    thetas: Seq<TParams>,
    hooks_in: Seq<Seq<H>>,
    obs: Seq<Obs>,
    noms: Seq<Nom>,
    answers: Seq<Seq<Adj>>,
) -> bool
    where
        Adj: Adjustment,
        Sim: Fn(&TParams, &Env, &Tgt, &[H]) -> Obs,
        NomF: Fn(&TParams, &Env, &Tgt, &Obs) -> Nom,
        StepF: Fn(&TParams, &Bnd, &G, Nom, Adj) -> TParams,
        ConvF: Fn(&Obs, &Tgt) -> bool,
{
    &&& thetas.len() == obs.len() + 1
    &&& hooks_in.len() == obs.len()
    &&& noms.len() == obs.len()
    &&& answers.len() == obs.len()
    &&& thetas[0] == theta0
    &&& obs.len() > 0 ==> hooks_in[0] == hooks0
    &&& forall|i: int| 0 <= i < obs.len() ==> (#[trigger] hooks_in[i]).len() == hooks0.len()
    &&& forall|i: int|
        0 <= i < obs.len() ==> #[trigger] harness_step::<TParams, Env, Tgt, Bnd, G, Obs, Nom, Adj, H, Sim, NomF, StepF>(
            simulate,
            nominal,
            step,
            env,
            tgt,
            bnd,
            gains,
            thetas[i],
            hooks_in[i],
            obs[i],
            noms[i],
            answers[i],
            thetas[i + 1],
        )
    &&& forall|i: int| 0 <= i < obs.len() - 1 ==> #[trigger] band_answer(converged, obs[i], tgt, false)
}

/// Runs the harness loop for at most `max_iters` iterations. Iteration `i`
/// simulates the current parameters with the caller's hooks (hooks may
/// modulate the simulation), shows the observation to every hook, derives the
/// nominal goals, composes the hooks' corrections in registration order from
/// the identity, steps the parameters, and tests the observation against the
/// convergence band; a hit ends the run. Running out of iterations is no
/// error: the outcome then reports `converged == false`. With a zero budget
/// nothing is called and the outcome holds `theta0` and `Obs::default()`.
pub fn balance_with_hooks<TParams, Env, Tgt, Bnd, G, Obs, Nom, Adj, H, Sim, NomF, StepF, ConvF>(
    theta0: TParams,
    env: Env,
    tgt: Tgt,
    bnd: Bnd,
    gains: G,
    hooks: Vec<H>,
    max_iters: usize,
    simulate: Sim,
    nominal: NomF,
    step: StepF,
    converged: ConvF,
) -> (out: Outcome<TParams, Obs>)
    where
        Obs: Default,
        Adj: Adjustment,
        H: Hook<TParams, Env, Tgt, Obs, Nom, Adj>,
        Sim: Fn(&TParams, &Env, &Tgt, &[H]) -> Obs,
        NomF: Fn(&TParams, &Env, &Tgt, &Obs) -> Nom,
        StepF: Fn(&TParams, &Bnd, &G, Nom, Adj) -> TParams,
        ConvF: Fn(&Obs, &Tgt) -> bool,
    requires
        forall|t: &TParams, e: &Env, g: &Tgt, h: &[H]| simulate.requires((t, e, g, h)),
        forall|t: &TParams, e: &Env, g: &Tgt, o: &Obs| nominal.requires((t, e, g, o)),
        forall|t: &TParams, b: &Bnd, k: &G, n: Nom, a: Adj| step.requires((t, b, k, n, a)),
        forall|o: &Obs, g: &Tgt| converged.requires((o, g)),
    ensures
        out.iters <= max_iters,
        out.converged ==> out.iters >= 1,
        !out.converged ==> out.iters == max_iters,
        out.iters == 0 ==> call_ensures(Obs::default, (), out.obs),
        exists|thetas: Seq<TParams>, hooks_in: Seq<Seq<H>>, obs: Seq<Obs>, noms: Seq<Nom>, answers: Seq<Seq<Adj>>|
            #[trigger] is_balance_run(
                simulate,
                nominal,
                step,
                converged,
                env,
                tgt,
                bnd,
                gains,
                theta0,
                hooks@,
                thetas,
                hooks_in,
                obs,
                noms,
                answers,
            ) && obs.len() == out.iters && out.theta == thetas.last() && (out.iters >= 1 ==> out.obs
                == obs.last() && band_answer(converged, obs.last(), tgt, out.converged)),
{
    let ghost theta_init = theta0;
    let ghost hooks_init = hooks@;
    let mut hooks = hooks;
    let mut theta = theta0;
    let mut last_obs = Obs::default();
    let mut iters: usize = 0;
    let mut done = false;
    let ghost mut thetas: Seq<TParams> = seq![theta0];
    let ghost mut hooks_in: Seq<Seq<H>> = Seq::empty();
    let ghost mut seen: Seq<Obs> = Seq::empty();
    let ghost mut noms: Seq<Nom> = Seq::empty();
    let ghost mut answers: Seq<Seq<Adj>> = Seq::empty();
    while iters < max_iters && !done
        invariant
            forall|t: &TParams, e: &Env, g: &Tgt, h: &[H]| simulate.requires((t, e, g, h)),
            forall|t: &TParams, e: &Env, g: &Tgt, o: &Obs| nominal.requires((t, e, g, o)),
            forall|t: &TParams, b: &Bnd, k: &G, n: Nom, a: Adj| step.requires((t, b, k, n, a)),
            forall|o: &Obs, g: &Tgt| converged.requires((o, g)),
            theta_init == theta0,
            iters <= max_iters,
            done ==> iters >= 1,
            iters == 0 ==> call_ensures(Obs::default, (), last_obs),
            iters == 0 ==> hooks@ == hooks_init,
            hooks@.len() == hooks_init.len(),
            thetas.len() == seen.len() + 1,
            hooks_in.len() == seen.len(),
            noms.len() == seen.len(),
            answers.len() == seen.len(),
            seen.len() == iters,
            thetas[0] == theta_init,
            seen.len() > 0 ==> hooks_in[0] == hooks_init,
            thetas.last() == theta,
            iters >= 1 ==> last_obs == seen.last() && band_answer(converged, seen.last(), tgt, done),
            forall|i: int| 0 <= i < seen.len() ==> (#[trigger] hooks_in[i]).len() == hooks_init.len(),
            forall|i: int|
                0 <= i < seen.len() ==> #[trigger] harness_step::<TParams, Env, Tgt, Bnd, G, Obs, Nom, Adj, H, Sim, NomF, StepF>(
                    simulate,
                    nominal,
                    step,
                    env,
                    tgt,
                    bnd,
                    gains,
                    thetas[i],
                    hooks_in[i],
                    seen[i],
                    noms[i],
                    answers[i],
                    thetas[i + 1],
                ),
            forall|i: int| 0 <= i < seen.len() - 1 ==> #[trigger] band_answer(converged, seen[i], tgt, false),
        decreases max_iters - iters,
    {
        let ghost h_before = hooks@;
        let o = simulate(&theta, &env, &tgt, hooks.as_slice());
        assert(simulated::<TParams, Env, Tgt, Obs, H, Sim>(simulate, env, tgt, theta, h_before, o));
        observe_all::<TParams, Env, Tgt, Obs, Nom, Adj, H>(&mut hooks, &o, &theta, &env, &tgt);
        let nom = nominal(&theta, &env, &tgt, &o);
        let ghost nom_g = nom;
        let (adj, said) = compose_adjustments::<TParams, Env, Tgt, Obs, Nom, Adj, H>(
            &mut hooks,
            &theta,
            &env,
            &tgt,
            &nom,
        );
        let next = step(&theta, &bnd, &gains, nom, adj);
        let ok = converged(&o, &tgt);
        proof {
            let old_thetas = thetas;
            let old_in = hooks_in;
            let old_seen = seen;
            let old_noms = noms;
            let old_answers = answers;
            assert(harness_step::<TParams, Env, Tgt, Bnd, G, Obs, Nom, Adj, H, Sim, NomF, StepF>(
                simulate,
                nominal,
                step,
                env,
                tgt,
                bnd,
                gains,
                theta,
                h_before,
                o,
                nom_g,
                said@,
                next,
            ));
            thetas = thetas.push(next);
            hooks_in = hooks_in.push(h_before);
            seen = seen.push(o);
            noms = noms.push(nom_g);
            answers = answers.push(said@);
            assert forall|i: int| 0 <= i < seen.len() implies #[trigger] harness_step::<TParams, Env, Tgt, Bnd, G, Obs, Nom, Adj, H, Sim, NomF, StepF>(
                simulate,
                nominal,
                step,
                env,
                tgt,
                bnd,
                gains,
                thetas[i],
                hooks_in[i],
                seen[i],
                noms[i],
                answers[i],
                thetas[i + 1],
            ) by {
                if i < old_seen.len() {
                    assert(thetas[i] == old_thetas[i] && thetas[i + 1] == old_thetas[i + 1]);
                    assert(hooks_in[i] == old_in[i] && seen[i] == old_seen[i]);
                    assert(noms[i] == old_noms[i] && answers[i] == old_answers[i]);
                }
            }
            assert forall|i: int| 0 <= i < seen.len() implies (#[trigger] hooks_in[i]).len() == hooks_init.len() by {
                if i < old_seen.len() {
                    assert(hooks_in[i] == old_in[i]);
                }
            }
            assert forall|i: int| 0 <= i < seen.len() - 1 implies #[trigger] band_answer(converged, seen[i], tgt, false) by {
                assert(seen[i] == old_seen[i]);
                if i == old_seen.len() - 1 {
                    assert(!done);
                }
            }
        }
        theta = next;
        last_obs = o;
        iters = iters + 1;
        done = ok;
    }
    proof {
        assert(is_balance_run(
            simulate,
            nominal,
            step,
            converged,
            env,
            tgt,
            bnd,
            gains,
            theta0,
            hooks_init,
            thetas,
            hooks_in,
            seen,
            noms,
            answers,
        ));
    }
    Outcome { theta, obs: last_obs, iters, converged: done }
}

/// Clamping invariant: when the initial parameters lie within the bounds and
/// the step function returns, for these bounds, only parameters within them,
/// then every parameter value of a harness run lies within the bounds.
pub proof fn lemma_run_stays_within_bounds<TParams, Env, Tgt, Bnd, G, Obs, Nom, Adj, H, Sim, NomF, StepF, ConvF>(
    simulate: Sim,
    nominal: NomF,
    step: StepF,
    converged: ConvF,
    env: Env,
    tgt: Tgt,
    bnd: Bnd,
    gains: G,
    theta0: TParams,
    hooks0: Seq<H>,
    thetas: Seq<TParams>,
    hooks_in: Seq<Seq<H>>,
    obs: Seq<Obs>,
    noms: Seq<Nom>,
    answers: Seq<Seq<Adj>>,
    within: spec_fn(TParams, Bnd) -> bool,
)
    where
        Adj: Adjustment,
        Sim: Fn(&TParams, &Env, &Tgt, &[H]) -> Obs,
        NomF: Fn(&TParams, &Env, &Tgt, &Obs) -> Nom,
        StepF: Fn(&TParams, &Bnd, &G, Nom, Adj) -> TParams,
        ConvF: Fn(&Obs, &Tgt) -> bool,
    requires
        is_balance_run(
            simulate,
            nominal,
            step,
            converged,
            env,
            tgt,
            bnd,
            gains,
            theta0,
            hooks0,
            thetas,
            hooks_in,
            obs,
            noms,
            answers,
        ),
        within(theta0, bnd),
        forall|t: &TParams, k: &G, n: Nom, a: Adj, r: TParams|
            step.ensures((t, &bnd, k, n, a), r) ==> within(r, bnd),
    ensures
        forall|i: int| 0 <= i < thetas.len() ==> within(#[trigger] thetas[i], bnd),
{
    assert forall|i: int| 0 <= i < thetas.len() implies within(#[trigger] thetas[i], bnd) by {
        if i > 0 {
            let k = i - 1;
            assert(harness_step::<TParams, Env, Tgt, Bnd, G, Obs, Nom, Adj, H, Sim, NomF, StepF>(
                simulate,
                nominal,
                step,
                env,
                tgt,
                bnd,
                gains,
                thetas[k],
                hooks_in[k],
                obs[k],
                noms[k],
                answers[k],
                thetas[k + 1],
            ));
            assert(k + 1 == i);
        }
    }
}

/// Identity law: in a harness run without hooks, every call of the step
/// function gets the identity correction.
pub proof fn lemma_no_hooks_step_gets_identity<TParams, Env, Tgt, Bnd, G, Obs, Nom, Adj, H, Sim, NomF, StepF, ConvF>(
    simulate: Sim,
    nominal: NomF,
    step: StepF,
    converged: ConvF,
    env: Env,
    tgt: Tgt,
    bnd: Bnd,
    gains: G,
    theta0: TParams,
    hooks0: Seq<H>,
    thetas: Seq<TParams>,
    hooks_in: Seq<Seq<H>>,
    obs: Seq<Obs>,
    noms: Seq<Nom>,
    answers: Seq<Seq<Adj>>,
)
    where
        Adj: Adjustment,
        Sim: Fn(&TParams, &Env, &Tgt, &[H]) -> Obs,
        NomF: Fn(&TParams, &Env, &Tgt, &Obs) -> Nom,
        StepF: Fn(&TParams, &Bnd, &G, Nom, Adj) -> TParams,
        ConvF: Fn(&Obs, &Tgt) -> bool,
    requires
        is_balance_run(
            simulate,
            nominal,
            step,
            converged,
            env,
            tgt,
            bnd,
            gains,
            theta0,
            hooks0,
            thetas,
            hooks_in,
            obs,
            noms,
            answers,
        ),
        hooks0.len() == 0,
    ensures
        forall|i: int|
            0 <= i < obs.len() ==> step.ensures(
                (&thetas[i], &bnd, &gains, #[trigger] noms[i], Adj::id_spec()),
                thetas[i + 1],
            ),
{
    assert forall|i: int| 0 <= i < obs.len() implies step.ensures(
        (&thetas[i], &bnd, &gains, #[trigger] noms[i], Adj::id_spec()),
        thetas[i + 1],
    ) by {
        assert(harness_step::<TParams, Env, Tgt, Bnd, G, Obs, Nom, Adj, H, Sim, NomF, StepF>(
                simulate,
                nominal,
                step,
                env,
                tgt,
                bnd,
                gains,
                thetas[i],
                hooks_in[i],
                obs[i],
                noms[i],
                answers[i],
                thetas[i + 1],
            ));
        assert(hooks_in[i].len() == 0);
        assert(answers[i].len() == 0);
    }
}

/// Composition in the run: in every iteration of a harness run, the step
/// function gets the composition, in registration order from the identity, of
/// one answer per caller hook; with commuting corrections, any reordering of
/// those answers gives the step function the same correction.
pub proof fn lemma_step_gets_composed_answers<TParams, Env, Tgt, Bnd, G, Obs, Nom, Adj, H, Sim, NomF, StepF, ConvF>(
    simulate: Sim,
    nominal: NomF,
    step: StepF,
    converged: ConvF,
    env: Env,
    tgt: Tgt,
    bnd: Bnd,
    gains: G,
    theta0: TParams,
    hooks0: Seq<H>,
    thetas: Seq<TParams>,
    hooks_in: Seq<Seq<H>>,
    obs: Seq<Obs>,
    noms: Seq<Nom>,
    answers: Seq<Seq<Adj>>,
    i: int,
    reordered: Seq<Adj>,
)
    where
        Adj: Adjustment,
        Sim: Fn(&TParams, &Env, &Tgt, &[H]) -> Obs,
        NomF: Fn(&TParams, &Env, &Tgt, &Obs) -> Nom,
        StepF: Fn(&TParams, &Bnd, &G, Nom, Adj) -> TParams,
        ConvF: Fn(&Obs, &Tgt) -> bool,
    requires
        is_balance_run(
            simulate,
            nominal,
            step,
            converged,
            env,
            tgt,
            bnd,
            gains,
            theta0,
            hooks0,
            thetas,
            hooks_in,
            obs,
            noms,
            answers,
        ),
        0 <= i < obs.len(),
        compose_commutes::<Adj>(),
        reordered.to_multiset() == answers[i].to_multiset(),
    ensures
        answers[i].len() == hooks0.len(),
        step.ensures((&thetas[i], &bnd, &gains, noms[i], fold_adjust(answers[i])), thetas[i + 1]),
        fold_adjust(reordered) == fold_adjust(answers[i]),
{
    assert(harness_step::<TParams, Env, Tgt, Bnd, G, Obs, Nom, Adj, H, Sim, NomF, StepF>(
                simulate,
                nominal,
                step,
                env,
                tgt,
                bnd,
                gains,
                thetas[i],
                hooks_in[i],
                obs[i],
                noms[i],
                answers[i],
                thetas[i + 1],
            ));
    assert(hooks_in[i].len() == hooks0.len());
    lemma_fold_ignores_order(reordered, answers[i]);
}

/// `simulate`, `nominal` and `step` are functions: equal arguments (hooks
/// compared by their contents) give equal results.
pub open spec fn runs_functional<TParams, Env, Tgt, Bnd, G, Obs, Nom, Adj, H, Sim, NomF, StepF>(
    simulate: Sim,
    nominal: NomF,
    step: StepF,
) -> bool
    where
        Sim: Fn(&TParams, &Env, &Tgt, &[H]) -> Obs,
        NomF: Fn(&TParams, &Env, &Tgt, &Obs) -> Nom,
        StepF: Fn(&TParams, &Bnd, &G, Nom, Adj) -> TParams,
{
    &&& forall|t: &TParams, e: &Env, g: &Tgt, h1: &[H], h2: &[H], o1: Obs, o2: Obs|
        h1@ == h2@ && #[trigger] simulate.ensures((t, e, g, h1), o1) && #[trigger] simulate.ensures((t, e, g, h2), o2)
            ==> o1 == o2
    &&& forall|t: &TParams, e: &Env, g: &Tgt, o: &Obs, n1: Nom, n2: Nom|
        #[trigger] nominal.ensures((t, e, g, o), n1) && #[trigger] nominal.ensures((t, e, g, o), n2) ==> n1 == n2
    &&& forall|t: &TParams, b: &Bnd, k: &G, n: Nom, a: Adj, r1: TParams, r2: TParams|
        #[trigger] step.ensures((t, b, k, n, a), r1) && #[trigger] step.ensures((t, b, k, n, a), r2) ==> r1 == r2
}

/// Determinism: two harness runs from the same inputs, whose `simulate`,
/// `nominal` and `step` are functions and whose hooks behave identically
/// (the same hooks when simulating, the same answers), go through the same
/// observations, goals and parameters for as long as both run.
pub proof fn lemma_runs_agree<TParams, Env, Tgt, Bnd, G, Obs, Nom, Adj, H, Sim, NomF, StepF, ConvF>(
    simulate: Sim,
    nominal: NomF,
    step: StepF,
    converged: ConvF,
    env: Env,
    tgt: Tgt,
    bnd: Bnd,
    gains: G,
    theta0: TParams,
    hooks0: Seq<H>,
    thetas1: Seq<TParams>,
    hooks_in1: Seq<Seq<H>>,
    obs1: Seq<Obs>,
    noms1: Seq<Nom>,
    answers1: Seq<Seq<Adj>>,
    thetas2: Seq<TParams>,
    hooks_in2: Seq<Seq<H>>,
    obs2: Seq<Obs>,
    noms2: Seq<Nom>,
    answers2: Seq<Seq<Adj>>,
)
    where
        Adj: Adjustment,
        Sim: Fn(&TParams, &Env, &Tgt, &[H]) -> Obs,
        NomF: Fn(&TParams, &Env, &Tgt, &Obs) -> Nom,
        StepF: Fn(&TParams, &Bnd, &G, Nom, Adj) -> TParams,
        ConvF: Fn(&Obs, &Tgt) -> bool,
    requires
        is_balance_run(
            simulate,
            nominal,
            step,
            converged,
            env,
            tgt,
            bnd,
            gains,
            theta0,
            hooks0,
            thetas1,
            hooks_in1,
            obs1,
            noms1,
            answers1,
        ),
        is_balance_run(
            simulate,
            nominal,
            step,
            converged,
            env,
            tgt,
            bnd,
            gains,
            theta0,
            hooks0,
            thetas2,
            hooks_in2,
            obs2,
            noms2,
            answers2,
        ),
        runs_functional(simulate, nominal, step),
        forall|i: int|
            0 <= i < obs1.len() && 0 <= i < obs2.len() ==> #[trigger] hooks_in1[i] == hooks_in2[i] && answers1[i]
                == answers2[i],
    ensures
        forall|i: int|
            0 <= i < obs1.len() && 0 <= i < obs2.len() ==> #[trigger] obs1[i] == obs2[i] && noms1[i] == noms2[i]
                && thetas1[i + 1] == thetas2[i + 1],
{
    if obs1.len() > 0 && obs2.len() > 0 {
        let n = if obs1.len() < obs2.len() {
            obs1.len() as int
        } else {
            obs2.len() as int
        };
        lemma_runs_agree_upto(
        simulate,
        nominal,
        step,
        converged,
        env,
        tgt,
        bnd,
        gains,
        theta0,
        hooks0,
        thetas1,
        hooks_in1,
        obs1,
        noms1,
        answers1,
        thetas2,
        hooks_in2,
        obs2,
        noms2,
        answers2,
            n - 1,
        );
    }
}

proof fn lemma_runs_agree_upto<TParams, Env, Tgt, Bnd, G, Obs, Nom, Adj, H, Sim, NomF, StepF, ConvF>(
    simulate: Sim,
    nominal: NomF,
    step: StepF,
    converged: ConvF,
    env: Env,
    tgt: Tgt,
    bnd: Bnd,
    gains: G,
    theta0: TParams,
    hooks0: Seq<H>,
    thetas1: Seq<TParams>,
    hooks_in1: Seq<Seq<H>>,
    obs1: Seq<Obs>,
    noms1: Seq<Nom>,
    answers1: Seq<Seq<Adj>>,
    thetas2: Seq<TParams>,
    hooks_in2: Seq<Seq<H>>,
    obs2: Seq<Obs>,
    noms2: Seq<Nom>,
    answers2: Seq<Seq<Adj>>,
    k: int,
)
    where
        Adj: Adjustment,
        Sim: Fn(&TParams, &Env, &Tgt, &[H]) -> Obs,
        NomF: Fn(&TParams, &Env, &Tgt, &Obs) -> Nom,
        StepF: Fn(&TParams, &Bnd, &G, Nom, Adj) -> TParams,
        ConvF: Fn(&Obs, &Tgt) -> bool,
    requires
        is_balance_run(
            simulate,
            nominal,
            step,
            converged,
            env,
            tgt,
            bnd,
            gains,
            theta0,
            hooks0,
            thetas1,
            hooks_in1,
            obs1,
            noms1,
            answers1,
        ),
        is_balance_run(
            simulate,
            nominal,
            step,
            converged,
            env,
            tgt,
            bnd,
            gains,
            theta0,
            hooks0,
            thetas2,
            hooks_in2,
            obs2,
            noms2,
            answers2,
        ),
        runs_functional(simulate, nominal, step),
        forall|i: int|
            0 <= i < obs1.len() && 0 <= i < obs2.len() ==> #[trigger] hooks_in1[i] == hooks_in2[i] && answers1[i]
                == answers2[i],
        0 <= k < obs1.len(),
        k < obs2.len(),
    ensures
        forall|i: int| 0 <= i <= k ==> #[trigger] obs1[i] == obs2[i] && noms1[i] == noms2[i] && thetas1[i + 1]
            == thetas2[i + 1],
    decreases k,
{
    if k > 0 {
        lemma_runs_agree_upto(
        simulate,
        nominal,
        step,
        converged,
        env,
        tgt,
        bnd,
        gains,
        theta0,
        hooks0,
        thetas1,
        hooks_in1,
        obs1,
        noms1,
        answers1,
        thetas2,
        hooks_in2,
        obs2,
        noms2,
        answers2,
            k - 1,
        );
    }
    assert(thetas1[k] == thetas2[k]) by {
        if k > 0 {
            assert(obs1[k - 1] == obs2[k - 1]);
            assert(thetas1[(k - 1) + 1] == thetas2[(k - 1) + 1]);
        }
    }
    assert(hooks_in1[k] == hooks_in2[k] && answers1[k] == answers2[k]);
    assert(harness_step::<TParams, Env, Tgt, Bnd, G, Obs, Nom, Adj, H, Sim, NomF, StepF>(
            simulate,
            nominal,
            step,
            env,
            tgt,
            bnd,
            gains,
            thetas1[k],
            hooks_in1[k],
            obs1[k],
            noms1[k],
            answers1[k],
            thetas1[k + 1],
        ));
    assert(harness_step::<TParams, Env, Tgt, Bnd, G, Obs, Nom, Adj, H, Sim, NomF, StepF>(
            simulate,
            nominal,
            step,
            env,
            tgt,
            bnd,
            gains,
            thetas2[k],
            hooks_in2[k],
            obs2[k],
            noms2[k],
            answers2[k],
            thetas2[k + 1],
        ));
    let h1 = choose|h: &[H]| h@ == hooks_in1[k] && simulate.ensures((&thetas1[k], &env, &tgt, h), obs1[k]);
    let h2 = choose|h: &[H]| h@ == hooks_in2[k] && simulate.ensures((&thetas2[k], &env, &tgt, h), obs2[k]);
    assert(obs1[k] == obs2[k]);
    assert(noms1[k] == noms2[k]);
}

} // verus!
