//! The hook protocol: optional modulators that observe each iteration and
//! scale the controller's nominal targets, without touching the core loop.
use vstd::prelude::*;

verus! {

/// A multiplicative correction of a controller's nominal targets, as hooks
/// return it and as the harness composes it. The harness's contract speaks of
/// `id_spec` and `compose_spec`; an implementation's `identity` and `compose`
/// must compute exactly those.
pub trait Adjustment: Sized {
    /// The correction that leaves every target as it is.
    spec fn id_spec() -> Self;

    /// The running correction `self` with the correction `next` of one more
    /// hook folded in: component by component, `next` is clamped at zero and
    /// then multiplied in, so that no hook can flip the sign of a target.
    spec fn compose_spec(self, next: Self) -> Self;

    /// The identity correction.
    fn identity() -> (r: Self)
        ensures
            r == Self::id_spec(),
    ;

    /// Folds `next` into `self`.
    fn compose(self, next: Self) -> (r: Self)
        ensures
            r == self.compose_spec(next),
    ;
}

/// The composition of the corrections `answers`, in order, starting from the
/// identity.
pub open spec fn fold_adjust<Adj: Adjustment>(answers: Seq<Adj>) -> Adj
    decreases answers.len(),
{
    if answers.len() == 0 {
        Adj::id_spec()
    } else {
        fold_adjust(answers.drop_last()).compose_spec(answers.last())
    }
}

/// Corrections commute under composition: folding `x` and then `y` into any
/// running correction gives the same as folding `y` and then `x` (true of real
/// multiplication, and so of clamp-then-multiply component by component).
pub open spec fn compose_commutes<Adj: Adjustment>() -> bool {
    forall|a: Adj, x: Adj, y: Adj| #[trigger] a.compose_spec(x).compose_spec(y) == a.compose_spec(y).compose_spec(x)
}

/// With commuting corrections, any one answer can be folded in last.
pub proof fn lemma_fold_pull<Adj: Adjustment>(s: Seq<Adj>, j: int)
    requires
        compose_commutes::<Adj>(),
        0 <= j < s.len(),
    ensures
        fold_adjust(s) == fold_adjust(s.remove(j)).compose_spec(s[j]),
    decreases s.len(),
{
    let n = s.len();
    if j == n - 1 {
        assert(s.remove(j) =~= s.drop_last());
    } else {
        let dl = s.drop_last();
        lemma_fold_pull(dl, j);
        let base = fold_adjust(dl.remove(j));
        assert(base.compose_spec(s[j]).compose_spec(s.last()) == base.compose_spec(s.last()).compose_spec(s[j]));
        assert(s.remove(j).drop_last() =~= dl.remove(j));
        assert(s.remove(j).last() == s.last());
        assert(dl[j] == s[j]);
    }
}

/// Order independence: with commuting corrections, composing the answers of
/// the hooks in any order gives the same correction.
pub proof fn lemma_fold_ignores_order<Adj: Adjustment>(s: Seq<Adj>, t: Seq<Adj>)
    requires
        compose_commutes::<Adj>(),
        s.to_multiset() == t.to_multiset(),
    ensures
        fold_adjust(s) == fold_adjust(t),
    decreases s.len(),
{
    broadcast use vstd::seq_lib::group_to_multiset_ensures;

    assert(s.len() == t.len()) by {
        assert(s.len() == s.to_multiset().len());
        assert(t.len() == t.to_multiset().len());
    }
    if s.len() > 0 {
        let x = s.last();
        let dl = s.drop_last();
        assert(dl.push(x) =~= s);
        assert(s.to_multiset().count(x) > 0) by {
            assert(dl.push(x).to_multiset() =~= dl.to_multiset().insert(x));
        }
        assert(t.contains(x));
        let j = choose|j: int| 0 <= j < t.len() && t[j] == x;
        lemma_fold_pull(t, j);
        assert(dl.to_multiset() =~= t.remove(j).to_multiset()) by {
            assert(dl.push(x).to_multiset() =~= dl.to_multiset().insert(x));
            assert(t.remove(j).to_multiset() =~= t.to_multiset().remove(t[j]));
        }
        lemma_fold_ignores_order(dl, t.remove(j));
    }
}

/// A pluggable modulator of one concrete system. Every capability is optional:
/// the defaults observe nothing and return the identity correction.
pub trait Hook<TParams, Env, Tgt, Obs, Nom, Adj: Adjustment> {
    /// Sees the observation of the current iteration, after simulation.
    fn on_observe(&mut self, obs: &Obs, theta: &TParams, env: &Env, tgt: &Tgt) {
    }

    /// A multiplicative correction of the nominal targets `nom`.
    fn adjust_targets(&mut self, theta: &TParams, env: &Env, tgt: &Tgt, nom: &Nom) -> Adj {
        Adj::identity()
    }
}

/// Hands `obs` to every hook, once each, in registration order.
pub(crate) fn observe_all<TParams, Env, Tgt, Obs, Nom, Adj, H>(
    hooks: &mut Vec<H>,
    obs: &Obs,
    theta: &TParams,
    env: &Env,
    tgt: &Tgt,
)
    where
        Adj: Adjustment,
        H: Hook<TParams, Env, Tgt, Obs, Nom, Adj>,
    ensures
        final(hooks)@.len() == old(hooks)@.len(),
{
    let n = hooks.len();
    let mut i: usize = 0;
    while i < n
        invariant
            hooks@.len() == n,
            i <= n,
        decreases n - i,
    {
        // Rotating through the list visits each hook once and restores the order.
        let mut h = hooks.remove(0);
        h.on_observe(obs, theta, env, tgt);
        hooks.push(h);
        i = i + 1;
    }
}

/// Asks every hook, in registration order, for its correction of `nom` and
/// composes the answers, starting from the identity. Also hands back, as ghost
/// state, the answers in order: one per hook.
pub(crate) fn compose_adjustments<TParams, Env, Tgt, Obs, Nom, Adj, H>(
    hooks: &mut Vec<H>,
    theta: &TParams,
    env: &Env,
    tgt: &Tgt,
    nom: &Nom,
) -> (r: (Adj, Ghost<Seq<Adj>>))
    where
        Adj: Adjustment,
        H: Hook<TParams, Env, Tgt, Obs, Nom, Adj>,
    ensures
        final(hooks)@.len() == old(hooks)@.len(),
        r.1@.len() == old(hooks)@.len(),
        r.0 == fold_adjust(r.1@),
{
    let mut adj = Adj::identity();
    let ghost mut answers: Seq<Adj> = Seq::empty();
    let n = hooks.len();
    let mut i: usize = 0;
    while i < n
        invariant
            hooks@.len() == n,
            i <= n,
            answers.len() == i,
            adj == fold_adjust(answers),
        decreases n - i,
    {
        let mut h = hooks.remove(0);
        let s = h.adjust_targets(theta, env, tgt, nom);
        proof {
            let prev = answers;
            answers = answers.push(s);
            assert(answers.drop_last() =~= prev);
        }
        adj = adj.compose(s);
        hooks.push(h);
        i = i + 1;
    }
    (adj, Ghost(answers))
}

} // verus!
