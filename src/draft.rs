//! The deterministic part of drafting hook cards: which candidate stands in
//! when no card was drawn, how candidates are ordered by tier, how many are
//! offered, how rerolls are spent and which pity counters are touched. The
//! random draws and the pity arithmetic are the caller's.
use vstd::prelude::*;
use bevy_prng::WyRand;
use rand_core::{RngCore, SeedableRng};
use std::collections::HashSet;

verus! {

#[verifier::external_type_specification]
#[verifier::external_body]
pub struct ExWyRand(WyRand);

/// Relies on `rand_core::SeedableRng::from_seed` for `bevy_prng::WyRand`:
/// a generator seeded with the little-endian bytes of `seed`.
#[verifier::external_body]
fn wyrand_from_seed(seed: u64) -> WyRand {
    WyRand::from_seed(seed.to_le_bytes())
}

/// Relies on `rand_core::RngCore::next_u64` for `bevy_prng::WyRand`: the next
/// 64 bits of the generator's stream; nothing is known of their value.
#[verifier::external_body]
fn wyrand_next_u64(rng: &mut WyRand) -> u64 {
    rng.next_u64()
}

/// Rarity of a card, from the most common to the rarest.
#[derive(Clone, Copy, Debug, PartialEq, Eq, Structural, PartialOrd, Ord)]
pub enum Tier {
    Common,
    Uncommon,
    Rare,
    Epic,
}

/// The position of a tier in rarity order.
pub open spec fn tier_rank(t: Tier) -> nat {
    match t {
        Tier::Common => 0,
        Tier::Uncommon => 1,
        Tier::Rare => 2,
        Tier::Epic => 3,
    }
}

impl Tier {
    /// The position of this tier in rarity order, from 0 for `Common`.
    pub fn rank(self) -> (r: u8)
        ensures
            r == tier_rank(self),
    {
        match self {
            Tier::Common => 0,
            Tier::Uncommon => 1,
            Tier::Rare => 2,
            Tier::Epic => 3,
        }
    }
}

/// How offers are drawn.
#[derive(Clone, Copy, Debug)]
pub struct DraftConfig {
    pub options_per_roll: usize,
    pub rerolls_per_draft: usize,
    pub prioritize_tier: bool,
}

/// A card as presented to the player: its place in the pool, its name and
/// its tier.
pub struct OfferedCard {
    pub pool_idx: usize,
    pub name: String,
    pub tier: Tier,
}

/// The candidate that stands in when no card of a non-empty pool was drawn:
/// the first `Common` card, or else the first card. `None` for an empty pool.
pub fn fallback_candidate(tiers: &Vec<Tier>) -> (r: Option<usize>)
    ensures
        r.is_none() <==> tiers@.len() == 0,
        r.is_some() ==> r.unwrap() < tiers@.len(),
        r.is_some() ==> forall|j: int| 0 <= j < r.unwrap() ==> tiers@[j] != Tier::Common,
        r.is_some() && r.unwrap() > 0 ==> tiers@[r.unwrap() as int] == Tier::Common,
        r.is_some() && r.unwrap() == 0 && tiers@[0] != Tier::Common ==> forall|j: int|
            0 <= j < tiers@.len() ==> tiers@[j] != Tier::Common,
{
    if tiers.len() == 0 {
        return None;
    }
    let mut i: usize = 0;
    while i < tiers.len()
        invariant
            i <= tiers@.len(),
            forall|j: int| 0 <= j < i ==> tiers@[j] != Tier::Common,
        decreases tiers@.len() - i,
    {
        if tiers[i] == Tier::Common {
            return Some(i);
        }
        i = i + 1;
    }
    Some(0)
}

/// Whether a candidate `(pool index, tier)` has tier `t`.
pub open spec fn of_tier(t: Tier) -> spec_fn((usize, Tier)) -> bool {
    |c: (usize, Tier)| c.1 == t
}

/// The candidates ordered from the rarest tier down, keeping the order of
/// candidates of one tier: a stable sort by descending tier.
pub open spec fn by_tier(cands: Seq<(usize, Tier)>) -> Seq<(usize, Tier)> {
    cands.filter(of_tier(Tier::Epic)) + cands.filter(of_tier(Tier::Rare)) + cands.filter(
        of_tier(Tier::Uncommon),
    ) + cands.filter(of_tier(Tier::Common))
}

/// Appends to `out`, in order, the candidates of tier `t`.
fn append_tier(out: &mut Vec<(usize, Tier)>, cands: &Vec<(usize, Tier)>, t: Tier)
    ensures
        final(out)@ == old(out)@ + cands@.filter(of_tier(t)),
{
    let ghost start = out@;
    let mut j: usize = 0;
    while j < cands.len()
        invariant
            j <= cands@.len(),
            out@ == start + cands@.subrange(0, j as int).filter(of_tier(t)),
        decreases cands@.len() - j,
    {
        proof {
            let pre = cands@.subrange(0, j as int);
            let next = cands@.subrange(0, j as int + 1);
            assert(next.drop_last() =~= pre);
            assert(next.last() == cands@[j as int]);
            reveal(Seq::filter);
        }
        if cands[j].1 == t {
            out.push(cands[j]);
        }
        j = j + 1;
    }
    proof {
        assert(cands@.subrange(0, cands@.len() as int) =~= cands@);
    }
}

/// Orders candidates by tier, rarest first, keeping the order within a tier.
pub fn prioritize_by_tier(cands: &Vec<(usize, Tier)>) -> (r: Vec<(usize, Tier)>)
    ensures
        r@ == by_tier(cands@),
{
    let mut out: Vec<(usize, Tier)> = Vec::new();
    append_tier(&mut out, cands, Tier::Epic);
    append_tier(&mut out, cands, Tier::Rare);
    append_tier(&mut out, cands, Tier::Uncommon);
    append_tier(&mut out, cands, Tier::Common);
    proof {
        assert(out@ =~= by_tier(cands@));
    }
    out
}

/// The end of the run of candidates that share the tier of `cands[start]`.
pub fn tier_run_end(cands: &Vec<(usize, Tier)>, start: usize) -> (end: usize)
    requires
        start < cands@.len(),
    ensures
        start < end <= cands@.len(),
        forall|k: int| start <= k < end ==> cands@[k].1 == cands@[start as int].1,
        end < cands@.len() ==> cands@[end as int].1 != cands@[start as int].1,
{
    let t = cands[start].1;
    let n = cands.len();
    let mut j: usize = start + 1;
    while j < cands.len() && cands[j].1 == t
        invariant
            start < j <= cands@.len(),
            t == cands@[start as int].1,
            forall|k: int| start <= k < j ==> cands@[k].1 == t,
        decreases cands@.len() - j,
    {
        j = j + 1;
    }
    j
}

/// How many cards one offer shows: the configured number, but at least one.
pub open spec fn offer_size(cfg: DraftConfig) -> nat {
    if cfg.options_per_roll == 0 {
        1
    } else {
        cfg.options_per_roll as nat
    }
}

/// The leading candidates that one offer shows.
pub fn take_offer(cands: &Vec<(usize, Tier)>, cfg: DraftConfig) -> (r: Vec<(usize, Tier)>)
    ensures
        r@ == cands@.take(
            if offer_size(cfg) < cands@.len() {
                offer_size(cfg) as int
            } else {
                cands@.len() as int
            },
        ),
{
    let k: usize = if cfg.options_per_roll == 0 {
        1
    } else {
        cfg.options_per_roll
    };
    let mut out: Vec<(usize, Tier)> = Vec::new();
    let mut i: usize = 0;
    while i < cands.len() && i < k
        invariant
            i <= cands@.len(),
            i <= k,
            k == offer_size(cfg),
            out@ == cands@.take(i as int),
        decreases cands@.len() - i,
    {
        out.push(cands[i]);
        i = i + 1;
        proof {
            assert(out@ =~= cands@.take(i as int));
        }
    }
    out
}

/// The pity counter that picking `offer[picked]` resets: the pool index of the
/// picked card, when the pick is in the offer, the card is in the pool, the
/// card has pity, and a counter exists for it.
pub fn pity_reset_index(offer: &Vec<OfferedCard>, picked: usize, has_pity: &Vec<bool>, pity_len: usize) -> (r:
    Option<usize>)
    ensures
        r.is_some() <==> (picked < offer@.len() && offer@[picked as int].pool_idx < has_pity@.len()
            && has_pity@[offer@[picked as int].pool_idx as int] && offer@[picked as int].pool_idx < pity_len),
        r.is_some() ==> r.unwrap() == offer@[picked as int].pool_idx,
{
    if picked >= offer.len() {
        return None;
    }
    let idx = offer[picked].pool_idx;
    if idx < has_pity.len() && has_pity[idx] && idx < pity_len {
        Some(idx)
    } else {
        None
    }
}

/// For each of the first `pool_len` pool indices, whether the last offer
/// showed it.
pub fn shown_mask(shown: &Vec<usize>, pool_len: usize) -> (mask: Vec<bool>)
    ensures
        mask@.len() == pool_len,
        forall|i: int| 0 <= i < pool_len ==> (#[trigger] mask@[i] <==> shown@.contains(i as usize)),
{
    broadcast use vstd::std_specs::hash::group_hash_axioms;

    let mut set: HashSet<usize> = HashSet::new();
    let mut j: usize = 0;
    while j < shown.len()
        invariant
            j <= shown@.len(),
            forall|x: usize| set@.contains(x) <==> shown@.subrange(0, j as int).contains(x),
        decreases shown@.len() - j,
    {
        set.insert(shown[j]);
        proof {
            let s0 = shown@.subrange(0, j as int);
            let s1 = shown@.subrange(0, j as int + 1);
            assert(s1 =~= s0.push(shown@[j as int]));
            assert forall|x: usize| set@.contains(x) <==> s1.contains(x) by {
                if s0.contains(x) {
                    let k = choose|k: int| 0 <= k < s0.len() && s0[k] == x;
                    assert(s1[k] == x);
                }
                if x == shown@[j as int] {
                    assert(s1[j as int] == x);
                }
                if s1.contains(x) {
                    let k = choose|k: int| 0 <= k < s1.len() && s1[k] == x;
                    if k < j {
                        assert(s0[k] == x);
                    }
                }
            }
        }
        j = j + 1;
    }
    proof {
        assert(shown@.subrange(0, shown@.len() as int) =~= shown@);
    }
    let mut mask: Vec<bool> = Vec::new();
    let mut i: usize = 0;
    while i < pool_len
        invariant
            i <= pool_len,
            mask@.len() == i,
            forall|x: usize| set@.contains(x) <==> shown@.contains(x),
            forall|k: int| 0 <= k < i ==> (#[trigger] mask@[k] <==> shown@.contains(k as usize)),
        decreases pool_len - i,
    {
        mask.push(set.contains(&i));
        i = i + 1;
    }
    mask
}

/// Resizes a per-card counter list to `new_len`: new entries hold `fill`,
/// surplus entries are dropped, the others are kept.
pub fn resize_filled<T: Copy>(acc: &mut Vec<T>, new_len: usize, fill: T)
    ensures
        final(acc)@.len() == new_len,
        forall|i: int| 0 <= i < new_len && i < old(acc)@.len() ==> final(acc)@[i] == old(acc)@[i],
        forall|i: int| old(acc)@.len() <= i < new_len ==> final(acc)@[i] == fill,
{
    if new_len > acc.len() {
        let ghost before = acc@;
        while acc.len() < new_len
            invariant
                before.len() <= acc@.len() <= new_len,
                forall|i: int| 0 <= i < before.len() ==> acc@[i] == before[i],
                forall|i: int| before.len() <= i < acc@.len() ==> acc@[i] == fill,
            decreases new_len - acc@.len(),
        {
            acc.push(fill);
        }
    } else {
        acc.truncate(new_len);
    }
}

/// The state of one draft: a seeded random stream, the rerolls left, one
/// pity counter per pool card (of the caller's numeric type `P`), and the
/// pool indices of the last offer.
pub struct DraftState<P> {
    rng: WyRand,
    pub rerolls_left: usize,
    pity_acc: Vec<P>,
    last_offered_pool_idxs: Vec<usize>,
}

impl<P: Copy> DraftState<P> {
    /// The rerolls left.
    pub closed spec fn rerolls_view(&self) -> usize {
        self.rerolls_left
    }

    /// The pity counters, one per pool card.
    pub closed spec fn pity_view(&self) -> Seq<P> {
        self.pity_acc@
    }

    /// The pool indices of the last offer.
    pub closed spec fn last_offered_view(&self) -> Seq<usize> {
        self.last_offered_pool_idxs@
    }

    /// A fresh draft over a pool of `pool_len` cards: all rerolls of `cfg`
    /// left, every pity counter at `zero`, no offer made yet.
    pub fn new(cfg: DraftConfig, pool_len: usize, seed: u64, zero: P) -> (st: Self)
        ensures
            st.rerolls_view() == cfg.rerolls_per_draft,
            st.pity_view().len() == pool_len,
            forall|i: int| 0 <= i < pool_len ==> st.pity_view()[i] == zero,
            st.last_offered_view().len() == 0,
    {
        let mut pity_acc: Vec<P> = Vec::new();
        resize_filled(&mut pity_acc, pool_len, zero);
        DraftState {
            rng: wyrand_from_seed(seed),
            rerolls_left: cfg.rerolls_per_draft,
            pity_acc,
            last_offered_pool_idxs: Vec::new(),
        }
    }

    /// Gives the pool `new_len` pity counters: counters of new cards start at
    /// `zero`, those of dropped cards go, the others keep their value.
    pub fn resize_pool(&mut self, new_len: usize, zero: P)
        ensures
            final(self).pity_view().len() == new_len,
            forall|i: int|
                0 <= i < new_len && i < old(self).pity_view().len() ==> final(self).pity_view()[i]
                    == old(self).pity_view()[i],
            forall|i: int| old(self).pity_view().len() <= i < new_len ==> final(self).pity_view()[i] == zero,
            final(self).rerolls_view() == old(self).rerolls_view(),
            final(self).last_offered_view() == old(self).last_offered_view(),
    {
        resize_filled(&mut self.pity_acc, new_len, zero);
    }

    /// The next 64 random bits of the draft's stream.
    pub fn draw_u64(&mut self) -> (bits: u64)
        ensures
            final(self).rerolls_view() == old(self).rerolls_view(),
            final(self).pity_view() == old(self).pity_view(),
            final(self).last_offered_view() == old(self).last_offered_view(),
    {
        wyrand_next_u64(&mut self.rng)
    }

    /// Spends one reroll if any is left; answers whether one was spent.
    pub fn take_reroll(&mut self) -> (spent: bool)
        ensures
            spent <==> old(self).rerolls_view() > 0,
            spent ==> final(self).rerolls_view() == old(self).rerolls_view() - 1,
            !spent ==> final(self).rerolls_view() == old(self).rerolls_view(),
            final(self).pity_view() == old(self).pity_view(),
            final(self).last_offered_view() == old(self).last_offered_view(),
    {
        if self.rerolls_left == 0 {
            false
        } else {
            self.rerolls_left = self.rerolls_left - 1;
            true
        }
    }

    /// The number of pity counters.
    pub fn pity_len(&self) -> (n: usize)
        ensures
            n == self.pity_view().len(),
    {
        self.pity_acc.len()
    }

    /// The pity counter of pool card `i`.
    pub fn pity(&self, i: usize) -> (v: P)
        requires
            i < self.pity_view().len(),
        ensures
            v == self.pity_view()[i as int],
    {
        self.pity_acc[i]
    }

    /// Sets the pity counter of pool card `i` to `v`.
    pub fn set_pity(&mut self, i: usize, v: P)
        requires
            i < old(self).pity_view().len(),
        ensures
            final(self).pity_view() == old(self).pity_view().update(i as int, v),
            final(self).rerolls_view() == old(self).rerolls_view(),
            final(self).last_offered_view() == old(self).last_offered_view(),
    {
        self.pity_acc.set(i, v);
    }

    /// Remembers the pool indices of the offer just made.
    pub fn record_offer(&mut self, idxs: Vec<usize>)
        ensures
            final(self).last_offered_view() == idxs@,
            final(self).rerolls_view() == old(self).rerolls_view(),
            final(self).pity_view() == old(self).pity_view(),
    {
        self.last_offered_pool_idxs = idxs;
    }

    /// For each pool card, whether the last offer showed it.
    pub fn shown_in_last_offer(&self) -> (mask: Vec<bool>)
        ensures
            mask@.len() == self.pity_view().len(),
            forall|i: int|
                0 <= i < mask@.len() ==> (#[trigger] mask@[i] <==> self.last_offered_view().contains(i as usize)),
    {
        shown_mask(&self.last_offered_pool_idxs, self.pity_acc.len())
    }

    /// After the player picks `offer[picked]`: resets that card's pity counter
    /// to `zero` when the card has pity (`has_pity` is indexed by pool card).
    pub fn notify_picked(&mut self, offer: &Vec<OfferedCard>, picked: usize, has_pity: &Vec<bool>, zero: P)
        ensures
            ({
                let idx = offer@[picked as int].pool_idx;
                if picked < offer@.len() && idx < has_pity@.len() && has_pity@[idx as int] && idx
                    < old(self).pity_view().len() {
                    final(self).pity_view() == old(self).pity_view().update(idx as int, zero)
                } else {
                    final(self).pity_view() == old(self).pity_view()
                }
            }),
            final(self).rerolls_view() == old(self).rerolls_view(),
            final(self).last_offered_view() == old(self).last_offered_view(),
    {
        let n = self.pity_acc.len();
        match pity_reset_index(offer, picked, has_pity, n) {
            Some(idx) => {
                self.pity_acc.set(idx, zero);
            },
            None => {},
        }
    }
}

} // verus!
