//! Configuration of the idle genre: how many iterations each system gets and
//! how many outer passes run, and the hooks injected into the core system.
use vstd::prelude::*;

verus! {

/// Iteration budgets of the idle genre.
#[derive(Clone, Copy, Debug)]
pub struct IdleGenreConfig {
    pub max_iters_per_system: usize,
    pub outer_iters: usize,
}

impl Default for IdleGenreConfig {
    fn default() -> (cfg: Self)
        ensures
            cfg.max_iters_per_system == 120_000,
            cfg.outer_iters == 2,
    {
        IdleGenreConfig { max_iters_per_system: 120_000, outer_iters: 2 }
    }
}

/// Hooks injected into the genre. Only the core production system takes
/// hooks, and only on the first outer pass.
pub struct IdleGenreHooks<H> {
    pub core_mechs: Vec<H>,
}

impl<H> Default for IdleGenreHooks<H> {
    fn default() -> (hooks: Self)
        ensures
            hooks.core_mechs@.len() == 0,
    {
        IdleGenreHooks { core_mechs: Vec::new() }
    }
}

} // verus!
