use vstd::prelude::*;

use crate::atom::{seed, seeded, Atom};
use crate::relation::{overlay, Relation};

verus! {

/// Why a simulation could not be built.
#[derive(Clone, Copy, Debug, PartialEq, Eq, Structural)]
pub enum SetupError {
    /// The relation has no species.
    NoSpecies,
}

/// Why a configuration request was refused.
#[derive(Clone, Copy, Debug, PartialEq, Eq, Structural)]
pub enum RequestError {
    /// A species count of zero was asked for.
    NoSpecies,
}

/// Why a restart could not be carried out.
#[derive(Clone, Copy, Debug, PartialEq, Eq, Structural)]
pub enum RestartError {
    /// The positions handed in are not as many as the requested population.
    PositionCount,
    /// The fresh relation does not have the requested number of species.
    RelationSize,
}

/// The state of the engine: the particles, the live relation, the sizes
/// both were built with, the sizes that are asked for, and whether time is
/// stopped.
pub struct Simulation<V, T> {
    pub atoms: Vec<Atom<V>>,
    pub rel: Relation<T>,
    /// The population the particles were built with.
    pub num: usize,
    /// The species count the particles and the relation were built with.
    pub num_t: usize,
    /// The requested population.
    pub pn: usize,
    /// The requested species count.
    pub pnt: usize,
    pub paused: bool,
}

impl<V: Copy, T: Copy> Simulation<V, T> {
    /// The particles and the relation agree with the sizes they were built
    /// with, every species is a valid index into the relation, and the
    /// requested species count is positive.
    pub open spec fn wf(&self) -> bool {
        &&& self.rel.wf()
        &&& self.rel@.len() == self.num_t
        &&& self.num_t > 0
        &&& self.pnt > 0
        &&& self.atoms@.len() == self.num
        &&& forall|i: int| 0 <= i < self.atoms@.len() ==> (#[trigger] self.atoms@[i]).t < self.num_t
    }

    /// A running simulation with one particle at rest at each of
    /// `positions`, species given round-robin over the species of `rel`.
    pub fn new(positions: &Vec<V>, zero: V, rel: Relation<T>) -> (r: Result<Self, SetupError>)
        requires
            rel.wf(),
        ensures
            r is Err <==> rel@.len() == 0,
            r is Ok ==> {
                let s = r->Ok_0;
                &&& s.wf()
                &&& s.atoms@ == seeded(positions@, zero, rel@.len())
                &&& s.rel@ == rel@
                &&& s.num == positions@.len() && s.pn == s.num
                &&& s.num_t == rel@.len() && s.pnt == s.num_t
                &&& !s.paused
            },
    {
        let m = rel.dim();
        if m == 0 {
            return Err(SetupError::NoSpecies);
        }
        let atoms = seed(positions, zero, m);
        Ok(Simulation { atoms, rel, num: positions.len(), num_t: m, pn: positions.len(), pnt: m, paused: false })
    }

    /// Whether the requested sizes differ from those the state was built with.
    pub open spec fn pending(&self) -> bool {
        self.pn != self.num || self.pnt != self.num_t
    }

    pub fn needs_restart(&self) -> (b: bool)
        ensures
            b == self.pending(),
    {
        self.pn != self.num || self.pnt != self.num_t
    }

    /// Asks for a population of `pn` and `pnt` species; a species count of
    /// zero is refused and changes nothing.
    pub fn request(&mut self, pn: usize, pnt: usize) -> (r: Result<(), RequestError>)
        requires
            old(self).wf(),
        ensures
            final(self).wf(),
            r is Err <==> pnt == 0,
            r is Err ==> *final(self) == *old(self),
            r is Ok ==> *final(self) == (Simulation { pn, pnt, ..*old(self) }),
    {
        if pnt == 0 {
            return Err(RequestError::NoSpecies);
        }
        self.pn = pn;
        self.pnt = pnt;
        Ok(())
    }

    /// Rebuilds the state when the requested sizes differ from the current
    /// ones, and otherwise changes nothing (`Ok(false)`). On a restart the
    /// particles are seeded afresh at `positions`, at rest, species given
    /// round-robin; the relation keeps every coefficient among the species
    /// that remain and takes the others from `fresh`, so that with an
    /// unchanged species count it is kept whole.
    pub fn maybe_restart(&mut self, positions: &Vec<V>, zero: V, fresh: &Relation<T>) -> (r: Result<
        bool,
        RestartError,
    >)
        requires
            old(self).wf(),
            fresh.wf(),
        ensures
            final(self).wf(),
            !old(self).pending() ==> r == Ok::<bool, RestartError>(false),
            old(self).pending() && positions@.len() != old(self).pn ==> r == Err::<
                bool,
                RestartError,
            >(RestartError::PositionCount),
            old(self).pending() && positions@.len() == old(self).pn && fresh@.len() != old(self).pnt
                ==> r == Err::<bool, RestartError>(RestartError::RelationSize),
            old(self).pending() && positions@.len() == old(self).pn && fresh@.len() == old(self).pnt
                ==> r == Ok::<bool, RestartError>(true),
            r != Ok::<bool, RestartError>(true) ==> *final(self) == *old(self),
            r == Ok::<bool, RestartError>(true) ==> {
                &&& final(self).atoms@ == seeded(positions@, zero, old(self).pnt as nat)
                &&& final(self).rel@ == overlay(old(self).rel@, fresh@)
                &&& final(self).num == old(self).pn && final(self).pn == old(self).pn
                &&& final(self).num_t == old(self).pnt && final(self).pnt == old(self).pnt
                &&& final(self).paused == old(self).paused
            },
            old(self).pnt == old(self).num_t ==> final(self).rel@ == old(self).rel@,
            forall|i: int|
                0 <= i < final(self).atoms@.len() ==> (#[trigger] final(self).atoms@[i]).t
                    < final(self).num_t,
    {
        if !self.needs_restart() {
            return Ok(false);
        }
        if positions.len() != self.pn {
            return Err(RestartError::PositionCount);
        }
        if fresh.dim() != self.pnt {
            return Err(RestartError::RelationSize);
        }
        let rel = self.rel.overlaid_on(fresh);
        let atoms = seed(positions, zero, self.pnt);
        proof {
            if self.pnt == self.num_t {
                assert forall|i: int| 0 <= i < rel@.len() implies #[trigger] rel@[i] == self.rel@[i] by {
                    assert(rel@[i] =~= self.rel@[i]);
                }
                assert(rel@ =~= self.rel@);
            }
        }
        self.rel = rel;
        self.atoms = atoms;
        self.num = self.pn;
        self.num_t = self.pnt;
        Ok(true)
    }

    /// Advances the particles by one step unless time is stopped. Each
    /// particle's new position and velocity are what `step` gives for its
    /// index, the relation and the particles as they stood before the tick:
    /// no particle reads another's new state. Species do not change.
    pub fn tick<F>(&mut self, step: F)
        where
            F: Fn(&Relation<T>, &Vec<Atom<V>>, usize) -> (V, V),
        requires
            old(self).wf(),
            forall|i: usize|
                i < old(self).atoms@.len() ==> step.requires((&old(self).rel, &old(self).atoms, i)),
        ensures
            final(self).wf(),
            ticked(*old(self), *final(self), step),
    {
        if self.paused {
            return;
        }
        let n = self.atoms.len();
        let mut next: Vec<Atom<V>> = Vec::new();
        let mut i: usize = 0;
        while i < n
            invariant
                self.wf(),
                n == self.atoms@.len(),
                i <= n,
                next@.len() == i,
                forall|k: usize|
                    k < self.atoms@.len() ==> step.requires((&self.rel, &self.atoms, k)),
                forall|k: int|
                    0 <= k < i ==> {
                        &&& (#[trigger] next@[k]).t == self.atoms@[k].t
                        &&& step.ensures((&self.rel, &self.atoms, k as usize), (next@[k].pos, next@[k].vel))
                    },
            decreases n - i,
        {
            let (pos, vel) = step(&self.rel, &self.atoms, i);
            let t = self.atoms[i].t;
            next.push(Atom::new(pos, vel, t));
            i = i + 1;
        }
        self.atoms = next;
    }
}

/// `after` is what a tick with `step` makes of `before`: when time is
/// stopped nothing changes; otherwise each particle keeps its species and
/// takes the position and velocity that `step` gives for its index, the
/// relation and the particles of `before`. Sizes, requests, relation and
/// pause flag are kept.
pub open spec fn ticked<V, T, F: Fn(&Relation<T>, &Vec<Atom<V>>, usize) -> (V, V)>(
    before: Simulation<V, T>,
    after: Simulation<V, T>,
    step: F,
) -> bool {
    &&& before.paused ==> after == before
    &&& after.rel == before.rel
    &&& after.num == before.num && after.num_t == before.num_t
    &&& after.pn == before.pn && after.pnt == before.pnt
    &&& after.paused == before.paused
    &&& after.atoms@.len() == before.atoms@.len()
    &&& !before.paused ==> forall|i: int|
        0 <= i < before.atoms@.len() ==> {
            &&& (#[trigger] after.atoms@[i]).t == before.atoms@[i].t
            &&& step.ensures(
                (&before.rel, &before.atoms, i as usize),
                (after.atoms@[i].pos, after.atoms@[i].vel),
            )
        }
}

/// `step` gives at most one result for each argument.
pub open spec fn deterministic<V, T, F: Fn(&Relation<T>, &Vec<Atom<V>>, usize) -> (V, V)>(
    step: F,
) -> bool {
    forall|rel: Relation<T>, atoms: Vec<Atom<V>>, i: usize, r1: (V, V), r2: (V, V)|
        #[trigger] step.ensures((&rel, &atoms, i), r1) && #[trigger] step.ensures(
            (&rel, &atoms, i),
            r2,
        ) ==> r1 == r2
}

/// A tick adds no nondeterminism of its own: from one state, two ticks
/// with the same deterministic step leave the same particles and the same
/// configuration.
pub proof fn lemma_tick_deterministic<V, T, F: Fn(&Relation<T>, &Vec<Atom<V>>, usize) -> (V, V)>(
    before: Simulation<V, T>,
    a: Simulation<V, T>,
    b: Simulation<V, T>,
    step: F,
)
    requires
        ticked(before, a, step),
        ticked(before, b, step),
        deterministic(step),
    ensures
        a.atoms@ == b.atoms@,
        a.rel == b.rel,
        a.num == b.num && a.num_t == b.num_t,
        a.pn == b.pn && a.pnt == b.pnt,
        a.paused == b.paused,
{
    if !before.paused {
        assert forall|i: int| 0 <= i < a.atoms@.len() implies a.atoms@[i] == b.atoms@[i] by {
            let args = (&before.rel, &before.atoms, i as usize);
            assert(step.ensures(args, (a.atoms@[i].pos, a.atoms@[i].vel)));
            assert(step.ensures(args, (b.atoms@[i].pos, b.atoms@[i].vel)));
        }
    }
    assert(a.atoms@ =~= b.atoms@);
}

} // verus!
