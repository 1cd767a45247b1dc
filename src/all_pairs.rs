use vstd::prelude::*;
use crate::geometry::{ParticleVec, UnitCell};
use crate::parallel::par_for_each_index;

verus! {

/// A neighbors object that visits every pair of particles, which is the
/// same as having no neighbor list.
#[derive(Debug)]
pub struct AllPairs {
    /// The number of particles in the system
    natoms: usize,
    /// False until the first update
    initialized: bool,
}

/// The state of an `AllPairs`.
pub struct AllPairsState {
    pub natoms: nat,
    pub initialized: bool,
}

impl View for AllPairs {
    type V = AllPairsState;

    closed spec fn view(&self) -> AllPairsState {
        AllPairsState { natoms: self.natoms as nat, initialized: self.initialized }
    }
}

impl AllPairsState {
    /// Whether `each_j(i, ..)` visits `j`.
    pub open spec fn visits(&self, i: int, j: int) -> bool {
        0 <= j < i
    }
}

impl Clone for AllPairs {
    fn clone(&self) -> (r: Self)
        ensures
            r@ == self@,
    {
        AllPairs { natoms: self.natoms, initialized: self.initialized }
    }
}

impl AllPairs {
    /// Construct an `AllPairs`.
    pub fn new() -> (r: AllPairs)
        ensures
            r@.natoms == 0,
            !r@.initialized,
    {
        AllPairs { natoms: 0, initialized: false }
    }

    /// Bring the object up to date with the particles; the same as
    /// `update_neighbors`.
    pub fn ensure_updated(&mut self, cell: &UnitCell, particles: &ParticleVec)
        ensures
            final(self)@.natoms == particles.position@.len(),
            final(self)@.initialized,
    {
        self.update_neighbors(cell, particles)
    }

    /// Record the number of particles.
    pub fn update_neighbors(&mut self, cell: &UnitCell, particles: &ParticleVec)
        ensures
            final(self)@.natoms == particles.position@.len(),
            final(self)@.initialized,
    {
        self.natoms = particles.len();
        self.initialized = true;
    }

    /// There are no statistics to print.
    pub fn print_statistics(&self) {
    }

    /// Call `op(i)` for every particle index `i`, possibly in parallel.
    pub fn each_i<OP>(&self, op: OP)
        where
            OP: Fn(usize) + Sync + Send,
        requires
            self@.initialized,
            forall|i: usize| i < self@.natoms ==> op.requires((i,)),
    {
        par_for_each_index(self.natoms, op)
    }

    /// Call `op(j)` for every `j < i`, in increasing order.
    pub fn each_j<OP>(&self, i: usize, op: OP)
        where
            OP: FnMut(usize),
        requires
            forall|f: OP, j: usize| self@.visits(i as int, j as int) ==> f.requires((j,)),
    {
        let mut op = op;
        let mut j: usize = 0;
        while j < i
            invariant
                j <= i,
                forall|f: OP, k: usize| self@.visits(i as int, k as int) ==> f.requires((k,)),
            decreases i - j,
        {
            op(j);
            j = j + 1;
        }
    }
}

} // verus!
