use vstd::prelude::*;
use crate::all_pairs::AllPairs;
use crate::countdown::CountDown;
use crate::cutoffs::Cutoffs;
use crate::directed_linked_list::{built_edges, DirectedLinkedList, SanityViolation};
use crate::geometry::{dist2, ParticleVec, UnitCell, Vector3D};
use crate::statistics::Statistics;

verus! {

/// The neighbor backends behind one interface.
#[derive(Debug)]
pub enum Neighbors {
    /// Visit every pair of particles; no neighbor list at all
    AllPairs(AllPairs),
    /// A directed Verlet list
    Directed(Box<DirectedLinkedList>),
}

impl Clone for Neighbors {
    fn clone(&self) -> (r: Self)
        ensures
            match (*self, r) {
                (Neighbors::AllPairs(a), Neighbors::AllPairs(b)) => b@ == a@,
                (Neighbors::Directed(a), Neighbors::Directed(b)) => b@ == a@,
                _ => false,
            },
    {
        match self {
            Neighbors::AllPairs(neighbors) => Neighbors::AllPairs(neighbors.clone()),
            Neighbors::Directed(neighbors) => Neighbors::Directed(Box::new(DirectedLinkedList::clone(neighbors))),
        }
    }
}

impl Neighbors {
    pub open spec fn wf(&self) -> bool {
        match self {
            Neighbors::AllPairs(_) => true,
            Neighbors::Directed(d) => d@.wf(),
        }
    }

    pub open spec fn initialized(&self) -> bool {
        match self {
            Neighbors::AllPairs(a) => a@.initialized,
            Neighbors::Directed(d) => d@.initialized,
        }
    }

    /// The number of starting points that `each_i` visits.
    pub open spec fn starts(&self) -> nat {
        match self {
            Neighbors::AllPairs(a) => a@.natoms,
            Neighbors::Directed(d) => d@.edges.len(),
        }
    }

    /// Whether `each_j(i, ..)` visits `j`.
    pub open spec fn visits(&self, i: int, j: int) -> bool {
        match self {
            Neighbors::AllPairs(a) => a@.visits(i, j),
            Neighbors::Directed(d) => d@.visits(i, j),
        }
    }

    /// Whether a traversal with `each_i` and `each_j` visits the pair.
    pub open spec fn visits_pair(&self, i: int, j: int) -> bool {
        0 <= i < self.starts() && self.visits(i, j)
    }

    /// Whether `ensure_updated` may run on `n` particles.
    pub open spec fn ready_for_step(&self, n: nat) -> bool {
        match self {
            Neighbors::AllPairs(_) => true,
            Neighbors::Directed(d) => d@.ready_for_step(n),
        }
    }

    /// Construct the all-pairs variant.
    pub fn new_all_pairs() -> (r: Neighbors)
        ensures
            r matches Neighbors::AllPairs(a) && a@.natoms == 0 && !a@.initialized,
    {
        Neighbors::AllPairs(AllPairs::new())
    }

    /// Construct a directed Verlet list. `max_cutoff` is the largest
    /// interaction radius, `skin` how far a particle may move before the
    /// list is rebuilt, `delay` the number of steps after a rebuild before
    /// the first update check, `steps_per_update_check` the stride of the
    /// later checks, and `updates_per_sanity_check` the number of rebuilds
    /// between two audits (`None`: no audits).
    pub fn new_directed_linkedlist(
        max_cutoff: u32,
        skin: u32,
        delay: u64,
        steps_per_update_check: u64,
        updates_per_sanity_check: Option<u64>,
    ) -> (r: Neighbors)
        requires
            skin > 0,
            steps_per_update_check >= 1,
            updates_per_sanity_check != Some(0u64),
        ensures
            r.wf(),
            r matches Neighbors::Directed(d) && {
                &&& d@.cutoffs == (Cutoffs { max_cutoff, skin })
                &&& d@.countdown.delay == delay
                &&& d@.countdown.steps_per_update_check == steps_per_update_check
                &&& d@.countdown.updates_per_sanity_check == match updates_per_sanity_check {
                    Some(k) => Some(k as nat),
                    None => None::<nat>,
                }
                &&& d@.countdown.step_counter == 0
                &&& d@.countdown.update_counter == 0
                &&& d@.countdown.statistics == (Statistics { steps: 0, update_checks: 0, updates: 0, sanity_checks: 0 })
                &&& !d@.initialized
                &&& d@.edges.len() == 0
                &&& d@.snapshot.len() == 0
            },
    {
        let countdown = CountDown::new(delay, steps_per_update_check, updates_per_sanity_check);
        let cutoffs = Cutoffs::new(max_cutoff, skin);
        Neighbors::Directed(Box::new(DirectedLinkedList::new(countdown, cutoffs)))
    }

    /// Called once per step: bring the backend up to date with the
    /// particles. An error names a pair that an audit found missing.
    pub fn ensure_updated(&mut self, cell: &UnitCell, particles: &ParticleVec) -> (r: Result<(), SanityViolation>)
        requires
            old(self).ready_for_step(particles.position@.len()),
        ensures
            final(self).wf(),
            match (*old(self), *final(self)) {
                (Neighbors::AllPairs(_), Neighbors::AllPairs(a)) => {
                    r is Ok && a@.natoms == particles.position@.len() && a@.initialized
                },
                (Neighbors::Directed(d0), Neighbors::Directed(d1)) => {
                    d0@.stepped(*cell, particles.position@, d1@, r)
                },
                _ => false,
            },
    {
        match self {
            Neighbors::AllPairs(neighbors) => {
                neighbors.ensure_updated(cell, particles);
                Ok(())
            },
            Neighbors::Directed(neighbors) => neighbors.ensure_updated(cell, particles),
        }
    }

    /// Whether `ensure_updated` may run on `n` particles.
    pub fn is_ready_for_step(&self, n: usize) -> (r: bool)
        requires
            self.wf(),
        ensures
            r == self.ready_for_step(n as nat),
    {
        match self {
            Neighbors::AllPairs(_) => true,
            Neighbors::Directed(neighbors) => neighbors.is_ready_for_step(n),
        }
    }

    /// Rebuild the backend now.
    pub fn update_neighbors(&mut self, cell: &UnitCell, particles: &ParticleVec)
        requires
            old(self).wf(),
        ensures
            final(self).wf(),
            final(self).initialized(),
            match (*old(self), *final(self)) {
                (Neighbors::AllPairs(_), Neighbors::AllPairs(a)) => a@.natoms == particles.position@.len(),
                (Neighbors::Directed(d0), Neighbors::Directed(d1)) => {
                    d1@ == d0@.rebuilt(*cell, particles.position@)
                },
                _ => false,
            },
    {
        match self {
            Neighbors::AllPairs(neighbors) => neighbors.update_neighbors(cell, particles),
            Neighbors::Directed(neighbors) => neighbors.update_neighbors(cell, particles),
        }
    }

    /// The statistics of the backend, where it keeps any.
    pub fn statistics(&self) -> (r: Option<Statistics>)
        ensures
            match self {
                Neighbors::AllPairs(_) => r is None,
                Neighbors::Directed(d) => r == Some(d@.countdown.statistics),
            },
    {
        match self {
            Neighbors::AllPairs(_) => None,
            Neighbors::Directed(neighbors) => Some(*neighbors.statistics()),
        }
    }

    /// Call `op(i)` for every starting point `i`, possibly in parallel.
    pub fn each_i<OP>(&self, op: OP)
        where
            OP: Fn(usize) + Sync + Send,
        requires
            self.initialized(),
            forall|i: usize| i < self.starts() ==> op.requires((i,)),
    {
        match self {
            Neighbors::AllPairs(neighbors) => neighbors.each_i(op),
            Neighbors::Directed(neighbors) => neighbors.each_i(op),
        }
    }

    /// Call `op(j)` for every endpoint `j` of the pairs that start at `i`,
    /// in increasing order.
    pub fn each_j<OP>(&self, i: usize, op: OP)
        where
            OP: FnMut(usize),
        requires
            self is Directed ==> i < self.starts(),
            forall|f: OP, j: usize| self.visits(i as int, j as int) ==> f.requires((j,)),
    {
        match self {
            Neighbors::AllPairs(nlist) => nlist.each_j(i, op),
            Neighbors::Directed(nlist) => nlist.each_j(i, op),
        }
    }
}

/// On positions that have not moved since the last update of both, the
/// all-pairs backend and the Verlet list visit the same pairs within
/// `max_cutoff`.
pub proof fn lemma_backends_agree(all: Neighbors, list: Neighbors, cell: UnitCell, pos: Seq<Vector3D>)
    requires
        pos.len() <= usize::MAX,
        all matches Neighbors::AllPairs(a) && a@.natoms == pos.len(),
        list matches Neighbors::Directed(d) && d@.edges == built_edges(cell, pos, d@.cutoffs.update_cutoff2_spec()),
    ensures
        list matches Neighbors::Directed(d) && forall|i: int, j: int|
            (#[trigger] all.visits_pair(i, j) && dist2(cell, pos[i], pos[j]) < d@.cutoffs.max_cutoff2_spec())
            <==> (#[trigger] list.visits_pair(i, j) && dist2(cell, pos[i], pos[j]) < d@.cutoffs.max_cutoff2_spec()),
{
    if let Neighbors::Directed(d) = list {
        crate::directed_linked_list::lemma_rebuild_complete(d@, cell, pos);
        assert(d@.rebuilt(cell, pos).edges == d@.edges);
        assert forall|i: int, j: int|
            (#[trigger] all.visits_pair(i, j) && dist2(cell, pos[i], pos[j]) < d@.cutoffs.max_cutoff2_spec())
            <==> (#[trigger] list.visits_pair(i, j) && dist2(cell, pos[i], pos[j]) < d@.cutoffs.max_cutoff2_spec()) by {
            if list.visits_pair(i, j) {
                assert(d@.rebuilt(cell, pos).visits(i, j));
            }
        }
    }
}

} // verus!
