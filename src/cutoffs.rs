use vstd::prelude::*;
use crate::geometry::{dist2, ParticleVec, UnitCell, Vector3D};

verus! {

/// How far apart two particles may be and still need an entry in the
/// neighbor list, and how far a particle may travel before the list must be
/// rebuilt.
#[derive(Clone, Copy, Debug, PartialEq, Eq, Structural)]
pub struct Cutoffs {
    /// The largest interaction radius of the pair potentials
    pub max_cutoff: u32,
    /// The largest distance a particle may move without forcing an update
    pub skin: u32,
}

impl Cutoffs {
    pub open spec fn max_cutoff2_spec(&self) -> nat {
        (self.max_cutoff * self.max_cutoff) as nat
    }

    pub open spec fn skin2_spec(&self) -> nat {
        (self.skin * self.skin) as nat
    }

    /// Pairs closer than this are stored at a rebuild: two particles may
    /// each move up to `skin` before the list is examined again.
    pub open spec fn update_cutoff2_spec(&self) -> nat {
        ((self.max_cutoff + 2 * self.skin) * (self.max_cutoff + 2 * self.skin)) as nat
    }

    /// Whether some particle has moved further than `skin` from its
    /// position in `snapshot`.
    pub open spec fn drifted(&self, snapshot: Seq<Vector3D>, cell: UnitCell, position: Seq<Vector3D>) -> bool {
        exists|k: int| 0 <= k < snapshot.len() && dist2(cell, snapshot[k], position[k]) > self.skin2_spec()
    }

    /// Construct new cutoffs.
    pub fn new(max_cutoff: u32, skin: u32) -> (r: Self)
        requires
            skin > 0,
        ensures
            r == (Cutoffs { max_cutoff, skin }),
    {
        Cutoffs { max_cutoff, skin }
    }

    /// Pairs closer than this must be in the neighbor list.
    pub fn max_cutoff2(&self) -> (r: u128)
        ensures
            r == self.max_cutoff2_spec(),
    {
        let m = self.max_cutoff as u128;
        proof {
            assert(m * m <= 0xffff_ffff * 0xffff_ffff) by (nonlinear_arith)
                requires m <= 0xffff_ffff;
        }
        m * m
    }

    /// A particle that moved further than this (squared) forces an update.
    pub fn skin2(&self) -> (r: u128)
        ensures
            r == self.skin2_spec(),
    {
        let s = self.skin as u128;
        proof {
            assert(s * s <= 0xffff_ffff * 0xffff_ffff) by (nonlinear_arith)
                requires s <= 0xffff_ffff;
        }
        s * s
    }

    /// Pairs closer than this are added to the neighbor list at an update.
    pub fn update_cutoff2(&self) -> (r: u128)
        ensures
            r == self.update_cutoff2_spec(),
    {
        let d = self.max_cutoff as u128 + 2 * self.skin as u128;
        proof {
            assert(d * d <= 0x3_0000_0000 * 0x3_0000_0000) by (nonlinear_arith)
                requires d <= 0x3_0000_0000;
        }
        d * d
    }

    /// Returns true if any particle has moved far enough from its position
    /// at the last update to warrant a new one.
    pub fn needs_update(&self, positions_at_last_update: &[Vector3D], cell: &UnitCell, particles: &ParticleVec) -> (r: bool)
        requires
            positions_at_last_update@.len() == particles.position@.len(),
        ensures
            r == self.drifted(positions_at_last_update@, *cell, particles.position@),
    {
        let skin2 = self.skin2();
        let n = positions_at_last_update.len();
        let mut k: usize = 0;
        while k < n
            invariant
                n == positions_at_last_update@.len(),
                n == particles.position@.len(),
                skin2 == self.skin2_spec(),
                0 <= k <= n,
                forall|m: int| 0 <= m < k ==> dist2(*cell, positions_at_last_update@[m], particles.position@[m]) <= self.skin2_spec(),
            decreases n - k,
        {
            let r2 = cell.distance2(&positions_at_last_update[k], &particles.position[k]);
            if r2 > skin2 {
                return true;
            }
            k = k + 1;
        }
        false
    }
}

} // verus!
