use vstd::prelude::*;
use crate::countdown::{sanity_check_due, update_check_due, CountDown, CountDownState};
use crate::cutoffs::Cutoffs;
use crate::geometry::{copy_positions, dist2, lemma_displaced_pair, ParticleVec, UnitCell, Vector3D};
use crate::parallel::par_for_each_index;
use crate::statistics::Statistics;

verus! {

/// The indices `j < m`, in increasing order, of the particles closer to
/// particle `i` than `sqrt(cutoff2)`.
pub open spec fn close_below(cell: UnitCell, pos: Seq<Vector3D>, i: int, cutoff2: nat, m: int) -> Seq<usize>
    decreases m,
{
    if m <= 0 {
        Seq::empty()
    } else {
        let prev = close_below(cell, pos, i, cutoff2, m - 1);
        if dist2(cell, pos[i], pos[m - 1]) < cutoff2 {
            prev.push((m - 1) as usize)
        } else {
            prev
        }
    }
}

/// The directed lower-triangular adjacency of the particles at `pos`: entry
/// `i` lists every `j < i` closer than `sqrt(cutoff2)`.
pub open spec fn built_edges(cell: UnitCell, pos: Seq<Vector3D>, cutoff2: nat) -> Seq<Seq<usize>> {
    Seq::new(pos.len(), |i: int| close_below(cell, pos, i, cutoff2, i))
}

/// Every pair `j < i` closer than `sqrt(cutoff2)` at `pos` is stored in
/// `edges[i]`.
pub open spec fn complete_for(edges: Seq<Seq<usize>>, cell: UnitCell, pos: Seq<Vector3D>, cutoff2: nat) -> bool {
    forall|i: int, j: int|
        0 <= j < i < pos.len() && dist2(cell, pos[i], pos[j]) < cutoff2 ==> #[trigger] edges[i].contains(
            j as usize,
        )
}

/// Every stored endpoint is below its starting point.
pub open spec fn lower_triangular(edges: Seq<Seq<usize>>) -> bool {
    forall|i: int, k: int| 0 <= i < edges.len() && 0 <= k < edges[i].len() ==> #[trigger] edges[i][k] < i
}

/// The endpoints of each entry are stored in increasing order.
pub open spec fn ascending(edges: Seq<Seq<usize>>) -> bool {
    forall|i: int, a: int, b: int|
        0 <= i < edges.len() && 0 <= a < b < edges[i].len() ==> #[trigger] edges[i][a] < #[trigger] edges[i][b]
}

proof fn lemma_close_below(cell: UnitCell, pos: Seq<Vector3D>, i: int, cutoff2: nat, m: int)
    requires
        0 <= m <= pos.len() <= usize::MAX,
        0 <= i < pos.len(),
    ensures
        forall|j: int| 0 <= j < m ==> (close_below(cell, pos, i, cutoff2, m).contains(j as usize)
            <==> dist2(cell, pos[i], pos[j]) < cutoff2),
        forall|k: int| 0 <= k < close_below(cell, pos, i, cutoff2, m).len()
            ==> #[trigger] close_below(cell, pos, i, cutoff2, m)[k] < m,
        forall|a: int, b: int| 0 <= a < b < close_below(cell, pos, i, cutoff2, m).len()
            ==> #[trigger] close_below(cell, pos, i, cutoff2, m)[a] < #[trigger] close_below(cell, pos, i, cutoff2, m)[b],
    decreases m,
{
    if m > 0 {
        lemma_close_below(cell, pos, i, cutoff2, m - 1);
        let prev = close_below(cell, pos, i, cutoff2, m - 1);
        let cur = close_below(cell, pos, i, cutoff2, m);
        assert forall|j: int| 0 <= j < m implies (cur.contains(j as usize) <==> dist2(cell, pos[i], pos[j]) < cutoff2) by {
            if j < m - 1 {
                if cur.contains(j as usize) {
                    let k = choose|k: int| 0 <= k < cur.len() && cur[k] == j as usize;
                    if k < prev.len() {
                        assert(prev[k] == j as usize);
                    }
                }
                if prev.contains(j as usize) {
                    let k = choose|k: int| 0 <= k < prev.len() && prev[k] == j as usize;
                    assert(cur[k] == j as usize);
                }
            } else {
                if dist2(cell, pos[i], pos[m - 1]) < cutoff2 {
                    assert(cur[cur.len() - 1] == j as usize);
                } else if cur.contains(j as usize) {
                    let k = choose|k: int| 0 <= k < cur.len() && cur[k] == j as usize;
                    assert(prev[k] < m - 1);
                }
            }
        }
    }
}

proof fn lemma_rebuilt_lower_triangular(cell: UnitCell, pos: Seq<Vector3D>, cutoff2: nat)
    requires
        pos.len() <= usize::MAX,
    ensures
        lower_triangular(built_edges(cell, pos, cutoff2)),
        ascending(built_edges(cell, pos, cutoff2)),
{
    assert forall|i: int, a: int, b: int|
        0 <= i < built_edges(cell, pos, cutoff2).len() && 0 <= a < b < built_edges(cell, pos, cutoff2)[i].len() implies
        #[trigger] built_edges(cell, pos, cutoff2)[i][a] < #[trigger] built_edges(cell, pos, cutoff2)[i][b] by {
        lemma_close_below(cell, pos, i, cutoff2, i);
    }
    assert forall|i: int, k: int|
        0 <= i < built_edges(cell, pos, cutoff2).len() && 0 <= k < built_edges(cell, pos, cutoff2)[i].len() implies
        #[trigger] built_edges(cell, pos, cutoff2)[i][k] < i by {
        lemma_close_below(cell, pos, i, cutoff2, i);
    }
}

/// A list rebuilt on the positions `pos` holds exactly the pairs `j < i`
/// closer than the buffered cutoff; so it holds every pair within
/// `max_cutoff`.
pub proof fn lemma_rebuild_complete(s: DirectedState, cell: UnitCell, pos: Seq<Vector3D>)
    requires
        pos.len() <= usize::MAX,
    ensures
        complete_for(s.rebuilt(cell, pos).edges, cell, pos, s.cutoffs.update_cutoff2_spec()),
        complete_for(s.rebuilt(cell, pos).edges, cell, pos, s.cutoffs.max_cutoff2_spec()),
        forall|i: int, j: int| #[trigger] s.rebuilt(cell, pos).visits(i, j)
            ==> 0 <= j < i < pos.len() && dist2(cell, pos[i], pos[j]) < s.cutoffs.update_cutoff2_spec(),
{
    let c2 = s.cutoffs.update_cutoff2_spec();
    let e = s.rebuilt(cell, pos).edges;
    assert(s.cutoffs.max_cutoff2_spec() <= c2) by (nonlinear_arith)
        requires
            s.cutoffs.max_cutoff2_spec() == s.cutoffs.max_cutoff * s.cutoffs.max_cutoff,
            c2 == (s.cutoffs.max_cutoff + 2 * s.cutoffs.skin) * (s.cutoffs.max_cutoff + 2 * s.cutoffs.skin),
            s.cutoffs.max_cutoff >= 0,
            s.cutoffs.skin >= 0;
    assert forall|i: int, j: int| 0 <= j < i < pos.len() && dist2(cell, pos[i], pos[j]) < c2 implies #[trigger] e[i].contains(j as usize) by {
        lemma_close_below(cell, pos, i, c2, i);
    }
    assert forall|i: int, j: int| 0 <= j < i < pos.len() && dist2(cell, pos[i], pos[j]) < s.cutoffs.max_cutoff2_spec() implies #[trigger] e[i].contains(j as usize) by {
        lemma_close_below(cell, pos, i, c2, i);
    }
    assert forall|i: int, j: int| #[trigger] s.rebuilt(cell, pos).visits(i, j)
        implies 0 <= j < i < pos.len() && dist2(cell, pos[i], pos[j]) < c2 by {
        lemma_close_below(cell, pos, i, c2, i);
        let k = choose|k: int| 0 <= k < e[i].len() && e[i][k] == j as usize;
        assert(e[i][k] < i);
    }
}

/// Every state that the list can reach stores each pair only from its larger
/// index to its smaller one.
pub proof fn lemma_lower_triangular(s: DirectedState)
    requires
        s.wf(),
    ensures
        forall|i: int, j: int| #[trigger] s.visits(i, j) ==> j < i,
{
    assert forall|i: int, j: int| #[trigger] s.visits(i, j) implies j < i by {
        let k = choose|k: int| 0 <= k < s.edges[i].len() && s.edges[i][k] == j as usize;
        assert(s.edges[i][k] < i);
    }
}

/// While no particle has moved further than `skin` from the positions the
/// list was built on, the list still holds every pair within `max_cutoff`
/// at the current positions.
pub proof fn lemma_drift_guard(cutoffs: Cutoffs, cell: UnitCell, snapshot: Seq<Vector3D>, pos: Seq<Vector3D>)
    requires
        snapshot.len() == pos.len() <= usize::MAX,
        !cutoffs.drifted(snapshot, cell, pos),
    ensures
        complete_for(built_edges(cell, snapshot, cutoffs.update_cutoff2_spec()), cell, pos, cutoffs.max_cutoff2_spec()),
{
    let c2 = cutoffs.update_cutoff2_spec();
    let e = built_edges(cell, snapshot, c2);
    let m = cutoffs.max_cutoff as nat;
    let sk = cutoffs.skin as nat;
    assert forall|i: int, j: int|
        0 <= j < i < pos.len() && dist2(cell, pos[i], pos[j]) < cutoffs.max_cutoff2_spec() implies #[trigger] e[i].contains(
            j as usize,
        ) by {
        assert(dist2(cell, snapshot[i], pos[i]) <= cutoffs.skin2_spec());
        assert(dist2(cell, snapshot[j], pos[j]) <= cutoffs.skin2_spec());
        lemma_displaced_pair(cell, snapshot[i], snapshot[j], pos[i], pos[j], m, sk);
        lemma_close_below(cell, snapshot, i, c2, i);
    }
}

/// Rebuilding twice on the same positions gives the same list and the same
/// snapshot as rebuilding once.
pub proof fn lemma_rebuild_idempotent(s: DirectedState, cell: UnitCell, pos: Seq<Vector3D>)
    ensures
        s.rebuilt(cell, pos).rebuilt(cell, pos) == s.rebuilt(cell, pos),
{
}

/// A pair that the sanity check found missing from the neighbor list.
#[derive(Clone, Copy, Debug, PartialEq, Eq, Structural)]
pub struct SanityViolation {
    pub i: usize,
    pub j: usize,
    /// Their squared distance
    pub r2: u128,
}

/// A directed Verlet neighbor list: entry `i` holds the particles `j < i`
/// that were within the buffered cutoff at the last update.
#[derive(Debug)]
pub struct DirectedLinkedList {
    /// Decides when to examine the list
    countdown: CountDown,
    /// Decides whether the list needs an update
    cutoffs: Cutoffs,
    /// False until the first update
    initialized: bool,
    /// The adjacency, indexed by the starting point
    edges: Vec<Vec<usize>>,
    /// The particle positions at the last update
    position_snapshot: Vec<Vector3D>,
}

/// The state of a `DirectedLinkedList`.
pub struct DirectedState {
    pub countdown: CountDownState,
    pub cutoffs: Cutoffs,
    pub initialized: bool,
    pub edges: Seq<Seq<usize>>,
    pub snapshot: Seq<Vector3D>,
}

impl View for DirectedLinkedList {
    type V = DirectedState;

    closed spec fn view(&self) -> DirectedState {
        DirectedState {
            countdown: self.countdown@,
            cutoffs: self.cutoffs,
            initialized: self.initialized,
            edges: self.edges@.map_values(|e: Vec<usize>| e@),
            snapshot: self.position_snapshot@,
        }
    }
}

impl DirectedState {
    pub open spec fn wf(&self) -> bool {
        &&& self.countdown.wf()
        &&& self.edges.len() == self.snapshot.len()
        &&& lower_triangular(self.edges)
        &&& ascending(self.edges)
    }

    /// Whether `each_j(i, ..)` visits `j`.
    pub open spec fn visits(&self, i: int, j: int) -> bool {
        0 <= i < self.edges.len() && 0 <= j <= usize::MAX && self.edges[i].contains(j as usize)
    }

    /// The state after a rebuild on the positions `pos`.
    pub open spec fn rebuilt(self, cell: UnitCell, pos: Seq<Vector3D>) -> DirectedState {
        DirectedState {
            edges: built_edges(cell, pos, self.cutoffs.update_cutoff2_spec()),
            snapshot: pos,
            initialized: true,
            ..self
        }
    }

    /// Whether the next step brings an update check.
    pub open spec fn check_due(&self) -> bool {
        update_check_due(
            self.countdown.step_counter + 1,
            self.countdown.delay,
            self.countdown.steps_per_update_check,
        )
    }

    /// Whether `ensure_updated` may run on `n` particles: the counters have
    /// room, and the particle count has not changed since the last rebuild
    /// if the list is to be examined.
    pub open spec fn ready_for_step(&self, n: nat) -> bool {
        &&& self.wf()
        &&& self.countdown.can_step()
        &&& self.countdown.can_update()
        &&& self.check_due() ==> self.snapshot.len() == n
    }

    /// What one call of `ensure_updated` on the particles at `pos` does:
    /// `next` is the state it leaves and `r` what it returns.
    pub open spec fn stepped(self, cell: UnitCell, pos: Seq<Vector3D>, next: DirectedState, r: Result<(), SanityViolation>) -> bool {
        let s = self;
        let c1 = s.countdown.after_step(s.check_due());
        if !s.check_due() || !s.cutoffs.drifted(s.snapshot, cell, pos) {
            r is Ok && next == s.with_countdown(c1)
        } else {
            let audit = sanity_check_due(c1.update_counter + 1, c1.updates_per_sanity_check);
            let c2 = c1.after_update(audit);
            if audit && !complete_for(s.edges, cell, pos, s.cutoffs.max_cutoff2_spec()) {
                &&& next == s.with_countdown(c2)
                &&& r matches Err(v) && {
                    &&& v.j < v.i < pos.len()
                    &&& v.r2 == dist2(cell, pos[v.i as int], pos[v.j as int])
                    &&& v.r2 < s.cutoffs.max_cutoff2_spec()
                    &&& !s.edges[v.i as int].contains(v.j)
                }
            } else {
                r is Ok && next == s.with_countdown(c2).rebuilt(cell, pos)
            }
        }
    }

    /// The same state with another countdown.
    pub open spec fn with_countdown(self, countdown: CountDownState) -> DirectedState {
        DirectedState { countdown, ..self }
    }
}

fn stored(list: &Vec<usize>, j: usize) -> (r: bool)
    ensures
        r == list@.contains(j),
{
    let mut k: usize = 0;
    while k < list.len()
        invariant
            k <= list@.len(),
            forall|m: int| 0 <= m < k ==> list@[m] != j,
        decreases list@.len() - k,
    {
        if list[k] == j {
            return true;
        }
        k = k + 1;
    }
    false
}

fn copy_indices(v: &Vec<usize>) -> (r: Vec<usize>)
    ensures
        r@ == v@,
{
    let mut r: Vec<usize> = Vec::new();
    let mut k: usize = 0;
    while k < v.len()
        invariant
            k <= v@.len(),
            r@ == v@.subrange(0, k as int),
        decreases v@.len() - k,
    {
        r.push(v[k]);
        k = k + 1;
    }
    assert(r@ =~= v@);
    r
}

/// A clone owns its own copy of the adjacency and of the snapshot.
impl Clone for DirectedLinkedList {
    fn clone(&self) -> (r: Self)
        ensures
            r@ == self@,
    {
        let mut edges: Vec<Vec<usize>> = Vec::new();
        let mut i: usize = 0;
        while i < self.edges.len()
            invariant
                i <= self.edges@.len(),
                edges@.len() == i,
                forall|k: int| 0 <= k < i ==> #[trigger] edges@[k]@ == self.edges@[k]@,
            decreases self.edges@.len() - i,
        {
            edges.push(copy_indices(&self.edges[i]));
            i = i + 1;
        }
        let r = DirectedLinkedList {
            countdown: self.countdown.clone(),
            cutoffs: self.cutoffs,
            initialized: self.initialized,
            edges,
            position_snapshot: copy_positions(&self.position_snapshot),
        };
        assert(r@.edges =~= self@.edges);
        r
    }
}

impl DirectedLinkedList {
    /// Construct a new, empty, list.
    pub fn new(countdown: CountDown, cutoffs: Cutoffs) -> (r: DirectedLinkedList)
        requires
            countdown@.wf(),
            cutoffs.skin > 0,
        ensures
            r@.wf(),
            r@.countdown == countdown@,
            r@.cutoffs == cutoffs,
            !r@.initialized,
            r@.edges == Seq::<Seq<usize>>::empty(),
            r@.snapshot == Seq::<Vector3D>::empty(),
    {
        let r = DirectedLinkedList {
            countdown,
            cutoffs,
            initialized: false,
            edges: Vec::new(),
            position_snapshot: Vec::new(),
        };
        assert(r@.edges =~= Seq::<Seq<usize>>::empty());
        r
    }

    /// Audit the list: look for a pair within `max_cutoff` of each other
    /// that is missing from it.
    pub fn sanity_check(&self, cell: &UnitCell, particles: &ParticleVec) -> (r: Result<(), SanityViolation>)
        requires
            particles.position@.len() <= self@.edges.len(),
        ensures
            r is Ok <==> complete_for(self@.edges, *cell, particles.position@, self@.cutoffs.max_cutoff2_spec()),
            r matches Err(v) ==> {
                &&& v.j < v.i < particles.position@.len()
                &&& v.r2 == dist2(*cell, particles.position@[v.i as int], particles.position@[v.j as int])
                &&& v.r2 < self@.cutoffs.max_cutoff2_spec()
                &&& !self@.edges[v.i as int].contains(v.j)
            },
    {
        let max_cutoff2 = self.cutoffs.max_cutoff2();
        let n = particles.len();
        let ghost pos = particles.position@;
        let ghost c2 = self@.cutoffs.max_cutoff2_spec();
        let mut i: usize = 0;
        while i < n
            invariant
                n == pos.len(),
                pos == particles.position@,
                n <= self@.edges.len(),
                max_cutoff2 == c2,
                c2 == self@.cutoffs.max_cutoff2_spec(),
                i <= n,
                forall|a: int, b: int|
                    0 <= b < a < i && dist2(*cell, pos[a], pos[b]) < c2 ==> #[trigger] self@.edges[a].contains(
                        b as usize,
                    ),
            decreases n - i,
        {
            let xi = particles.position[i];
            let mut j: usize = 0;
            while j < i
                invariant
                    n == pos.len(),
                    pos == particles.position@,
                    n <= self@.edges.len(),
                    max_cutoff2 == c2,
                    c2 == self@.cutoffs.max_cutoff2_spec(),
                    i < n,
                    j <= i,
                    xi == pos[i as int],
                    forall|a: int, b: int|
                        0 <= b < a < i && dist2(*cell, pos[a], pos[b]) < c2 ==> #[trigger] self@.edges[a].contains(
                            b as usize,
                        ),
                    forall|b: int|
                        0 <= b < j && dist2(*cell, pos[i as int], pos[b]) < c2 ==> #[trigger] self@.edges[i as int].contains(
                            b as usize,
                        ),
                decreases i - j,
            {
                let xj = particles.position[j];
                let r2 = cell.distance2(&xi, &xj);
                if r2 < max_cutoff2 && !stored(&self.edges[i], j) {
                    assert(self.edges@[i as int]@ == self@.edges[i as int]);
                    let ghost (a, b) = (i as int, j as int);
                    assert(0 <= b < a < pos.len() && dist2(*cell, pos[a], pos[b]) < c2);
                    assert(!self@.edges[a].contains(b as usize));
                    return Err(SanityViolation { i, j, r2 });
                }
                assert(self.edges@[i as int]@ == self@.edges[i as int]);
                j = j + 1;
            }
            i = i + 1;
        }
        Ok(())
    }

    /// Rebuild the list: store every pair `j < i` within the buffered
    /// cutoff, and remember the current positions.
    pub fn update_neighbors(&mut self, cell: &UnitCell, particles: &ParticleVec)
        requires
            old(self)@.wf(),
        ensures
            final(self)@ == old(self)@.rebuilt(*cell, particles.position@),
            final(self)@.wf(),
    {
        let update_cutoff2 = self.cutoffs.update_cutoff2();
        let ghost c2 = self@.cutoffs.update_cutoff2_spec();
        let ghost pos = particles.position@;
        let n = particles.len();
        let mut edges: Vec<Vec<usize>> = Vec::new();
        let mut i: usize = 0;
        while i < n
            invariant
                n == pos.len(),
                pos == particles.position@,
                update_cutoff2 == c2,
                i <= n,
                edges@.len() == i,
                forall|k: int| 0 <= k < i ==> #[trigger] edges@[k]@ == close_below(*cell, pos, k, c2, k),
            decreases n - i,
        {
            let xi = particles.position[i];
            let mut ni: Vec<usize> = Vec::new();
            let mut j: usize = 0;
            while j < i
                invariant
                    n == pos.len(),
                    pos == particles.position@,
                    update_cutoff2 == c2,
                    i < n,
                    j <= i,
                    xi == pos[i as int],
                    ni@ == close_below(*cell, pos, i as int, c2, j as int),
                decreases i - j,
            {
                let xj = particles.position[j];
                if cell.distance2(&xi, &xj) < update_cutoff2 {
                    ni.push(j);
                }
                j = j + 1;
            }
            edges.push(ni);
            i = i + 1;
        }
        let snapshot = copy_positions(&particles.position);
        self.edges = edges;
        self.position_snapshot = snapshot;
        self.initialized = true;
        assert(self@.edges =~= built_edges(*cell, pos, c2));
        proof {
            lemma_rebuilt_lower_triangular(*cell, pos, c2);
        }
    }

    /// Called once per step: examine the list when the countdown says so,
    /// and rebuild it when a particle has moved further than `skin`. Before
    /// a rebuild that the countdown marks for an audit, the outgoing list is
    /// audited; a pair found missing is returned as an error, and the
    /// adjacency and snapshot are then left as they were.
    pub fn ensure_updated(&mut self, cell: &UnitCell, particles: &ParticleVec) -> (r: Result<(), SanityViolation>)
        requires
            old(self)@.ready_for_step(particles.position@.len()),
        ensures
            final(self)@.wf(),
            old(self)@.stepped(*cell, particles.position@, final(self)@, r),
    {
        if self.countdown.needs_update_check() {
            if self.cutoffs.needs_update(self.position_snapshot.as_slice(), cell, particles) {
                if self.countdown.needs_sanity_check() {
                    match self.sanity_check(cell, particles) {
                        Err(v) => {
                            return Err(v);
                        },
                        Ok(()) => {},
                    }
                }
                self.update_neighbors(cell, particles);
            }
        }
        Ok(())
    }

    /// Whether `ensure_updated` may run on `n` particles.
    pub fn is_ready_for_step(&self, n: usize) -> (r: bool)
        requires
            self@.wf(),
        ensures
            r == self@.ready_for_step(n as nat),
    {
        self.countdown.has_room() && (!self.countdown.next_step_checks() || self.position_snapshot.len() == n)
    }

    /// The statistics of the countdown.
    pub fn statistics(&self) -> (r: &Statistics)
        ensures
            *r == self@.countdown.statistics,
    {
        self.countdown.statistics()
    }

    /// Call `op(i)` for every starting point `i`, possibly in parallel.
    pub fn each_i<OP>(&self, op: OP)
        where
            OP: Fn(usize) + Sync + Send,
        requires
            self@.initialized,
            forall|i: usize| i < self@.edges.len() ==> op.requires((i,)),
    {
        par_for_each_index(self.edges.len(), op)
    }

    /// Call `op(j)` for every endpoint `j` stored for `i`, in storage order.
    pub fn each_j<OP>(&self, i: usize, op: OP)
        where
            OP: FnMut(usize),
        requires
            i < self@.edges.len(),
            forall|f: OP, j: usize| self@.visits(i as int, j as int) ==> f.requires((j,)),
    {
        let mut op = op;
        let list = &self.edges[i];
        assert(list@ == self@.edges[i as int]);
        let mut k: usize = 0;
        while k < list.len()
            invariant
                list@ == self@.edges[i as int],
                i < self@.edges.len(),
                k <= list@.len(),
                forall|f: OP, j: usize| self@.visits(i as int, j as int) ==> f.requires((j,)),
            decreases list@.len() - k,
        {
            assert(self@.visits(i as int, list@[k as int] as int));
            op(list[k]);
            k = k + 1;
        }
    }
}

} // verus!
