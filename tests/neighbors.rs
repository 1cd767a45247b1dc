use std::collections::BTreeSet;
use std::sync::atomic::{AtomicUsize, Ordering};

use lumol_neighbors::{
    AllPairs, CountDown, Cutoffs, DirectedLinkedList, Neighbors, ParticleVec, UnitCell, Vector3D,
};

/// A simple cubic lattice of `n` x `n` x `n` sites.
fn lattice(n: i32, spacing: i32) -> ParticleVec {
    let mut position = Vec::new();
    for i in 0..n {
        for j in 0..n {
            for k in 0..n {
                position.push(Vector3D::new(i * spacing, j * spacing, k * spacing));
            }
        }
    }
    ParticleVec::with_positions(position)
}

fn visited_pairs(neighbors: &Neighbors, n: usize) -> Vec<(usize, usize)> {
    let mut pairs = Vec::new();
    for i in 0..n {
        neighbors.each_j(i, |j| pairs.push((i, j)));
    }
    pairs
}

fn close_pairs(
    neighbors: &Neighbors,
    cell: &UnitCell,
    particles: &ParticleVec,
    cutoff2: u128,
) -> BTreeSet<(usize, usize)> {
    visited_pairs(neighbors, particles.len())
        .into_iter()
        .filter(|&(i, j)| cell.distance2(&particles.position[i], &particles.position[j]) < cutoff2)
        .collect()
}

// lattice spacing 3.4 and cell side 17.0, cutoff 8.5 and skin 1.0, in tenths
const SPACING: i32 = 34;
const SIDE: u32 = 170;
const MAX_CUTOFF: u32 = 85;
const SKIN: u32 = 10;

#[test]
fn all_pairs_visits_every_lower_pair() {
    let cell = UnitCell::cubic(SIDE);
    let particles = lattice(2, SPACING);
    let mut all = AllPairs::new();
    all.update_neighbors(&cell, &particles);
    let mut seen = Vec::new();
    all.each_j(3, |j| seen.push(j));
    assert_eq!(seen, vec![0, 1, 2]);
    let mut none = Vec::new();
    all.each_j(0, |j| none.push(j));
    assert!(none.is_empty());
    let count = AtomicUsize::new(0);
    all.each_i(|i| {
        count.fetch_add(i + 1, Ordering::SeqCst);
    });
    // 1 + 2 + ... + 8
    assert_eq!(count.load(Ordering::SeqCst), 36);
}

#[test]
fn rebuild_is_complete_and_lower_triangular() {
    let cell = UnitCell::cubic(SIDE);
    let particles = lattice(5, SPACING);
    let mut list = Neighbors::new_directed_linkedlist(MAX_CUTOFF, SKIN, 0, 2, None);
    list.update_neighbors(&cell, &particles);
    let stored: BTreeSet<(usize, usize)> = visited_pairs(&list, 125).into_iter().collect();
    let update2 = ((MAX_CUTOFF + 2 * SKIN) as u128).pow(2);
    let max2 = (MAX_CUTOFF as u128).pow(2);
    for i in 0..125 {
        for j in 0..125 {
            let r2 = cell.distance2(&particles.position[i], &particles.position[j]);
            if j < i {
                assert_eq!(stored.contains(&(i, j)), r2 < update2);
                if r2 < max2 {
                    assert!(stored.contains(&(i, j)));
                }
            } else {
                assert!(!stored.contains(&(i, j)));
            }
        }
    }
    let mut order = Vec::new();
    list.each_j(124, |j| order.push(j));
    assert!(!order.is_empty());
    assert!(order.windows(2).all(|w| w[0] < w[1]));
}

#[test]
fn rebuild_twice_is_idempotent() {
    let cell = UnitCell::cubic(SIDE);
    let particles = lattice(3, SPACING);
    let mut list = Neighbors::new_directed_linkedlist(MAX_CUTOFF, SKIN, 0, 1, None);
    list.update_neighbors(&cell, &particles);
    let first = visited_pairs(&list, 27);
    let copy = list.clone();
    list.update_neighbors(&cell, &particles);
    assert_eq!(visited_pairs(&list, 27), first);
    assert_eq!(visited_pairs(&copy, 27), first);
}

#[test]
fn backends_agree_on_static_lattice() {
    let cell = UnitCell::cubic(SIDE);
    let particles = lattice(5, SPACING);
    let max2 = (MAX_CUTOFF as u128).pow(2);
    let mut all = Neighbors::new_all_pairs();
    let mut list = Neighbors::new_directed_linkedlist(MAX_CUTOFF, SKIN, 0, 2, None);
    all.update_neighbors(&cell, &particles);
    list.update_neighbors(&cell, &particles);
    let a = close_pairs(&all, &cell, &particles, max2);
    let b = close_pairs(&list, &cell, &particles, max2);
    assert!(!a.is_empty());
    assert_eq!(a, b);
}

#[test]
fn static_lattice_never_rebuilds() {
    let cell = UnitCell::cubic(SIDE);
    let particles = lattice(5, SPACING);
    let mut list = Neighbors::new_directed_linkedlist(MAX_CUTOFF, SKIN, 0, 2, Some(1));
    list.update_neighbors(&cell, &particles);
    let before = visited_pairs(&list, 125);
    for _ in 0..50_000 {
        assert!(list.is_ready_for_step(particles.len()));
        assert_eq!(list.ensure_updated(&cell, &particles), Ok(()));
    }
    let stats = list.statistics().unwrap();
    assert_eq!(stats.steps, 50_000);
    assert_eq!(stats.update_checks, 25_000);
    assert_eq!(stats.updates, 0);
    assert_eq!(stats.sanity_checks, 0);
    assert_eq!(visited_pairs(&list, 125), before);
}

#[test]
fn teleported_particle_forces_one_rebuild() {
    let cell = UnitCell::cubic(SIDE);
    let mut particles = lattice(3, SPACING);
    let delay = 3;
    let mut list = Neighbors::new_directed_linkedlist(MAX_CUTOFF, SKIN, delay, 2, None);
    list.update_neighbors(&cell, &particles);
    for _ in 0..delay {
        assert_eq!(list.ensure_updated(&cell, &particles), Ok(()));
    }
    assert_eq!(list.statistics().unwrap().updates, 0);
    particles.position[0].x += 2 * SKIN as i32;
    assert_eq!(list.ensure_updated(&cell, &particles), Ok(()));
    let stats = list.statistics().unwrap();
    assert_eq!(stats.updates, 1);
    assert_eq!(stats.update_checks, 1);

    let max2 = (MAX_CUTOFF as u128).pow(2);
    let mut all = Neighbors::new_all_pairs();
    all.ensure_updated(&cell, &particles).unwrap();
    assert_eq!(
        close_pairs(&list, &cell, &particles, max2),
        close_pairs(&all, &cell, &particles, max2)
    );
}

#[test]
fn sanity_check_names_missing_pair() {
    let cell = UnitCell::cubic(1000);
    let far = vec![Vector3D::new(0, 0, 0), Vector3D::new(500, 0, 0), Vector3D::new(0, 500, 0)];
    let mut particles = ParticleVec::with_positions(far);
    let mut list = DirectedLinkedList::new(CountDown::new(0, 1, Some(1)), Cutoffs::new(10, 1));
    list.update_neighbors(&cell, &particles);
    assert_eq!(list.sanity_check(&cell, &particles), Ok(()));

    particles.position[1] = Vector3D::new(5, 0, 0);
    let violation = list.sanity_check(&cell, &particles).unwrap_err();
    assert_eq!((violation.i, violation.j), (1, 0));
    assert_eq!(violation.r2, 25);

    // the audit runs before the rebuild, and blames the outgoing list
    let err = list.ensure_updated(&cell, &particles).unwrap_err();
    assert_eq!((err.i, err.j, err.r2), (1, 0, 25));
    assert_eq!(list.statistics().updates, 1);
    assert_eq!(list.statistics().sanity_checks, 1);
}

#[test]
fn audit_passes_on_valid_list_and_rebuilds() {
    let cell = UnitCell::cubic(1000);
    let mut particles = ParticleVec::with_positions(vec![Vector3D::new(0, 0, 0), Vector3D::new(8, 0, 0)]);
    let mut list = DirectedLinkedList::new(CountDown::new(0, 1, Some(1)), Cutoffs::new(10, 1));
    list.update_neighbors(&cell, &particles);
    particles.position[1] = Vector3D::new(500, 0, 0);
    assert_eq!(list.ensure_updated(&cell, &particles), Ok(()));
    let mut seen = Vec::new();
    list.each_j(1, |j| seen.push(j));
    assert!(seen.is_empty());
    assert_eq!(list.statistics().sanity_checks, 1);
    let count = AtomicUsize::new(0);
    list.each_i(|_| {
        count.fetch_add(1, Ordering::SeqCst);
    });
    assert_eq!(count.load(Ordering::SeqCst), 2);
}

#[test]
fn particle_count_change_needs_rebuild() {
    let cell = UnitCell::cubic(SIDE);
    let particles = lattice(2, SPACING);
    let mut list = Neighbors::new_directed_linkedlist(MAX_CUTOFF, SKIN, 0, 1, None);
    assert!(!list.is_ready_for_step(particles.len()));
    list.update_neighbors(&cell, &particles);
    assert!(list.is_ready_for_step(particles.len()));
    assert!(!list.is_ready_for_step(particles.len() + 1));
    assert!(Neighbors::new_all_pairs().is_ready_for_step(3));
    assert!(Neighbors::new_all_pairs().statistics().is_none());
}

#[test]
fn small_drift_keeps_list_complete() {
    let cell = UnitCell::cubic(SIDE);
    let mut particles = lattice(5, SPACING);
    let cutoffs = Cutoffs::new(MAX_CUTOFF, SKIN);
    let mut list = DirectedLinkedList::new(CountDown::new(0, 1, None), cutoffs);
    list.update_neighbors(&cell, &particles);
    let snapshot = particles.position.clone();
    // move every particle by at most skin, alternating directions
    for (k, p) in particles.position.iter_mut().enumerate() {
        let d = if k % 2 == 0 { 5 } else { -5 };
        p.x += d;
        p.y -= d;
        p.z += if k % 3 == 0 { 7 } else { -7 };
    }
    assert!(!cutoffs.needs_update(&snapshot, &cell, &particles));
    assert_eq!(list.sanity_check(&cell, &particles), Ok(()));
    assert_eq!(list.ensure_updated(&cell, &particles), Ok(()));
    assert_eq!(list.statistics().updates, 0);
}
