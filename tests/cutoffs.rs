use lumol_neighbors::{Cutoffs, ParticleVec, UnitCell, Vector3D};

// lengths are fixed-point: SCALE units make one length unit
const SCALE: u32 = 1000;

#[test]
fn test_cutoff() {
    let cutoff = Cutoffs::new(3 * SCALE, SCALE / 2);
    let s2 = (SCALE as u128) * (SCALE as u128);
    assert_eq!(cutoff.max_cutoff2(), 9 * s2);
    assert_eq!(cutoff.skin2() * 4, s2); // 0.25
    assert_eq!(cutoff.update_cutoff2(), 16 * s2);
}

#[test]
fn needs_update_detects_drift() {
    let cutoff = Cutoffs::new(30, 5);
    let cell = UnitCell::cubic(100);
    let snapshot = vec![Vector3D::new(0, 0, 0), Vector3D::new(50, 50, 50)];
    let mut particles = ParticleVec::with_positions(snapshot.clone());
    assert!(!cutoff.needs_update(&snapshot, &cell, &particles));

    // exactly skin away: no update
    particles.position[1] = Vector3D::new(55, 50, 50);
    assert!(!cutoff.needs_update(&snapshot, &cell, &particles));

    // further than skin
    particles.position[1] = Vector3D::new(54, 54, 50);
    assert!(cutoff.needs_update(&snapshot, &cell, &particles));

    // a move across the periodic boundary is short
    particles.position[1] = Vector3D::new(50, 50, 50);
    particles.position[0] = Vector3D::new(98, 0, 0);
    assert!(!cutoff.needs_update(&snapshot, &cell, &particles));
}

#[test]
fn minimum_image_distance() {
    let cubic = UnitCell::cubic(10);
    let a = Vector3D::new(0, 0, 0);
    let b = Vector3D::new(9, 0, 0);
    assert_eq!(cubic.distance2(&a, &b), 1);
    assert_eq!(cubic.distance2(&b, &a), 1);
    let c = Vector3D::new(-13, 4, 25);
    assert_eq!(cubic.distance2(&a, &c), 9 + 16 + 25);

    let infinite = UnitCell::infinite();
    assert_eq!(infinite.distance2(&a, &b), 81);
    assert_eq!(infinite.distance2(&a, &c), 169 + 16 + 625);

    let ortho = UnitCell::ortho(10, 20, 0);
    let d = Vector3D::new(6, 12, 30);
    assert_eq!(ortho.distance2(&a, &d), 16 + 64 + 900);

    let far = Vector3D::new(i32::MIN, i32::MAX, i32::MIN);
    let near = Vector3D::new(i32::MAX, i32::MIN, i32::MAX);
    let span = (u32::MAX as u128) * (u32::MAX as u128);
    assert_eq!(infinite.distance2(&far, &near), 3 * span);
}
