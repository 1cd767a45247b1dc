use vstd::prelude::*;
use vstd::arithmetic::div_mod::{lemma_fundamental_div_mod, lemma_mod_bound};

verus! {

/// A position in fixed-point length units.
#[derive(Clone, Copy, Debug, PartialEq, Eq, Structural)]
pub struct Vector3D {
    pub x: i32,
    pub y: i32,
    pub z: i32,
}

impl Vector3D {
    pub fn new(x: i32, y: i32, z: i32) -> (r: Vector3D)
        ensures
            r == (Vector3D { x, y, z }),
    {
        Vector3D { x, y, z }
    }
}

/// An orthorhombic simulation cell. Each axis has a period; a period of
/// zero means that the axis is not periodic.
#[derive(Clone, Copy, Debug, PartialEq, Eq, Structural)]
pub struct UnitCell {
    pub a: u32,
    pub b: u32,
    pub c: u32,
}

/// Distance along one axis under the minimum-image convention: the distance
/// from `d` to the nearest multiple of `period` (or `|d|` when not periodic).
pub open spec fn axis_image(d: int, period: nat) -> nat {
    let ad = if d < 0 { -d } else { d };
    if period == 0 {
        ad as nat
    } else {
        let r = ad % (period as int);
        if r <= period - r { r as nat } else { (period - r) as nat }
    }
}

/// Squared minimum-image distance between two positions.
pub open spec fn dist2(cell: UnitCell, p: Vector3D, q: Vector3D) -> nat {
    let dx = axis_image(q.x - p.x, cell.a as nat);
    let dy = axis_image(q.y - p.y, cell.b as nat);
    let dz = axis_image(q.z - p.z, cell.c as nat);
    dx * dx + dy * dy + dz * dz
}

pub open spec fn abs(d: int) -> int {
    if d < 0 { -d } else { d }
}

proof fn lemma_axis_image_attained(d: int, period: nat) -> (k: int)
    requires
        period > 0,
    ensures
        axis_image(d, period) == abs(d - k * period),
{
    let l = period as int;
    let ad = abs(d);
    lemma_fundamental_div_mod(ad, l);
    lemma_mod_bound(ad, l);
    let q = ad / l;
    let r = ad % l;
    assert((-q) * l == -(q * l)) by (nonlinear_arith);
    assert((q + 1) * l == q * l + l) by (nonlinear_arith);
    assert((-(q + 1)) * l == -(q * l) - l) by (nonlinear_arith);
    if r <= l - r {
        if d >= 0 { q } else { -q }
    } else {
        if d >= 0 { q + 1 } else { -(q + 1) }
    }
}

proof fn lemma_axis_image_least(d: int, period: nat, k: int)
    requires
        period > 0,
    ensures
        axis_image(d, period) <= abs(d - k * period),
{
    let l = period as int;
    let ad = abs(d);
    lemma_fundamental_div_mod(ad, l);
    lemma_mod_bound(ad, l);
    let q = ad / l;
    let r = ad % l;
    let k2 = if d >= 0 { k } else { -k };
    assert(abs(d - k * l) == abs(ad - k2 * l)) by {
        assert((-k) * l == -(k * l)) by (nonlinear_arith);
    }
    let m = q - k2;
    assert(ad - k2 * l == m * l + r) by (nonlinear_arith)
        requires ad == q * l + r, m == q - k2;
    if m >= 0 {
        assert(m * l >= 0) by (nonlinear_arith)
            requires m >= 0, l > 0;
    } else {
        assert(m * l <= -l) by (nonlinear_arith)
            requires m <= -1, l > 0;
    }
}

/// The minimum-image distance along one axis obeys the triangle inequality.
proof fn lemma_axis_triangle(a: int, b: int, period: nat)
    ensures
        axis_image(a + b, period) <= axis_image(a, period) + axis_image(b, period),
{
    if period > 0 {
        let l = period as int;
        let ka = lemma_axis_image_attained(a, period);
        let kb = lemma_axis_image_attained(b, period);
        lemma_axis_image_least(a + b, period, ka + kb);
        assert((a + b) - (ka + kb) * l == (a - ka * l) + (b - kb * l)) by (nonlinear_arith);
    }
}

proof fn lemma_cross_square(p1: int, q2: int, p2: int, q1: int)
    ensures
        (p1 * q2 - p2 * q1) * (p1 * q2 - p2 * q1) == (p1 * p1) * (q2 * q2) + (p2 * p2) * (q1 * q1) - 2 * ((p1 * q1) * (p2 * q2)),
{
    let m = p1 * q2;
    let n = p2 * q1;
    assert((m - n) * (m - n) == m * m + n * n - 2 * (m * n)) by (nonlinear_arith);
    assert(m * m == (p1 * p1) * (q2 * q2)) by (nonlinear_arith)
        requires m == p1 * q2;
    assert(n * n == (p2 * p2) * (q1 * q1)) by (nonlinear_arith)
        requires n == p2 * q1;
    assert(m * n == (p1 * q1) * (p2 * q2)) by (nonlinear_arith)
        requires m == p1 * q2, n == p2 * q1;
}

/// Minkowski's inequality in squared form, with the first bound strict:
/// `|p| < pn` and `|q| <= qn` give `|p + q| < pn + qn`.
proof fn lemma_sum_norm_bound(px: int, py: int, pz: int, qx: int, qy: int, qz: int, pn: int, qn: int)
    requires
        pn >= 0,
        qn >= 0,
        px * px + py * py + pz * pz < pn * pn,
        qx * qx + qy * qy + qz * qz <= qn * qn,
    ensures
        (px + qx) * (px + qx) + (py + qy) * (py + qy) + (pz + qz) * (pz + qz) < (pn + qn) * (pn + qn),
{
    let np = px * px + py * py + pz * pz;
    let nq = qx * qx + qy * qy + qz * qz;
    let dot = px * qx + py * qy + pz * qz;
    let u = px * qy - py * qx;
    let v = py * qz - pz * qy;
    let w = pz * qx - px * qz;
    let (sx, sy, sz) = (px * px, py * py, pz * pz);
    let (tx, ty, tz) = (qx * qx, qy * qy, qz * qz);
    let (a, b, c) = (px * qx, py * qy, pz * qz);
    lemma_cross_square(px, qy, py, qx);
    lemma_cross_square(py, qz, pz, qy);
    lemma_cross_square(pz, qx, px, qz);
    assert(sx * tx == a * a) by (nonlinear_arith)
        requires sx == px * px, tx == qx * qx, a == px * qx;
    assert(sy * ty == b * b) by (nonlinear_arith)
        requires sy == py * py, ty == qy * qy, b == py * qy;
    assert(sz * tz == c * c) by (nonlinear_arith)
        requires sz == pz * pz, tz == qz * qz, c == pz * qz;
    assert(np * nq == sx * tx + sx * ty + sx * tz + sy * tx + sy * ty + sy * tz + sz * tx + sz * ty + sz * tz)
        by (nonlinear_arith)
        requires np == sx + sy + sz, nq == tx + ty + tz;
    assert(dot * dot == a * a + b * b + c * c + 2 * (a * b) + 2 * (b * c) + 2 * (c * a)) by (nonlinear_arith)
        requires dot == a + b + c;
    assert(np * nq - dot * dot == u * u + v * v + w * w);
    assert(u * u + v * v + w * w >= 0) by (nonlinear_arith);
    assert(np >= 0 && nq >= 0) by (nonlinear_arith)
        requires
            np == px * px + py * py + pz * pz,
            nq == qx * qx + qy * qy + qz * qz;
    assert(np * nq <= (pn * qn) * (pn * qn)) by (nonlinear_arith)
        requires 0 <= np <= pn * pn, 0 <= nq <= qn * qn, pn >= 0, qn >= 0;
    if dot > pn * qn {
        assert(dot * dot > (pn * qn) * (pn * qn)) by (nonlinear_arith)
            requires dot > pn * qn, pn * qn >= 0;
    }
    assert((px + qx) * (px + qx) + (py + qy) * (py + qy) + (pz + qz) * (pz + qz) == np + 2 * dot + nq)
        by (nonlinear_arith)
        requires
            np == px * px + py * py + pz * pz,
            nq == qx * qx + qy * qy + qz * qz,
            dot == px * qx + py * qy + pz * qz;
    assert((pn + qn) * (pn + qn) == pn * pn + 2 * (pn * qn) + qn * qn) by (nonlinear_arith);
}

proof fn lemma_square_monotone(u: int, s: int)
    requires
        0 <= u <= s,
    ensures
        u * u <= s * s,
{
    assert(u * u <= s * s) by (nonlinear_arith)
        requires 0 <= u <= s;
}

/// If two particles are now closer than `m`, and each has moved at most `s`
/// from an earlier position, then those earlier positions were closer than
/// `m + 2 s`, all under the minimum-image convention.
pub proof fn lemma_displaced_pair(cell: UnitCell, p: Vector3D, q: Vector3D, p2: Vector3D, q2: Vector3D, m: nat, s: nat)
    requires
        dist2(cell, p2, q2) < m * m,
        dist2(cell, p, p2) <= s * s,
        dist2(cell, q, q2) <= s * s,
    ensures
        dist2(cell, p, q) < (m + 2 * s) * (m + 2 * s),
{
    let (la, lb, lc) = (cell.a as nat, cell.b as nat, cell.c as nat);
    // now apart, and the two displacements, axis by axis
    let (bx, by, bz) = (axis_image(q2.x - p2.x, la) as int, axis_image(q2.y - p2.y, lb) as int, axis_image(q2.z - p2.z, lc) as int);
    let (ix, iy, iz) = (axis_image(p2.x - p.x, la) as int, axis_image(p2.y - p.y, lb) as int, axis_image(p2.z - p.z, lc) as int);
    let (jx, jy, jz) = (axis_image(q2.x - q.x, la) as int, axis_image(q2.y - q.y, lb) as int, axis_image(q2.z - q.z, lc) as int);
    let (ux, uy, uz) = (axis_image(q.x - p.x, la) as int, axis_image(q.y - p.y, lb) as int, axis_image(q.z - p.z, lc) as int);
    assert(axis_image(q.x - q2.x, la) == jx);
    assert(axis_image(q.y - q2.y, lb) == jy);
    assert(axis_image(q.z - q2.z, lc) == jz);
    lemma_axis_triangle(q.x - q2.x, q2.x - p.x, la);
    lemma_axis_triangle(q2.x - p2.x, p2.x - p.x, la);
    lemma_axis_triangle(q.y - q2.y, q2.y - p.y, lb);
    lemma_axis_triangle(q2.y - p2.y, p2.y - p.y, lb);
    lemma_axis_triangle(q.z - q2.z, q2.z - p.z, lc);
    lemma_axis_triangle(q2.z - p2.z, p2.z - p.z, lc);
    assert(ux <= bx + ix + jx);
    assert(uy <= by + iy + jy);
    assert(uz <= bz + iz + jz);
    lemma_sum_norm_bound(bx, by, bz, ix, iy, iz, m as int, s as int);
    lemma_sum_norm_bound(bx + ix, by + iy, bz + iz, jx, jy, jz, (m + s) as int, s as int);
    lemma_square_monotone(ux as int, bx + ix + jx);
    lemma_square_monotone(uy as int, by + iy + jy);
    lemma_square_monotone(uz as int, bz + iz + jz);
    assert((m + s + s) * (m + s + s) == (m + 2 * s) * (m + 2 * s));
}

fn axis_distance(d: i64, period: u32) -> (r: u64)
    requires
        -0x1_0000_0000 <= d <= 0x1_0000_0000,
    ensures
        r == axis_image(d as int, period as nat),
        r <= 0x1_0000_0000,
{
    let ad: u64 = if d < 0 { (-d) as u64 } else { d as u64 };
    if period == 0 {
        ad
    } else {
        let p = period as u64;
        let r = ad % p;
        let s = p - r;
        if r <= s { r } else { s }
    }
}

proof fn lemma_square_bound(v: nat)
    requires
        v <= 0x1_0000_0000,
    ensures
        v * v <= 0x1_0000_0000_0000_0000,
{
    assert(v * v <= 0x1_0000_0000 * 0x1_0000_0000) by (nonlinear_arith)
        requires v <= 0x1_0000_0000;
}

impl UnitCell {
    /// A cubic cell of side `l`.
    pub fn cubic(l: u32) -> (r: UnitCell)
        ensures
            r == (UnitCell { a: l, b: l, c: l }),
    {
        UnitCell { a: l, b: l, c: l }
    }

    /// An orthorhombic cell with sides `a`, `b` and `c`.
    pub fn ortho(a: u32, b: u32, c: u32) -> (r: UnitCell)
        ensures
            r == (UnitCell { a, b, c }),
    {
        UnitCell { a, b, c }
    }

    /// A cell without periodic boundaries.
    pub fn infinite() -> (r: UnitCell)
        ensures
            r == (UnitCell { a: 0, b: 0, c: 0 }),
    {
        UnitCell { a: 0, b: 0, c: 0 }
    }

    /// Squared minimum-image distance between `p` and `q`.
    pub fn distance2(&self, p: &Vector3D, q: &Vector3D) -> (r: u128)
        ensures
            r == dist2(*self, *p, *q),
    {
        let dx = axis_distance(q.x as i64 - p.x as i64, self.a) as u128;
        let dy = axis_distance(q.y as i64 - p.y as i64, self.b) as u128;
        let dz = axis_distance(q.z as i64 - p.z as i64, self.c) as u128;
        proof {
            lemma_square_bound(dx as nat);
            lemma_square_bound(dy as nat);
            lemma_square_bound(dz as nat);
        }
        dx * dx + dy * dy + dz * dz
    }
}

/// The particles of a system, stored as a struct of arrays.
#[derive(Debug)]
pub struct ParticleVec {
    pub position: Vec<Vector3D>,
}

pub(crate) fn copy_positions(v: &Vec<Vector3D>) -> (r: Vec<Vector3D>)
    ensures
        r@ == v@,
{
    let mut r: Vec<Vector3D> = Vec::new();
    let mut k: usize = 0;
    while k < v.len()
        invariant
            k <= v@.len(),
            r@ == v@.subrange(0, k as int),
        decreases v@.len() - k,
    {
        r.push(v[k]);
        k = k + 1;
    }
    assert(r@ =~= v@);
    r
}

impl Clone for ParticleVec {
    fn clone(&self) -> (r: Self)
        ensures
            r.position@ == self.position@,
    {
        ParticleVec { position: copy_positions(&self.position) }
    }
}

impl ParticleVec {
    pub fn new() -> (r: ParticleVec)
        ensures
            r.position@ == Seq::<Vector3D>::empty(),
    {
        ParticleVec { position: Vec::new() }
    }

    /// Build a container from the given positions.
    pub fn with_positions(position: Vec<Vector3D>) -> (r: ParticleVec)
        ensures
            r.position@ == position@,
    {
        ParticleVec { position }
    }

    /// Number of particles.
    pub fn len(&self) -> (r: usize)
        ensures
            r == self.position@.len(),
    {
        self.position.len()
    }
}

} // verus!
