//! Spatial placement: a fixed-ring sampler that looks for a spot for a new
//! node near an existing one.
//!
//! Given the existing node positions, an anchor, a separation radius `r` and
//! an attempt count `N`, one random draw fixes an angular offset; the `N`
//! candidates sit on a single ring of radius `r + EPSILON_MILLI` around the
//! anchor, at angles spread evenly by whole turns divided by `N`. The first
//! candidate whose squared distance to every existing point exceeds `r^2` is
//! returned; if all `N` are rejected the spawn is skipped. There is no
//! second ring and no radius shrink.

use vstd::prelude::*;

use crate::pos::{distance_squared, in_bounds, spec_dist_squared, Pos, POS_BOUND};
use crate::rng::rng_next_u64;
use crate::trig::{spec_cos_nano, spec_sin_nano, cos_sin_nano, ANGLE_UNITS};

verus! {

/// Candidates sit this far beyond the separation radius, in milli-units,
/// so that exact-boundary ties cannot happen.
pub const EPSILON_MILLI: i64 = 10;

/// Largest separation radius the sampler accepts, in milli-units.
pub const RADIUS_MAX: i64 = 1_000_000_000;

/// Anchors and stored node positions stay within this bound, which leaves
/// room for a ring of any accepted radius inside `POS_BOUND`.
pub const POS_LIMIT: i64 = 1_000_000_000_000_000_000;

/// The angle of attempt `k` out of `n`, in hundredths of a degree: the seed
/// offset plus `k` whole turns divided by `n`, rounded down to the grid.
pub open spec fn spec_angle(seed: int, k: int, n: int) -> int {
    (seed + k * 36000 / n) % 36000
}

/// A ring coordinate offset: the radius-plus-epsilon arm scaled by a
/// fixed-point sine or cosine `v`, rounded to the nearest milli-unit, with
/// the sign applied to the rounded magnitude.
pub open spec fn spec_signed_off(re: int, v: int) -> int {
    if v >= 0 {
        (re * v + 500_000_000) / 1_000_000_000
    } else {
        -((re * -v + 500_000_000) / 1_000_000_000)
    }
}

/// The candidate position at angle `a` on the ring around `near`.
pub open spec fn spec_candidate(near: Pos, radius: int, a: int) -> Pos {
    Pos {
        x: (near.x + spec_signed_off(radius + EPSILON_MILLI, spec_cos_nano(a))) as i64,
        y: (near.y + spec_signed_off(radius + EPSILON_MILLI, spec_sin_nano(a))) as i64,
    }
}

/// The candidate position of attempt `k` out of `n` for a given seed offset.
pub open spec fn spec_candidate_at(near: Pos, radius: int, seed: int, k: int, n: int) -> Pos {
    spec_candidate(near, radius, spec_angle(seed, k, n))
}

/// Some attempt of the given seed offset yields a candidate farther than
/// the radius from every existing point: the ring is not saturated for
/// this seed.
pub open spec fn ring_has_room(
    existing: Seq<Pos>,
    near: Pos,
    radius: int,
    seed: int,
    n: int,
) -> bool {
    exists|k: int| 0 <= k < n && spec_far_from_all(
        existing,
        radius,
        #[trigger] spec_candidate_at(near, radius, seed, k, n),
    )
}

/// Where on the ring around `near` a returned point can lie: within the
/// bounding square of half-side `radius + EPSILON_MILLI`, so no farther
/// than the square's diagonal, and no nearer than 0.6 of the ring's arm
/// (the dominant axis of any ring direction carries at least 0.6 of it).
pub open spec fn on_spawn_ring(near: Pos, radius: int, p: Pos) -> bool {
    let re = radius + EPSILON_MILLI;
    let lo = re * 600_000_000 / 1_000_000_000;
    &&& -re <= p.x - near.x <= re
    &&& -re <= p.y - near.y <= re
    &&& spec_dist_squared(near, p) <= 2 * re * re
    &&& spec_dist_squared(near, p) >= lo * lo
}

/// Whether `c` keeps more than the separation radius to every existing point.
pub open spec fn spec_far_from_all(existing: Seq<Pos>, radius: int, c: Pos) -> bool {
    forall|j: int| 0 <= j < existing.len()
        ==> spec_dist_squared(c, existing[j]) > radius * radius
}

/// What the sampler returns for a given seed offset: the first acceptable
/// candidate of the ring sequence, or nothing when all are rejected.
pub open spec fn sampler_post(
    existing: Seq<Pos>,
    near: Pos,
    radius: int,
    n: int,
    seed: int,
    r: Option<Pos>,
) -> bool {
    match r {
        Some(p) => exists|k: int|
            0 <= k < n && p == #[trigger] spec_candidate_at(near, radius, seed, k, n)
                && spec_far_from_all(existing, radius, p)
                && (forall|j: int| 0 <= j < k
                    ==> !spec_far_from_all(
                        existing,
                        radius,
                        #[trigger] spec_candidate_at(near, radius, seed, j, n),
                    )),
        None => forall|k: int| 0 <= k < n
            ==> !spec_far_from_all(
                existing,
                radius,
                #[trigger] spec_candidate_at(near, radius, seed, k, n),
            ),
    }
}

/// The angle of attempt `k`, as executable arithmetic.
fn angle_of(seed_units: u32, k: u32, n: u32) -> (a: u32)
    requires
        seed_units < ANGLE_UNITS,
        n >= 1,
    ensures
        a == spec_angle(seed_units as int, k as int, n as int),
        a < ANGLE_UNITS,
{
    (((seed_units as u64) + (k as u64) * 36000 / (n as u64)) % 36000) as u32
}

/// One signed ring offset from a fixed-point sine or cosine value. A
/// dominant trig component (at least 0.6 of the scale in magnitude) gives
/// an offset of at least 0.6 of the arm.
fn signed_off(re: i64, v: i64) -> (o: i64)
    requires
        0 < re <= RADIUS_MAX + EPSILON_MILLI,
        -1_000_000_000 <= v <= 1_000_000_000,
    ensures
        o == spec_signed_off(re as int, v as int),
        -re <= o <= re,
        v >= 600_000_000 ==> o >= re * 600_000_000 / 1_000_000_000,
        v <= -600_000_000 ==> o <= -(re * 600_000_000 / 1_000_000_000),
{
    let m: u64 = if v >= 0 {
        v as u64
    } else {
        (-v) as u64
    };
    proof {
        assert((re as u64) * m <= 1_000_000_010_000_000_000 && (re as u64) * m + 500_000_000
            < ((re + 1) as u64) * 1_000_000_000) by (nonlinear_arith)
            requires 0 < re <= 1_000_000_010, m <= 1_000_000_000;
    }
    let mag_scaled: u64 = (re as u64) * m + 500_000_000;
    let mag: u64 = mag_scaled / 1_000_000_000;
    proof {
        assert(mag <= re) by (nonlinear_arith)
            requires
                mag == mag_scaled / 1_000_000_000,
                mag_scaled < ((re + 1) as u64) * 1_000_000_000,
                0 < re <= 1_000_000_010;
        if m >= 600_000_000 {
            assert(mag >= re * 600_000_000 / 1_000_000_000) by (nonlinear_arith)
                requires
                    mag == ((re as u64) * m + 500_000_000) / 1_000_000_000,
                    600_000_000 <= m <= 1_000_000_000,
                    0 < re <= 1_000_000_010;
        }
    }
    if v >= 0 {
        mag as i64
    } else {
        -(mag as i64)
    }
}

/// The fixed-ring sampler.
pub struct Poisson {}

impl Poisson {
    pub fn new() -> (p: Poisson)
        ensures
            p == (Poisson {  }),
    {
        Poisson {  }
    }

    /// The deterministic part of the sampler, with the seed offset (in
    /// hundredths of a degree) already derived from the random draw:
    /// returns the first ring candidate far from every existing point, or
    /// `None` once all `nb_attempts` are rejected.
    pub fn compute_new_position_seeded(
        &self,
        existing_points: &Vec<Pos>,
        near_point: &Pos,
        radius: i64,
        nb_attempts: u32,
        seed_units: u32,
    ) -> (r: Option<Pos>)
        requires
            0 < radius <= RADIUS_MAX,
            in_bounds(*near_point, POS_LIMIT as int),
            forall|j: int| 0 <= j < existing_points@.len()
                ==> in_bounds(#[trigger] existing_points@[j], POS_BOUND as int),
            seed_units < ANGLE_UNITS,
        ensures
            sampler_post(
                existing_points@,
                *near_point,
                radius as int,
                nb_attempts as int,
                seed_units as int,
                r,
            ),
            r matches Some(p) ==> in_bounds(p, POS_LIMIT + RADIUS_MAX + EPSILON_MILLI),
            r matches Some(p) ==> on_spawn_ring(*near_point, radius as int, p),
    {
        if nb_attempts == 0 {
            return None;
        }
        proof {
            assert(0 <= radius * radius <= 1_000_000_000_000_000_000) by (nonlinear_arith)
                requires 0 < radius <= 1_000_000_000;
        }
        let radius_sq: i128 = (radius as i128) * (radius as i128);
        let mut k: u32 = 0;
        while k < nb_attempts
            invariant
                k <= nb_attempts,
                0 < radius <= RADIUS_MAX,
                in_bounds(*near_point, POS_LIMIT as int),
                forall|j: int| 0 <= j < existing_points@.len()
                    ==> in_bounds(#[trigger] existing_points@[j], POS_BOUND as int),
                seed_units < ANGLE_UNITS,
                nb_attempts >= 1,
                radius_sq == radius * radius,
                forall|j: int| 0 <= j < k
                    ==> !spec_far_from_all(
                        existing_points@,
                        radius as int,
                        #[trigger] spec_candidate_at(
                            *near_point,
                            radius as int,
                            seed_units as int,
                            j,
                            nb_attempts as int,
                        ),
                    ),
            decreases nb_attempts - k,
        {
            let a: u32 = angle_of(seed_units, k, nb_attempts);
            let (c, s) = cos_sin_nano(a);
            let re: i64 = radius + EPSILON_MILLI;
            let off_x: i64 = signed_off(re, c);
            let off_y: i64 = signed_off(re, s);
            let cand = Pos { x: near_point.x + off_x, y: near_point.y + off_y };
            proof {
                assert(cand == spec_candidate_at(
                    *near_point,
                    radius as int,
                    seed_units as int,
                    k as int,
                    nb_attempts as int,
                ));
            }
            let mut ok: bool = true;
            let mut j: usize = 0;
            while j < existing_points.len()
                invariant
                    j <= existing_points@.len(),
                    forall|i: int| 0 <= i < existing_points@.len()
                        ==> in_bounds(#[trigger] existing_points@[i], POS_BOUND as int),
                    in_bounds(cand, POS_BOUND as int),
                    radius_sq == radius * radius,
                    ok <==> (forall|i: int| 0 <= i < j
                        ==> spec_dist_squared(cand, existing_points@[i]) > radius * radius),
                decreases existing_points@.len() - j,
            {
                let d: i128 = distance_squared(&cand, &existing_points[j]);
                if d <= radius_sq {
                    ok = false;
                }
                j = j + 1;
            }
            if ok {
                proof {
                    let ghost rei = re as int;
                    let ghost lo = rei * 600_000_000 / 1_000_000_000;
                    assert(spec_dist_squared(*near_point, cand) == off_x * off_x + off_y
                        * off_y);
                    assert(off_x * off_x <= rei * rei && off_y * off_y <= rei * rei)
                        by (nonlinear_arith)
                        requires -rei <= off_x <= rei, -rei <= off_y <= rei;
                    assert(0 <= lo <= rei) by (nonlinear_arith)
                        requires lo == rei * 600_000_000 / 1_000_000_000, 0 < rei;
                    if c >= 600_000_000 || c <= -600_000_000 {
                        assert(off_x >= lo || off_x <= -lo);
                        assert(off_x * off_x >= lo * lo) by (nonlinear_arith)
                            requires lo >= 0, off_x >= lo || off_x <= -lo;
                    } else {
                        assert(s >= 600_000_000 || s <= -600_000_000);
                        assert(off_y >= lo || off_y <= -lo);
                        assert(off_y * off_y >= lo * lo) by (nonlinear_arith)
                            requires lo >= 0, off_y >= lo || off_y <= -lo;
                    }
                    assert(off_x * off_x >= 0 && off_y * off_y >= 0) by (nonlinear_arith);
                    assert(rei == radius + EPSILON_MILLI);
                    assert(lo == (radius + EPSILON_MILLI) * 600_000_000 / 1_000_000_000);
                    assert(cand.x - near_point.x == off_x && cand.y - near_point.y == off_y);
                    assert(off_x * off_x + off_y * off_y <= 2 * rei * rei) by (nonlinear_arith)
                        requires
                            off_x * off_x <= rei * rei,
                            off_y * off_y <= rei * rei;
                    assert(spec_dist_squared(*near_point, cand) <= 2 * rei * rei);
                    assert(spec_dist_squared(*near_point, cand) >= lo * lo);
                    assert(on_spawn_ring(*near_point, radius as int, cand));
                }
                return Some(cand);
            }
            k = k + 1;
        }
        None
    }

    /// Derives the per-call seed offset from one draw of the generator and
    /// runs the ring search with it. Whatever the draw, a returned position
    /// keeps more than `radius` to every existing point.
    pub fn compute_new_position(
        &self,
        existing_points: &Vec<Pos>,
        near_point: &Pos,
        radius: i64,
        nb_attempts: u32,
        random: &mut rand_chacha::ChaCha20Rng,
    ) -> (r: Option<Pos>)
        requires
            0 < radius <= RADIUS_MAX,
            in_bounds(*near_point, POS_LIMIT as int),
            forall|j: int| 0 <= j < existing_points@.len()
                ==> in_bounds(#[trigger] existing_points@[j], POS_BOUND as int),
        ensures
            exists|seed: int| 0 <= seed < ANGLE_UNITS && sampler_post(
                existing_points@,
                *near_point,
                radius as int,
                nb_attempts as int,
                seed,
                r,
            ),
            r matches Some(p) ==> spec_far_from_all(existing_points@, radius as int, p),
            r matches Some(p) ==> in_bounds(p, POS_LIMIT + RADIUS_MAX + EPSILON_MILLI),
            r matches Some(p) ==> on_spawn_ring(*near_point, radius as int, p),
    {
        let draw: u64 = rng_next_u64(random);
        let seed_units: u32 = (draw % 36000) as u32;
        let r = self.compute_new_position_seeded(
            existing_points,
            near_point,
            radius,
            nb_attempts,
            seed_units,
        );
        proof {
            assert(0 <= seed_units < ANGLE_UNITS && sampler_post(
                existing_points@,
                *near_point,
                radius as int,
                nb_attempts as int,
                seed_units as int,
                r,
            ));
        }
        r
    }
}

/// With no existing points, any anchor and any accepted radius, the sampler
/// relation forces the first attempt of the zero seed offset to be taken:
/// the result is the point exactly `radius + EPSILON_MILLI` to the right of
/// the anchor, at exactly that squared distance from it.
pub proof fn lemma_sampler_empty_first(
    existing: Seq<Pos>,
    near: Pos,
    radius: int,
    n: int,
    r: Option<Pos>,
)
    requires
        existing.len() == 0,
        n >= 1,
        0 < radius <= RADIUS_MAX,
        in_bounds(near, POS_LIMIT as int),
        sampler_post(existing, near, radius, n, 0, r),
    ensures
        r == Some(Pos { x: (near.x + radius + EPSILON_MILLI) as i64, y: near.y }),
        spec_dist_squared(near, r->Some_0)
            == (radius + EPSILON_MILLI) * (radius + EPSILON_MILLI),
{
    let re = radius + EPSILON_MILLI;
    assert(spec_angle(0, 0, n) == 0);
    assert(crate::trig::spec_rad_nano(0) == 0);
    assert(crate::trig::spec_cos_poly(0) == 1_000_000_000);
    assert(crate::trig::spec_sin_poly(0) == 0);
    assert(crate::trig::spec_quarter_cos(0) == 1_000_000_000);
    assert(crate::trig::spec_quarter_sin(0) == 0);
    assert(spec_cos_nano(0) == 1_000_000_000);
    assert(spec_sin_nano(0) == 0);
    assert((re * 1_000_000_000 + 500_000_000) / 1_000_000_000 == re) by (nonlinear_arith)
        requires re > 0;
    assert(spec_candidate_at(near, radius, 0, 0, n)
        == Pos { x: (near.x + re) as i64, y: near.y });
    assert(spec_far_from_all(existing, radius, spec_candidate_at(near, radius, 0, 0, n)));
    match r {
        Some(p) => {
            let k = choose|k: int|
                0 <= k < n && p == #[trigger] spec_candidate_at(near, radius, 0, k, n)
                    && spec_far_from_all(existing, radius, p)
                    && (forall|j: int| 0 <= j < k
                        ==> !spec_far_from_all(
                            existing,
                            radius,
                            #[trigger] spec_candidate_at(near, radius, 0, j, n),
                        ));
            assert(k == 0);
        },
        None => {
            assert(false);
        },
    }
}

/// When every candidate of the ring sequence has an existing point within
/// the separation radius, the sampler relation forces the spawn to be
/// skipped: the result is `None` after all attempts.
pub proof fn lemma_sampler_saturated(
    existing: Seq<Pos>,
    near: Pos,
    radius: int,
    n: int,
    seed: int,
    r: Option<Pos>,
)
    requires
        sampler_post(existing, near, radius, n, seed, r),
        forall|k: int| 0 <= k < n
            ==> !spec_far_from_all(
                existing,
                radius,
                #[trigger] spec_candidate_at(near, radius, seed, k, n),
            ),
    ensures
        r is None,
{
}

} // verus!
