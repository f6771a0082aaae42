use sidleffect::poisson::{Poisson, EPSILON_MILLI};
use sidleffect::pos::{distance_squared, Pos};
use rand::SeedableRng;

#[test]
fn empty_map_first_attempt_exact() {
    // With no existing points and a zero seed offset, the first attempt is
    // taken: the point exactly radius plus epsilon to the right of the
    // anchor.
    let poisson = Poisson::new();
    let anchor = Pos { x: 1000, y: 2000 };
    let radius: i64 = 200_000;
    let r = poisson.compute_new_position_seeded(&vec![], &anchor, radius, 10, 0);
    let expected = Pos { x: 1000 + radius + EPSILON_MILLI, y: 2000 };
    assert_eq!(r, Some(expected));
    let d = distance_squared(&anchor, &expected);
    let arm = (radius + EPSILON_MILLI) as i128;
    assert_eq!(d, arm * arm);
}

#[test]
fn any_radius_first_attempt_exact() {
    let poisson = Poisson::new();
    let anchor = Pos { x: -5_000_000, y: 77 };
    let radius: i64 = 12_345;
    let r = poisson.compute_new_position_seeded(&vec![], &anchor, radius, 3, 0);
    assert_eq!(r, Some(Pos { x: -5_000_000 + radius + EPSILON_MILLI, y: 77 }));
}

#[test]
fn saturated_ring_returns_none() {
    // Occupy each of the ten candidate spots (found one at a time by
    // running single attempts at each offset of the same ring), then ask
    // for all ten: every attempt is rejected.
    let poisson = Poisson::new();
    let anchor = Pos { x: 0, y: 0 };
    let radius: i64 = 200_000;
    let mut occupied: Vec<Pos> = Vec::new();
    for k in 0..10u32 {
        let seed = k * 3600;
        let c = poisson
            .compute_new_position_seeded(&vec![], &anchor, radius, 1, seed)
            .expect("an empty map accepts every candidate");
        occupied.push(c);
    }
    let r = poisson.compute_new_position_seeded(&occupied, &anchor, radius, 10, 0);
    assert_eq!(r, None);
}

#[test]
fn rejected_candidates_are_skipped() {
    // A point sitting on the first candidate forces the second attempt.
    let poisson = Poisson::new();
    let anchor = Pos { x: 0, y: 0 };
    let radius: i64 = 200_000;
    let first = poisson
        .compute_new_position_seeded(&vec![], &anchor, radius, 10, 0)
        .unwrap();
    let r = poisson
        .compute_new_position_seeded(&vec![first], &anchor, radius, 10, 0)
        .expect("nine candidates remain");
    assert_ne!(r, first);
    let rr = (radius as i128) * (radius as i128);
    assert!(distance_squared(&r, &first) > rr);
    assert!(distance_squared(&r, &anchor) > rr);
}

#[test]
fn drawn_seed_keeps_the_separation() {
    // Through the random generator: whatever offset the draw gives, the
    // returned point keeps more than the radius to every existing point.
    let poisson = Poisson::new();
    let anchor = Pos { x: 40_000, y: -9_000 };
    let radius: i64 = 150_000;
    let existing = vec![anchor, Pos { x: 40_000 + radius, y: -9_000 }];
    let mut rng = rand_chacha::ChaCha20Rng::seed_from_u64(42);
    let arm = (radius + EPSILON_MILLI) as i128;
    let lo = arm * 6 / 10;
    for _ in 0..20 {
        if let Some(p) = poisson.compute_new_position(&existing, &anchor, radius, 10, &mut rng) {
            let rr = (radius as i128) * (radius as i128);
            for q in existing.iter() {
                assert!(distance_squared(&p, q) > rr);
            }
            // The point stays on the annulus around the anchor.
            let d = distance_squared(&anchor, &p);
            assert!(d >= lo * lo);
            assert!(d <= 2 * arm * arm);
        }
    }
}
