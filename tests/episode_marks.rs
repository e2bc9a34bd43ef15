use kserver::episode::{set_episode_watched, Float};

#[test]
fn canonicalize_rounds_down_below_quarter() {
    assert_eq!(Float::new(31, 10), Float::Int(3));
    assert_eq!(Float::new(3, 1), Float::Int(3));
}

#[test]
fn canonicalize_rounds_up_above_three_quarters() {
    assert_eq!(Float::new(39, 10), Float::Int(4));
}

#[test]
fn canonicalize_half_in_the_middle() {
    assert_eq!(Float::new(35, 10), Float::Half(3));
    assert_eq!(Float::new(1, 4), Float::Half(0));
    assert_eq!(Float::new(3, 4), Float::Half(0));
}

#[test]
fn canonicalize_negative_uses_floor() {
    // -3.1 has floor -4 and fraction 0.9
    assert_eq!(Float::new(-31, 10), Float::Int(-3));
    // -0.5 has floor -1 and fraction 0.5
    assert_eq!(Float::new(-5, 10), Float::Half(-1));
    // -3.9 has floor -4 and fraction 0.1
    assert_eq!(Float::new(-39, 10), Float::Int(-4));
}

#[test]
fn int_and_half_differ_but_display_as_decimals() {
    assert_ne!(Float::Int(3), Float::Half(3));
    assert_eq!(Float::Int(3).to_display(), "3");
    assert_eq!(Float::Half(3).to_display(), "3.5");
    assert_eq!(Float::Half(-1).to_display(), "-0.5");
    assert_eq!(Float::Half(-3).to_display(), "-2.5");
    assert_eq!(Float::Int(-12).to_display(), "-12");
}

#[test]
fn round_trip_is_stable() {
    for (num, den) in [(31i64, 10u32), (39, 10), (35, 10), (-31, 10), (-5, 10), (7, 1), (1000003, 1000)] {
        let m = Float::new(num, den);
        assert_eq!(Float::new(m.halves(), 2), m);
    }
}

#[test]
fn halves_and_hash_keys() {
    assert_eq!(Float::Int(3).halves(), 6);
    assert_eq!(Float::Half(3).halves(), 7);
    assert_eq!(Float::Int(3).hash_key(), 30);
    assert_eq!(Float::Half(3).hash_key(), 35);
    assert_ne!(Float::Int(3).hash_key(), Float::Half(3).hash_key());
}

#[test]
fn mark_then_unmark_restores_set() {
    let mut eps = vec![Float::Int(1), Float::Int(2)];
    let before = eps.clone();
    let m = Float::new(35, 10);
    set_episode_watched(&mut eps, m, true);
    assert_eq!(eps, vec![Float::Int(1), Float::Int(2), Float::Half(3)]);
    set_episode_watched(&mut eps, m, false);
    assert_eq!(eps, before);
}

#[test]
fn marking_twice_keeps_one_copy() {
    let mut eps = vec![Float::Half(3)];
    set_episode_watched(&mut eps, Float::Half(3), true);
    assert_eq!(eps, vec![Float::Half(3)]);
    set_episode_watched(&mut eps, Float::Int(9), false);
    assert_eq!(eps, vec![Float::Half(3)]);
    set_episode_watched(&mut eps, Float::Half(3), false);
    assert!(eps.is_empty());
}
