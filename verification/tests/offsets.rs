//! The neighborhood generator on concrete radii.

use predator_prey::game::generate_ring_offsets;

#[test]
fn radius_zero_is_empty() {
    let offs = generate_ring_offsets(0);
    assert!(offs.is_empty());
}

#[test]
fn radius_one_is_the_eight_neighborhood() {
    let offs = generate_ring_offsets(1);
    assert_eq!(
        offs,
        vec![(-1, -1), (-1, 0), (-1, 1), (0, -1), (0, 1), (1, -1), (1, 0), (1, 1)]
    );
}

#[test]
fn radius_two_is_the_full_square() {
    let offs = generate_ring_offsets(2);
    assert_eq!(offs.len(), 24);
    assert!(!offs.contains(&(0, 0)));
    for &(dx, dy) in offs.iter() {
        assert!(-2 <= dx && dx <= 2);
        assert!(-2 <= dy && dy <= 2);
    }
    // Every non-center coordinate pair of the square appears exactly once.
    for dx in -2..=2 {
        for dy in -2..=2 {
            if (dx, dy) != (0, 0) {
                assert_eq!(offs.iter().filter(|&&o| o == (dx, dy)).count(), 1);
            }
        }
    }
}
