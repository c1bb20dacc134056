use bodypix::probability::{Probability, SCALE};

#[test]
fn scale_is_a_billion() {
    assert_eq!(SCALE, 1_000_000_000);
}

#[test]
fn probability_new_accepts_zero_to_one() {
    assert_eq!(Probability::new(0).unwrap().parts(), 0);
    assert_eq!(Probability::new(500_000_000).unwrap().parts(), 500_000_000);
    assert_eq!(Probability::new(SCALE).unwrap().parts(), SCALE);
}

#[test]
fn probability_new_rejects_more_than_one() {
    assert_eq!(Probability::new(SCALE + 1), None);
    assert_eq!(Probability::new(u32::MAX), None);
}

#[test]
fn probabilities_compare_by_their_parts() {
    assert_eq!(Probability::new(7), Probability::new(7));
    assert_ne!(Probability::new(7), Probability::new(8));
}
