use solar_raycaster::hit::{closest_hit, Material};

fn key(t: f32) -> Option<u32> {
    Some(t.to_bits())
}

#[test]
fn no_candidate_is_no_hit() {
    assert_eq!(closest_hit(None, None, None), None);
}

#[test]
fn a_single_candidate_is_the_hit() {
    assert_eq!(closest_hit(key(4.0), None, None), Some(Material::Star));
    assert_eq!(closest_hit(None, key(4.0), None), Some(Material::Rocky));
    assert_eq!(closest_hit(None, None, key(4.0)), Some(Material::GasGiant));
}

#[test]
fn nearer_orbiting_body_hides_the_star() {
    // a body in front of the star along the same ray
    assert_eq!(closest_hit(key(4.0), key(1.5), None), Some(Material::Rocky));
    assert_eq!(closest_hit(key(4.0), None, key(2.2)), Some(Material::GasGiant));
}

#[test]
fn star_in_front_of_a_body_wins() {
    assert_eq!(closest_hit(key(4.0), key(6.5), key(9.0)), Some(Material::Star));
}

#[test]
fn nearest_of_three_wins() {
    assert_eq!(closest_hit(key(4.0), key(3.0), key(2.5)), Some(Material::GasGiant));
    assert_eq!(closest_hit(key(4.0), key(2.0), key(2.5)), Some(Material::Rocky));
}

#[test]
fn equal_distances_keep_the_earlier_body() {
    assert_eq!(closest_hit(key(3.0), key(3.0), key(3.0)), Some(Material::Star));
    assert_eq!(closest_hit(key(5.0), key(3.0), key(3.0)), Some(Material::Rocky));
    assert_eq!(closest_hit(None, Some(7), Some(7)), Some(Material::Rocky));
}

#[test]
fn distance_keys_follow_float_order() {
    assert!(4.0f32.to_bits() > 3.999f32.to_bits());
    assert_eq!(closest_hit(key(4.0), key(3.999), None), Some(Material::Rocky));
    assert_eq!(closest_hit(key(0.001), key(100.0), None), Some(Material::Star));
}
