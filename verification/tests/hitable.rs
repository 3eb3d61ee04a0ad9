use raytracer::hitable::{choose_root, nearest, Root};

#[test]
fn smaller_root_is_taken_first() {
    assert_eq!(choose_root(true, true, true), Some(Root::Near));
    assert_eq!(choose_root(true, true, false), Some(Root::Near));
}

#[test]
fn larger_root_is_taken_where_the_smaller_is_out_of_range() {
    assert_eq!(choose_root(true, false, true), Some(Root::Far));
}

#[test]
fn no_root_in_range_is_a_miss() {
    assert_eq!(choose_root(true, false, false), None);
}

#[test]
fn ray_without_two_roots_misses() {
    assert_eq!(choose_root(false, true, true), None);
    assert_eq!(choose_root(false, true, false), None);
    assert_eq!(choose_root(false, false, true), None);
    assert_eq!(choose_root(false, false, false), None);
}

#[test]
fn sphere_ahead_is_hit_at_the_smaller_root() {
    let (ox, oy, oz): (f32, f32, f32) = (0.0, 0.0, 0.0);
    let (dx, dy, dz): (f32, f32, f32) = (0.0, 0.0, -1.0);
    let (cx, cy, cz): (f32, f32, f32) = (0.0, 0.0, -1.0);
    let radius: f32 = 0.5;
    let (t_min, t_max): (f32, f32) = (0.001, f32::MAX);

    let (ocx, ocy, ocz) = (ox - cx, oy - cy, oz - cz);
    let a = dx * dx + dy * dy + dz * dz;
    let b = ocx * dx + ocy * dy + ocz * dz;
    let c = ocx * ocx + ocy * ocy + ocz * ocz - radius * radius;
    let discriminant = b * b - a * c;
    let near = (-b - discriminant.sqrt()) / a;
    let far = (-b + discriminant.sqrt()) / a;

    let root = choose_root(
        discriminant > 0.0,
        t_min < near && near < t_max,
        t_min < far && far < t_max,
    );
    assert_eq!(root, Some(Root::Near));
    assert_eq!(near, 0.5);
    assert_eq!(far, 1.5);
    assert_eq!(nearest(&vec![Some(near.to_bits())]), Some(0));
}

#[test]
fn ray_from_inside_a_sphere_is_hit_at_the_larger_root() {
    let radius: f32 = 2.0;
    let (t_min, t_max): (f32, f32) = (0.001, f32::MAX);
    let a: f32 = 1.0;
    let b: f32 = 0.0;
    let c: f32 = -radius * radius;
    let discriminant = b * b - a * c;
    let near = (-b - discriminant.sqrt()) / a;
    let far = (-b + discriminant.sqrt()) / a;
    let root = choose_root(
        discriminant > 0.0,
        t_min < near && near < t_max,
        t_min < far && far < t_max,
    );
    assert_eq!(root, Some(Root::Far));
    assert_eq!(far, 2.0);
}

#[test]
fn ray_that_touches_a_sphere_misses_it() {
    let a: f32 = 1.0;
    let b: f32 = -1.0;
    let c: f32 = 1.0;
    let discriminant = b * b - a * c;
    assert_eq!(discriminant, 0.0);
    assert_eq!(choose_root(discriminant > 0.0, true, true), None);
}

#[test]
fn nearest_of_no_primitives_is_none() {
    assert_eq!(nearest(&vec![]), None);
}

#[test]
fn nearest_of_misses_is_none() {
    assert_eq!(nearest(&vec![None, None, None]), None);
}

#[test]
fn nearest_of_one_hit_is_that_hit() {
    assert_eq!(nearest(&vec![Some(5)]), Some(0));
    assert_eq!(nearest(&vec![None, None, Some(5), None]), Some(2));
}

#[test]
fn nearest_has_the_smallest_key() {
    assert_eq!(nearest(&vec![Some(9), Some(4), Some(6)]), Some(1));
    assert_eq!(nearest(&vec![Some(9), None, Some(6), Some(2)]), Some(3));
    assert_eq!(nearest(&vec![Some(0), Some(4), Some(6)]), Some(0));
    assert_eq!(nearest(&vec![Some(u32::MAX), Some(u32::MAX - 1)]), Some(1));
}

#[test]
fn nearest_of_equal_keys_is_the_first() {
    assert_eq!(nearest(&vec![Some(7), Some(3), None, Some(3), Some(3)]), Some(1));
    assert_eq!(nearest(&vec![Some(u32::MAX), Some(u32::MAX)]), Some(0));
    assert_eq!(nearest(&vec![Some(0), Some(0)]), Some(0));
}

#[test]
fn nearest_follows_the_order_of_positive_distances() {
    let distances: Vec<f32> = vec![3.5, 0.25, 1000.0, 0.0011, 0.002, f32::MAX];
    let keys: Vec<Option<u32>> = distances.iter().map(|t| Some(t.to_bits())).collect();
    assert_eq!(nearest(&keys), Some(3));
}
