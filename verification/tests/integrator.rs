use raytracer::integrator::{trace, End, Path, Scattered, Tested};

fn scatterings_until_black(limit: u32) -> u32 {
    let mut path = Path::new(limit);
    let mut count: u32 = 0;
    loop {
        let bounce = match path.tested(true) {
            Tested::Scatter(bounce) => bounce,
            Tested::Black => return count,
            Tested::Background => panic!("a ray that hit cannot take the background"),
        };
        path = match bounce.scattered(true) {
            Scattered::Continue(path) => path,
            Scattered::Black => panic!("a scattered ray cannot be absorbed"),
        };
        count += 1;
    }
}

#[test]
fn ray_that_misses_takes_the_background() {
    assert!(matches!(Path::new(16).tested(false), Tested::Background));
}

#[test]
fn ray_that_misses_at_the_limit_takes_the_background() {
    assert!(matches!(Path::new(0).tested(false), Tested::Background));
    let mut path = Path::new(2);
    for _ in 0..2 {
        path = match path.tested(true) {
            Tested::Scatter(bounce) => match bounce.scattered(true) {
                Scattered::Continue(path) => path,
                Scattered::Black => panic!("a scattered ray cannot be absorbed"),
            },
            _ => panic!("a hit below the limit is scattered"),
        };
    }
    assert!(matches!(path.tested(false), Tested::Background));
}

#[test]
fn hit_at_the_limit_is_black() {
    assert!(matches!(Path::new(0).tested(true), Tested::Black));
}

#[test]
fn hit_below_the_limit_goes_to_the_material() {
    assert!(matches!(Path::new(1).tested(true), Tested::Scatter(_)));
    assert!(matches!(Path::new(16).tested(true), Tested::Scatter(_)));
}

#[test]
fn absorbed_ray_is_black() {
    match Path::new(16).tested(true) {
        Tested::Scatter(bounce) => assert!(matches!(bounce.scattered(false), Scattered::Black)),
        _ => panic!("a hit below the limit is scattered"),
    }
}

#[test]
fn scattered_ray_goes_on() {
    match Path::new(16).tested(true) {
        Tested::Scatter(bounce) => {
            assert!(matches!(bounce.scattered(true), Scattered::Continue(_)))
        }
        _ => panic!("a hit below the limit is scattered"),
    }
}

#[test]
fn path_is_scattered_as_often_as_the_limit_allows() {
    assert_eq!(scatterings_until_black(0), 0);
    assert_eq!(scatterings_until_black(1), 1);
    assert_eq!(scatterings_until_black(16), 16);
    assert_eq!(scatterings_until_black(50), 50);
}

#[test]
fn path_at_the_largest_limit_starts_at_depth_zero() {
    match Path::new(u32::MAX).tested(true) {
        Tested::Scatter(bounce) => {
            assert!(matches!(bounce.scattered(true), Scattered::Continue(_)))
        }
        _ => panic!("a hit below the limit is scattered"),
    }
}

fn surface_before(end: u32) -> impl Fn(&u32) -> Option<u32> {
    move |ray: &u32| if *ray < end { Some(*ray * 10) } else { None }
}

fn scatter_onwards(ray: &u32, hit: u32) -> Option<(u32, u32)> {
    Some((hit + 1, *ray + 1))
}

fn absorb_at(ray: u32) -> impl Fn(&u32, u32) -> Option<(u32, u32)> {
    move |at: &u32, hit: u32| if *at == ray { None } else { Some((hit + 1, *at + 1)) }
}

#[test]
fn trace_of_a_ray_that_misses_is_the_background_alone() {
    let path = trace(5, 16, &surface_before(3), &scatter_onwards);
    assert!(path.attenuations.is_empty());
    assert!(matches!(path.end, End::Background(5)));
}

#[test]
fn trace_collects_the_attenuations_in_order() {
    let path = trace(0, 16, &surface_before(3), &scatter_onwards);
    assert_eq!(path.attenuations, vec![1, 11, 21]);
    assert!(matches!(path.end, End::Background(3)));
}

#[test]
fn trace_that_leaves_at_the_limit_takes_the_background() {
    let path = trace(0, 3, &surface_before(3), &scatter_onwards);
    assert_eq!(path.attenuations, vec![1, 11, 21]);
    assert!(matches!(path.end, End::Background(3)));
}

#[test]
fn trace_is_cut_off_black_at_the_limit() {
    let path = trace(0, 2, &surface_before(3), &scatter_onwards);
    assert_eq!(path.attenuations, vec![1, 11]);
    assert!(matches!(path.end, End::Black));
}

#[test]
fn trace_with_limit_zero_never_scatters() {
    let hit = trace(0, 0, &surface_before(3), &scatter_onwards);
    assert!(hit.attenuations.is_empty());
    assert!(matches!(hit.end, End::Black));
    let miss = trace(7, 0, &surface_before(3), &scatter_onwards);
    assert!(miss.attenuations.is_empty());
    assert!(matches!(miss.end, End::Background(7)));
}

#[test]
fn trace_of_an_absorbed_ray_is_black() {
    let first = trace(0, 16, &surface_before(3), &absorb_at(0));
    assert!(first.attenuations.is_empty());
    assert!(matches!(first.end, End::Black));
    let later = trace(0, 16, &surface_before(3), &absorb_at(2));
    assert_eq!(later.attenuations, vec![1, 11]);
    assert!(matches!(later.end, End::Black));
}

#[test]
fn trace_among_endless_surfaces_stops_at_the_limit() {
    let path = trace(0, 50, &surface_before(u32::MAX), &scatter_onwards);
    assert_eq!(path.attenuations.len(), 50);
    assert_eq!(path.attenuations[49], 491);
    assert!(matches!(path.end, End::Black));
}

#[test]
fn trace_asks_the_scene_once_for_each_ray() {
    let probes = std::cell::Cell::new(0u32);
    let scatters = std::cell::Cell::new(0u32);
    let path = trace(
        0u32,
        16,
        &|ray: &u32| {
            probes.set(probes.get() + 1);
            if *ray < 4 {
                Some(*ray)
            } else {
                None
            }
        },
        &|ray: &u32, hit: u32| {
            scatters.set(scatters.get() + 1);
            Some((hit, *ray + 1))
        },
    );
    assert_eq!(path.attenuations, vec![0, 1, 2, 3]);
    assert_eq!(probes.get(), 5);
    assert_eq!(scatters.get(), 4);
}
