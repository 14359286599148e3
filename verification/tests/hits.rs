use ray_tracer_challenge::intersection::{Intersection, Intersections};
use ray_tracer_challenge::object::Object;
use ray_tracer_challenge::scalar::Scalar;

fn num(x: f64) -> Scalar {
    Scalar { bits: x.to_bits() }
}

fn val(s: Scalar) -> f64 {
    f64::from_bits(s.bits)
}

fn ts(xs: &Intersections) -> Vec<f64> {
    xs.0.iter().map(|i| val(i.t)).collect()
}

#[test]
fn the_hit_when_all_intersections_have_positive_t() {
    let mut intersections = Intersections(vec![]);
    let s = Object::sphere();
    let i1 = Intersection { t: num(1.), object: &s };
    let i2 = Intersection { t: num(2.), object: &s };
    intersections.push(i2);
    intersections.push(i1);
    assert_eq!(
        intersections.hit(),
        Some((0, &Intersection { t: num(1.), object: &s }))
    );
}

#[test]
fn the_hit_when_all_intersections_have_positive_t_reversed() {
    let mut intersections = Intersections(vec![]);
    let s = Object::sphere();
    let i1 = Intersection { t: num(1.), object: &s };
    let i2 = Intersection { t: num(2.), object: &s };
    intersections.push(i1);
    intersections.push(i2);
    assert_eq!(
        intersections.hit(),
        Some((0, &Intersection { t: num(1.), object: &s }))
    );
}

#[test]
fn the_hit_when_some_intersections_have_negative_t() {
    let mut intersections = Intersections(vec![]);
    let s = Object::sphere();
    let i1 = Intersection { t: num(-1.), object: &s };
    let i2 = Intersection { t: num(1.), object: &s };
    intersections.push(i1);
    intersections.push(i2);
    assert_eq!(
        intersections.hit(),
        Some((1, &Intersection { t: num(1.), object: &s }))
    );
}

#[test]
fn the_hit_when_some_intersections_have_negative_t_reversed() {
    let mut intersections = Intersections(vec![]);
    let s = Object::sphere();
    let i1 = Intersection { t: num(-1.), object: &s };
    let i2 = Intersection { t: num(1.), object: &s };
    intersections.push(i2);
    intersections.push(i1);
    assert_eq!(
        intersections.hit(),
        Some((1, &Intersection { t: num(1.), object: &s }))
    );
}

#[test]
fn the_hit_when_all_intersections_have_negative_t() {
    let mut intersections = Intersections(vec![]);
    let s = Object::sphere();
    let i1 = Intersection { t: num(-1.), object: &s };
    let i2 = Intersection { t: num(-2.), object: &s };
    intersections.push(i2);
    intersections.push(i1);
    assert_eq!(intersections.hit(), None);
}

#[test]
fn the_hit_is_always_the_lowest_nonnegative_intersection() {
    let mut intersections = Intersections(vec![]);
    let s = Object::sphere();
    let i1 = Intersection { t: num(5.), object: &s };
    let i2 = Intersection { t: num(7.), object: &s };
    let i3 = Intersection { t: num(-3.), object: &s };
    let i4 = Intersection { t: num(2.), object: &s };
    intersections.push(i1);
    intersections.push(i2);
    intersections.push(i3);
    intersections.push(i4);
    assert_eq!(
        intersections.hit(),
        Some((1, &Intersection { t: num(2.), object: &s }))
    );
    assert_eq!(ts(&intersections), vec![-3., 2., 5., 7.]);
}

#[test]
fn the_hit_does_not_depend_on_the_order_of_insertion() {
    let s = Object::sphere();
    let values = [5., 7., -3., 2., 0.5, -0.25];
    let orders: [[usize; 6]; 6] = [
        [0, 1, 2, 3, 4, 5],
        [5, 4, 3, 2, 1, 0],
        [2, 0, 4, 1, 5, 3],
        [4, 5, 0, 3, 2, 1],
        [3, 2, 1, 0, 5, 4],
        [1, 3, 5, 0, 2, 4],
    ];
    for order in orders {
        let mut xs = Intersections(vec![]);
        for k in order {
            xs.push(Intersection { t: num(values[k]), object: &s });
        }
        assert_eq!(ts(&xs), vec![-3., -0.25, 0.5, 2., 5., 7.]);
        let (index, hit) = xs.hit().unwrap();
        assert_eq!(index, 2);
        assert_eq!(val(hit.t), 0.5);
    }
}

#[test]
fn an_empty_list_has_no_hit() {
    let xs = Intersections(vec![]);
    assert_eq!(xs.hit(), None);
}

#[test]
fn a_hit_at_zero_counts_and_a_nan_never_does() {
    let s = Object::sphere();
    let mut xs = Intersections(vec![]);
    xs.push(Intersection { t: num(f64::NAN), object: &s });
    assert!(xs.hit().is_none());
    xs.push(Intersection { t: num(-1.), object: &s });
    assert!(xs.hit().is_none());
    xs.push(Intersection { t: num(f64::INFINITY), object: &s });
    assert_eq!(xs.hit().unwrap().0, 1);
    xs.push(Intersection { t: num(-0.), object: &s });
    let (index, hit) = xs.hit().unwrap();
    assert_eq!(index, 1);
    assert_eq!(hit.t, num(-0.));
    assert_eq!(xs.0.len(), 4);
    assert_eq!(val(xs.0[0].t), -1.);
    assert_eq!(val(xs.0[2].t), f64::INFINITY);
    assert!(val(xs.0[3].t).is_nan());
}

#[test]
fn hits_at_the_same_distance_keep_the_order_of_insertion() {
    let a = Object::sphere();
    let b = Object::sphere();
    let c = Object::plane();
    let mut xs = Intersections(vec![]);
    xs.push(Intersection { t: num(1.), object: &b });
    xs.push(Intersection { t: num(2.), object: &c });
    xs.push(Intersection { t: num(1.), object: &a });
    xs.push(Intersection { t: num(0.5), object: &c });
    xs.push(Intersection { t: num(1.), object: &c });
    xs.push(Intersection { t: num(0.), object: &a });
    xs.push(Intersection { t: num(-0.), object: &b });
    let ids: Vec<u128> = xs.0.iter().map(|i| i.object.uuid).collect();
    assert_eq!(ts(&xs), vec![0., -0., 0.5, 1., 1., 1., 2.]);
    assert_eq!(ids, vec![a.uuid, b.uuid, c.uuid, b.uuid, a.uuid, c.uuid, c.uuid]);
    assert_eq!(xs.hit().unwrap().1.object.uuid, a.uuid);
}

#[test]
fn pushing_onto_a_list_in_disorder_puts_all_of_it_in_order() {
    let s = Object::sphere();
    let at = |t: f64| Intersection { t: num(t), object: &s };
    let mut xs = Intersections(vec![at(3.), at(1.), at(f64::NAN), at(2.)]);
    assert_eq!(xs.hit().unwrap().0, 0);
    xs.push(at(0.));
    assert_eq!(ts(&xs)[..4], [0., 1., 2., 3.]);
    assert!(ts(&xs)[4].is_nan());
    assert_eq!(xs.hit().unwrap().0, 0);
}

#[test]
fn appending_moves_every_hit_and_sorts() {
    let a = Object::sphere();
    let b = Object::plane();
    let mut xs = Intersections(vec![
        Intersection { t: num(1.), object: &a },
        Intersection { t: num(4.), object: &a },
    ]);
    let mut more = Intersections(vec![
        Intersection { t: num(6.), object: &b },
        Intersection { t: num(-2.), object: &b },
        Intersection { t: num(4.), object: &b },
    ]);
    xs.append(&mut more);
    assert_eq!(more.0.len(), 0);
    assert_eq!(ts(&xs), vec![-2., 1., 4., 4., 6.]);
    let ids: Vec<u128> = xs.0.iter().map(|i| i.object.uuid).collect();
    assert_eq!(ids, vec![b.uuid, a.uuid, a.uuid, b.uuid, b.uuid]);
    let mut nothing = Intersections(vec![]);
    xs.append(&mut nothing);
    assert_eq!(ts(&xs), vec![-2., 1., 4., 4., 6.]);
}

#[test]
fn intersections_are_equal_when_their_parameters_are() {
    let a = Object::sphere();
    let b = Object::plane();
    assert_eq!(Intersection { t: num(1.), object: &a }, Intersection { t: num(1.), object: &b });
    assert_eq!(Intersection { t: num(0.), object: &a }, Intersection { t: num(-0.), object: &a });
    assert_ne!(Intersection { t: num(1.), object: &a }, Intersection { t: num(2.), object: &a });
    assert_ne!(
        Intersection { t: num(f64::NAN), object: &a },
        Intersection { t: num(f64::NAN), object: &a }
    );
}

#[test]
fn the_media_outside_the_list_are_empty_space() {
    let a = Object::glass_sphere();
    let xs = Intersections(vec![
        Intersection { t: num(1.), object: &a },
        Intersection { t: num(2.), object: &a },
    ]);
    assert_eq!(xs.refractive_indices(0), (num(1.), num(1.5)));
    assert_eq!(xs.refractive_indices(1), (num(1.5), num(1.)));
    assert_eq!(xs.refractive_indices(2), (num(1.), num(1.)));
    assert_eq!(xs.refractive_indices(usize::MAX), (num(1.), num(1.)));
    assert_eq!(Intersections(vec![]).refractive_indices(0), (num(1.), num(1.)));
}

#[test]
fn objects_that_look_alike_are_still_told_apart() {
    let a = Object::glass_sphere();
    let b = Object::glass_sphere();
    assert_eq!(a.shape, b.shape);
    assert_eq!(a.material, b.material);
    assert_eq!(a.transform, b.transform);
    assert_ne!(a.uuid, b.uuid);
    let xs = Intersections(vec![
        Intersection { t: num(1.), object: &a },
        Intersection { t: num(2.), object: &b },
        Intersection { t: num(3.), object: &a },
        Intersection { t: num(4.), object: &b },
    ]);
    assert_eq!(xs.refractive_indices(0), (num(1.), num(1.5)));
    assert_eq!(xs.refractive_indices(1), (num(1.5), num(1.5)));
    assert_eq!(xs.refractive_indices(2), (num(1.5), num(1.5)));
    assert_eq!(xs.refractive_indices(3), (num(1.5), num(1.)));
    let copy = a;
    let same = Intersections(vec![
        Intersection { t: num(1.), object: &a },
        Intersection { t: num(2.), object: &copy },
    ]);
    assert_eq!(same.refractive_indices(1), (num(1.5), num(1.)));
}

#[test]
fn leaving_an_outer_object_first_keeps_the_inner_one_on_top() {
    let a = Object::glass_sphere().set_refractive_index(num(1.5));
    let b = Object::glass_sphere().set_refractive_index(num(2.));
    let c = Object::glass_sphere().set_refractive_index(num(2.5));
    let xs = Intersections(vec![
        Intersection { t: num(1.), object: &a },
        Intersection { t: num(2.), object: &b },
        Intersection { t: num(3.), object: &c },
        Intersection { t: num(4.), object: &a },
        Intersection { t: num(5.), object: &c },
        Intersection { t: num(6.), object: &b },
    ]);
    let expected = [(1., 1.5), (1.5, 2.), (2., 2.5), (2.5, 2.5), (2.5, 2.), (2., 1.)];
    for (index, (n1, n2)) in expected.into_iter().enumerate() {
        assert_eq!(xs.refractive_indices(index), (num(n1), num(n2)));
    }
}

#[test]
fn intersections_compare_by_their_parameters() {
    let a = Object::sphere();
    let b = Object::plane();
    let at = |t: f64| Intersection { t: num(t), object: &a };
    assert!(at(1.) < at(2.));
    assert!(at(2.) > at(1.));
    assert!(at(-1.) < at(0.));
    assert!(!(at(1.) < at(1.)));
    assert!(at(1.) <= Intersection { t: num(1.), object: &b });
    assert!(at(1.) >= Intersection { t: num(1.), object: &b });
    assert!(at(0.) <= at(-0.));
    assert!(at(f64::INFINITY) < at(f64::NAN));
    assert!(at(f64::NAN) > at(f64::INFINITY));
    assert!(at(f64::NAN) > at(f64::NAN));
    assert_eq!(at(1.).partial_cmp(&at(2.)), Some(std::cmp::Ordering::Less));
    assert_eq!(at(2.).partial_cmp(&at(2.)), Some(std::cmp::Ordering::Equal));
    assert_eq!(at(3.).partial_cmp(&at(2.)), Some(std::cmp::Ordering::Greater));
    let mut sorted = vec![at(3.), at(f64::NAN), at(-1.), at(2.)];
    sorted.sort_by(|x, y| x.partial_cmp(y).unwrap());
    let mut pushed = Intersections(vec![]);
    for x in [at(3.), at(f64::NAN), at(-1.), at(2.)] {
        pushed.push(x);
    }
    for (x, y) in sorted.iter().zip(pushed.0.iter()) {
        assert_eq!(x.t.bits, y.t.bits);
    }
}

#[test]
fn hits_at_distinct_distances_sort_one_way() {
    let a = Object::sphere();
    let b = Object::plane();
    let c = Object::glass_sphere();
    let hits = [
        Intersection { t: num(1.), object: &a },
        Intersection { t: num(-1.), object: &b },
        Intersection { t: num(0.25), object: &c },
        Intersection { t: num(f64::NAN), object: &a },
        Intersection { t: num(7.), object: &b },
    ];
    let orders: [[usize; 5]; 5] =
        [[0, 1, 2, 3, 4], [4, 3, 2, 1, 0], [2, 4, 0, 3, 1], [3, 0, 1, 4, 2], [1, 2, 3, 4, 0]];
    for order in orders {
        let mut xs = Intersections(vec![]);
        for k in order {
            xs.push(hits[k]);
        }
        let ids: Vec<u128> = xs.0.iter().map(|i| i.object.uuid).collect();
        assert_eq!(ids, vec![b.uuid, c.uuid, a.uuid, b.uuid, a.uuid]);
        assert_eq!(ts(&xs)[..4], [-1., 0.25, 1., 7.]);
        let (index, hit) = xs.hit().unwrap();
        assert_eq!(index, 1);
        assert_eq!(val(hit.t), 0.25);
        assert_eq!(hit.object.uuid, c.uuid);
    }
    let mut one = Intersections(vec![]);
    one.push(hits[0]);
    one.push(hits[1]);
    let mut other = Intersections(vec![]);
    other.push(hits[1]);
    other.push(hits[0]);
    assert_eq!(one.hit(), Some((1, &hits[0])));
    assert_eq!(other.hit(), Some((1, &hits[0])));
    assert_eq!(one.hit().unwrap().1.object.uuid, other.hit().unwrap().1.object.uuid);
}
