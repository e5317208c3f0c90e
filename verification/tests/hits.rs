use raycore::systems::tracing::intersection::hit_index;
use raycore::systems::tracing::{hit, Distance, IntersectionRecord, IntersectionSubsystem};

#[derive(Debug, PartialEq)]
struct Sphere {
    radius: f32,
}

fn at(t: f32) -> Distance {
    Distance::from_bits(t.to_bits())
}

fn value(d: Distance) -> f32 {
    f32::from_bits(d.to_bits())
}

fn records<'a>(ts: &[f32], s: &'a Sphere) -> Vec<IntersectionRecord<&'a Sphere>> {
    ts.iter().map(|t| IntersectionRecord { t: at(*t), object: s }).collect()
}

#[test]
fn nearest_hit() {
    let s = &Sphere { radius: 1.0 };
    // smallest
    let i1 = IntersectionRecord { t: at(1.0), object: s };
    let i2 = IntersectionRecord { t: at(2.0), object: s };
    assert_eq!(&i1, IntersectionSubsystem::nearest_hit(&vec![i1, i2]).unwrap());

    // filter negatives
    let i1 = IntersectionRecord { t: at(-1.0), object: s };
    let i2 = IntersectionRecord { t: at(1.0), object: s };
    assert_eq!(&i2, IntersectionSubsystem::nearest_hit(&vec![i1, i2]).unwrap());

    // no intersection in frustum
    let i1 = IntersectionRecord { t: at(-2.0), object: s };
    let i2 = IntersectionRecord { t: at(-1.0), object: s };
    assert_eq!(None, IntersectionSubsystem::nearest_hit(&vec![i1, i2]));

    // smallest positive
    let i1 = IntersectionRecord { t: at(5.0), object: s };
    let i2 = IntersectionRecord { t: at(7.0), object: s };
    let i3 = IntersectionRecord { t: at(-3.0), object: s };
    let i4 = IntersectionRecord { t: at(2.0), object: s };
    assert_eq!(&i4, IntersectionSubsystem::nearest_hit(&vec![i1, i2, i3, i4]).unwrap());
}

#[test]
fn test_intersection_hit() {
    // smallest
    let s = Sphere { radius: 1.0 };
    let i1 = IntersectionRecord { t: at(1.0), object: &s };
    let i2 = IntersectionRecord { t: at(2.0), object: &s };
    assert_eq!(&i1, hit(&vec![i1, i2]).unwrap());

    // filter negatives
    let i1 = IntersectionRecord { t: at(-1.0), object: &s };
    let i2 = IntersectionRecord { t: at(1.0), object: &s };
    assert_eq!(&i2, hit(&vec![i1, i2]).unwrap());

    // no intersection in frustum
    let i1 = IntersectionRecord { t: at(-2.0), object: &s };
    let i2 = IntersectionRecord { t: at(-1.0), object: &s };
    assert_eq!(None, hit(&vec![i1, i2]));

    // smallest positive
    let i1 = IntersectionRecord { t: at(5.0), object: &s };
    let i2 = IntersectionRecord { t: at(7.0), object: &s };
    let i3 = IntersectionRecord { t: at(-3.0), object: &s };
    let i4 = IntersectionRecord { t: at(2.0), object: &s };
    assert_eq!(&i4, hit(&vec![i1, i2, i3, i4]).unwrap());
}

#[test]
fn selected_hit_has_the_least_distance_ahead() {
    let s = Sphere { radius: 1.0 };
    let list = records(&[5.0, 7.0, -3.0, 2.0], &s);
    let found = hit(&list).unwrap();
    assert_eq!(2.0, value(found.t));
    assert_eq!(Some(3), hit_index(&list));
}

#[test]
fn all_negative_distances_give_no_hit() {
    let s = Sphere { radius: 1.0 };
    let list = records(&[-6.0, -4.0, -0.5, -1.0e-30], &s);
    assert_eq!(None, hit(&list));
    assert_eq!(None, hit_index(&list));
}

#[test]
fn no_records_give_no_hit() {
    let list: Vec<IntersectionRecord<u32>> = Vec::new();
    assert_eq!(None, hit(&list));
    assert_eq!(None, hit_index(&list));
    assert_eq!(None, IntersectionSubsystem::nearest_hit(&list));
}

#[test]
fn first_of_equal_distances_is_taken() {
    let list = vec![
        IntersectionRecord { t: at(4.0), object: 10u32 },
        IntersectionRecord { t: at(-1.0), object: 11 },
        IntersectionRecord { t: at(3.0), object: 12 },
        IntersectionRecord { t: at(3.0), object: 13 },
    ];
    assert_eq!(Some(2), hit_index(&list));
    assert_eq!(12, hit(&list).unwrap().object);
}

#[test]
fn tangent_pair_selects_the_first_record() {
    let list = vec![
        IntersectionRecord { t: at(5.0), object: 0u32 },
        IntersectionRecord { t: at(5.0), object: 1 },
    ];
    assert_eq!(Some(0), hit_index(&list));
}

#[test]
fn hit_at_the_origin_counts_as_ahead() {
    let list = vec![
        IntersectionRecord { t: at(1.0), object: 0u32 },
        IntersectionRecord { t: at(0.0), object: 1 },
    ];
    assert_eq!(Some(1), hit_index(&list));
}

#[test]
fn negative_zero_counts_as_a_hit_at_the_origin() {
    let list = vec![
        IntersectionRecord { t: at(2.0), object: 0u32 },
        IntersectionRecord { t: at(-0.0), object: 1 },
    ];
    assert_eq!(Some(1), hit_index(&list));
    assert!(!at(-0.0).is_negative());
    assert!(!at(0.0).is_negative());
    assert!(!at(-0.0).is_before(&at(0.0)));
    assert!(!at(0.0).is_before(&at(-0.0)));
    assert!(at(-1.0e-45).is_negative());
}

#[test]
fn inside_sphere_pair_selects_the_exit() {
    let list = vec![
        IntersectionRecord { t: at(-1.0), object: 0u32 },
        IntersectionRecord { t: at(1.0), object: 0 },
    ];
    assert_eq!(Some(1), hit_index(&list));
}

#[test]
fn distance_round_trips_through_bits() {
    for t in [0.0f32, -0.0, 1.0, -1.0, 2.5, -3.75, 1.0e-40, -1.0e-40, f32::MAX, f32::MIN, f32::INFINITY, f32::NEG_INFINITY] {
        assert_eq!(t.to_bits(), at(t).to_bits());
    }
    assert_eq!(0x7fc0_0000, Distance::from_bits(0x7fc0_0000).to_bits());
    assert_eq!(0xffff_ffff, Distance::from_bits(0xffff_ffff).to_bits());
    assert_eq!(0x8000_0000, Distance::from_bits(0x8000_0000).to_bits());
}

#[test]
fn distance_keys_order_as_the_distances() {
    let ts = [
        f32::NEG_INFINITY, f32::MIN, -7.0, -2.0, -1.0, -1.0e-40, -0.0, 0.0, 1.0e-40, 0.5, 1.0, 2.0, 4.0, 6.0,
        f32::MAX, f32::INFINITY,
    ];
    for a in ts {
        for b in ts {
            assert_eq!(a < b, at(a).is_before(&at(b)), "{} {}", a, b);
        }
    }
}

#[test]
fn distance_is_negative_below_zero() {
    for t in [-6.0f32, -4.0, -1.0, f32::NEG_INFINITY, -1.0e-40] {
        assert!(at(t).is_negative(), "{}", t);
    }
    for t in [0.0f32, -0.0, 1.0, 4.0, 6.0, f32::INFINITY, 1.0e-40] {
        assert!(!at(t).is_negative(), "{}", t);
    }
}

#[test]
fn bit_patterns_of_the_reference_distances() {
    assert!(Distance::from_bits(0xbf80_0000).is_before(&Distance::from_bits(0)));
    assert!(Distance::from_bits(0xc000_0000).is_before(&Distance::from_bits(0xbf80_0000)));
    assert!(Distance::from_bits(0x3f80_0000).is_before(&Distance::from_bits(0x4000_0000)));
    assert!(Distance::from_bits(0xffff_ffff).is_before(&Distance::from_bits(0xff80_0000)));
    assert!(Distance::from_bits(0x7f80_0000).is_before(&Distance::from_bits(0x7fc0_0000)));
    assert_ne!(Distance::from_bits(0x8000_0000), Distance::from_bits(0));
}

fn distances(list: &[IntersectionRecord<u32>]) -> Vec<f32> {
    list.iter().map(|r| value(r.t)).collect()
}

#[test]
fn sort_hits_orders_by_distance() {
    let mut list: Vec<IntersectionRecord<u32>> = [5.0f32, 7.0, -3.0, 2.0, 0.0, -0.5, 6.0]
        .iter()
        .enumerate()
        .map(|(i, t)| IntersectionRecord { t: at(*t), object: i as u32 })
        .collect();
    IntersectionSubsystem::sort_hits(&mut list);
    assert_eq!(vec![-3.0, -0.5, 0.0, 2.0, 5.0, 6.0, 7.0], distances(&list));
    let objects: Vec<u32> = list.iter().map(|r| r.object).collect();
    assert_eq!(vec![2, 5, 4, 3, 0, 6, 1], objects);
}

#[test]
fn sort_hits_keeps_the_order_of_equal_distances() {
    let mut list: Vec<IntersectionRecord<u32>> = [4.0f32, 1.0, 4.0, 1.0, 4.0, -2.0, 1.0]
        .iter()
        .enumerate()
        .map(|(i, t)| IntersectionRecord { t: at(*t), object: i as u32 })
        .collect();
    IntersectionSubsystem::sort_hits(&mut list);
    let objects: Vec<u32> = list.iter().map(|r| r.object).collect();
    assert_eq!(vec![5, 1, 3, 6, 0, 2, 4], objects);
}

#[test]
fn sort_hits_on_short_lists() {
    let mut none: Vec<IntersectionRecord<u32>> = Vec::new();
    IntersectionSubsystem::sort_hits(&mut none);
    assert!(none.is_empty());
    let mut one = vec![IntersectionRecord { t: at(3.0), object: 9u32 }];
    IntersectionSubsystem::sort_hits(&mut one);
    assert_eq!(vec![IntersectionRecord { t: at(3.0), object: 9u32 }], one);
    let mut two = vec![
        IntersectionRecord { t: at(6.0), object: 0u32 },
        IntersectionRecord { t: at(4.0), object: 1 },
    ];
    IntersectionSubsystem::sort_hits(&mut two);
    assert_eq!(vec![4.0, 6.0], distances(&two));
}

#[test]
fn after_sorting_the_hit_is_the_first_record_ahead() {
    let mut list: Vec<IntersectionRecord<u32>> = [5.0f32, -1.0, 7.0, -3.0, 2.0]
        .iter()
        .enumerate()
        .map(|(i, t)| IntersectionRecord { t: at(*t), object: i as u32 })
        .collect();
    let unsorted = hit(&list).unwrap().object;
    IntersectionSubsystem::sort_hits(&mut list);
    assert_eq!(Some(2), hit_index(&list));
    assert_eq!(unsorted, hit(&list).unwrap().object);
}
