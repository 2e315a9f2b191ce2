use num_traits::ToPrimitive;
use propagation_nation::nearest::{nearest_points, sort, Point};
use propagation_nation::order_key::{compare_keys, key_from_f32_bits, KeyOrder, OrderKey};
use rand::Rng;

#[derive(Debug, Clone, Copy, PartialEq)]
struct UserData {
    id: u32,
    score: f32,
    category: u8,
}

fn user(id: u32, score: f32, category: u8) -> UserData {
    UserData { id, score, category }
}

/// The Euclidean distance of two points, in single precision.
fn distance<T: ToPrimitive + Copy, U>(a: &Point<T, U>, b: &Point<T, U>) -> f32 {
    let d_x = (a.lat.to_f32().unwrap_or(0f32) - b.lat.to_f32().unwrap_or(0f32))
        * (a.lat.to_f32().unwrap_or(0f32) - b.lat.to_f32().unwrap_or(0f32));
    let d_y = (a.lon.to_f32().unwrap_or(0f32) - b.lon.to_f32().unwrap_or(0f32))
        * (a.lon.to_f32().unwrap_or(0f32) - b.lon.to_f32().unwrap_or(0f32));
    let d_squared: f32 = d_x + d_y;
    d_squared.sqrt()
}

fn distance_key<T: ToPrimitive + Copy, U>(a: &Point<T, U>, b: &Point<T, U>) -> OrderKey {
    key_from_f32_bits(distance(a, b).to_bits())
}

fn key_le(a: OrderKey, b: OrderKey) -> bool {
    matches!(
        compare_keys(&a, &b),
        Some(KeyOrder::Less) | Some(KeyOrder::Equal)
    )
}

fn nearest<T: ToPrimitive + Copy, U: Copy>(
    points: Vec<Point<T, U>>,
    origin: Point<T, U>,
) -> Vec<(Point<T, U>, f32)> {
    nearest_points(points, origin, |a, b| distance_key(a, b))
        .into_iter()
        .map(|(p, k)| {
            let d = distance(&p, &origin);
            assert!(matches!(k, OrderKey::Value(_)));
            assert_eq!(k, key_from_f32_bits(d.to_bits()));
            (p, d)
        })
        .collect()
}

#[test]
fn test_small_set_i32() {
    let origin = Point { lat: 0i32, lon: 0i32, data: user(0, 0.0, 0) };
    let points = vec![
        Point { lat: 3, lon: 4, data: user(1, 1.0, 1) },
        Point { lat: 1, lon: 1, data: user(2, 2.0, 2) },
        Point { lat: 6, lon: 8, data: user(3, 3.0, 3) },
    ];
    let result = nearest(points, origin);
    for i in 0..result.len() - 1 {
        assert!(result[i].1 <= result[i + 1].1, "Not sorted properly");
    }
    assert_eq!(result.len(), 3);
}

#[test]
fn test_small_set_f32() {
    let origin = Point { lat: 0.0f32, lon: 0.0f32, data: user(0, 0.0, 0) };
    let points = vec![
        Point { lat: 1.5, lon: 2.5, data: user(1, 10.5, 1) },
        Point { lat: 0.5, lon: 0.5, data: user(2, 20.3, 2) },
        Point { lat: 3.0, lon: 4.0, data: user(3, 30.7, 3) },
    ];
    let result = nearest(points, origin);
    for i in 0..result.len() - 1 {
        assert!(result[i].1 <= result[i + 1].1, "Not sorted properly");
    }
    assert_eq!(result.len(), 3);
}

#[test]
fn test_large_random_set_i32() {
    let mut rng = rand::rng();
    let origin = Point { lat: 0i32, lon: 0i32, data: user(0, 0.0, 0) };
    let mut points = Vec::new();
    for i in 0..1000 {
        points.push(Point {
            lat: rng.random_range(-1000..1000),
            lon: rng.random_range(-1000..1000),
            data: user(i, rng.random_range(0.0..100.0), rng.random_range(0..10)),
        });
    }
    let result = nearest(points, origin);
    for i in 0..result.len() - 1 {
        assert!(result[i].1 <= result[i + 1].1, "Large set not sorted at index {}", i);
    }
    assert_eq!(result.len(), 1000);
}

#[test]
fn test_large_random_set_f64() {
    let mut rng = rand::rng();
    let origin = Point { lat: 0.0f64, lon: 0.0f64, data: user(0, 0.0, 0) };
    let mut points = Vec::new();
    for i in 0..500000 {
        points.push(Point {
            lat: rng.random_range(-100.0..100.0),
            lon: rng.random_range(-100.0..100.0),
            data: user(i, rng.random_range(0.0..1000.0), rng.random_range(0..5)),
        });
    }
    let result = nearest(points, origin);
    for i in 0..result.len() - 1 {
        assert!(result[i].1 <= result[i + 1].1, "f64 set not sorted at index {}", i);
    }
    assert_eq!(result.len(), 500000);
}

#[test]
fn test_duplicate_distances() {
    let origin = Point { lat: 0i32, lon: 0i32, data: user(0, 0.0, 0) };
    let points = vec![
        Point { lat: 3, lon: 4, data: user(1, 1.0, 1) },
        Point { lat: -3, lon: -4, data: user(2, 2.0, 2) },
        Point { lat: 4, lon: 3, data: user(3, 3.0, 3) },
        Point { lat: -4, lon: -3, data: user(4, 4.0, 4) },
    ];
    let result = nearest(points, origin);
    for (_, dist) in &result {
        assert!((dist - 5.0).abs() < 0.01, "Expected distance ~5.0, got {}", dist);
    }
    assert_eq!(result.len(), 4);
}

#[test]
fn test_single_point() {
    let origin = Point { lat: 5i32, lon: 10i32, data: user(0, 0.0, 0) };
    let points = vec![Point { lat: 7, lon: 12, data: user(1, 99.9, 9) }];
    let result = nearest(points, origin);
    assert_eq!(result.len(), 1);
}

#[test]
fn test_empty_vec() {
    let origin = Point { lat: 0i32, lon: 0i32, data: user(0, 0.0, 0) };
    let points: Vec<Point<i32, UserData>> = vec![];
    let result = nearest(points, origin);
    assert_eq!(result.len(), 0);
}

#[test]
fn test_very_large_coordinates() {
    let origin = Point { lat: 0i32, lon: 0i32, data: user(0, 0.0, 0) };
    let points = vec![
        Point { lat: 10000, lon: 10000, data: user(1, 1.0, 1) },
        Point { lat: -10000, lon: -10000, data: user(2, 2.0, 2) },
        Point { lat: 5000, lon: 5000, data: user(3, 3.0, 3) },
    ];
    let result = nearest(points, origin);
    for i in 0..result.len() - 1 {
        assert!(result[i].1 <= result[i + 1].1);
    }
}

#[test]
fn test_stress_with_i16() {
    let mut rng = rand::rng();
    let origin = Point { lat: 0i16, lon: 0i16, data: user(0, 0.0, 0) };
    let mut points = Vec::new();
    for i in 0..500 {
        points.push(Point {
            lat: rng.random_range(-1000..1000),
            lon: rng.random_range(-1000..1000),
            data: user(i, rng.random_range(0.0..50.0), rng.random_range(0..3)),
        });
    }
    let result = nearest(points, origin);
    for i in 0..result.len() - 1 {
        assert!(result[i].1 <= result[i + 1].1);
    }
    assert_eq!(result.len(), 500);
}

#[test]
fn test_stress_with_f32_negative() {
    let mut rng = rand::rng();
    let origin = Point { lat: -50.0f32, lon: -50.0f32, data: user(999, 100.0, 9) };
    let mut points = Vec::new();
    for i in 0..300 {
        points.push(Point {
            lat: rng.random_range(-200.0..200.0),
            lon: rng.random_range(-200.0..200.0),
            data: user(i, rng.random_range(-50.0..50.0), rng.random_range(0..20)),
        });
    }
    let result = nearest(points, origin);
    for i in 0..result.len() - 1 {
        assert!(
            result[i].1 <= result[i + 1].1,
            "Failed at index {} with distances {} and {}",
            i,
            result[i].1,
            result[i + 1].1
        );
    }
    assert_eq!(result.len(), 300);
}

#[test]
fn it_works() {
    let origin = Point { lat: 0.0f32, lon: 0.0f32, data: () };
    let result = nearest(vec![Point { lat: 1.0f32, lon: 0.0f32, data: () }], origin);
    assert_eq!(result.len(), 1);
}

// The library's own scenarios.

#[test]
fn nearest_first_order_and_distances() {
    let origin = Point { lat: 0i32, lon: 0i32, data: user(0, 0.0, 0) };
    let points = vec![
        Point { lat: 6, lon: 8, data: user(3, 0.0, 0) },
        Point { lat: 3, lon: 4, data: user(1, 0.0, 0) },
        Point { lat: 1, lon: 1, data: user(2, 0.0, 0) },
    ];
    let result = nearest(points, origin);
    let ids: Vec<u32> = result.iter().map(|(p, _)| p.data.id).collect();
    assert_eq!(ids, vec![2, 1, 3]);
    assert_eq!(result[1].1, 5.0);
    assert_eq!(result[2].1, 10.0);
}

#[test]
fn equal_distances_keep_their_order() {
    let items: Vec<(u32, OrderKey)> = vec![
        (1, OrderKey::Value(5)),
        (2, OrderKey::Value(1)),
        (3, OrderKey::Value(5)),
        (4, OrderKey::Value(1)),
        (5, OrderKey::Value(3)),
    ];
    let sorted = sort(items);
    let ids: Vec<u32> = sorted.iter().map(|e| e.0).collect();
    assert_eq!(ids, vec![2, 4, 5, 1, 3]);
}

#[test]
fn incomparable_entries_are_left_out() {
    let items: Vec<(u32, OrderKey)> = vec![
        (1, OrderKey::Value(5)),
        (2, OrderKey::Incomparable),
        (3, OrderKey::Value(2)),
        (4, OrderKey::Value(2)),
    ];
    // The middle entry (index 2) is comparable: only the incomparable entry goes.
    let sorted = sort(items);
    let ids: Vec<u32> = sorted.iter().map(|e| e.0).collect();
    assert_eq!(ids, vec![3, 4, 1]);
}

#[test]
fn incomparable_pivot_keeps_nothing() {
    let items: Vec<(u32, OrderKey)> = vec![
        (1, OrderKey::Value(5)),
        (2, OrderKey::Incomparable),
        (3, OrderKey::Value(2)),
    ];
    assert_eq!(sort(items).len(), 0);
}

#[test]
fn a_single_entry_comes_back_unchanged() {
    let items: Vec<(u32, OrderKey)> = vec![(7, OrderKey::Incomparable)];
    let sorted = sort(items);
    assert_eq!(sorted.len(), 1);
    assert_eq!(sorted[0].0, 7);
    assert!(matches!(sorted[0].1, OrderKey::Incomparable));
}

#[test]
fn nan_distances_are_dropped() {
    let origin = Point { lat: 0.0f32, lon: 0.0f32, data: 0u8 };
    let points = vec![
        Point { lat: 2.0f32, lon: 0.0, data: 1u8 },
        Point { lat: f32::NAN, lon: 0.0, data: 2u8 },
        Point { lat: 1.0f32, lon: 0.0, data: 3u8 },
        Point { lat: 3.0f32, lon: 0.0, data: 4u8 },
    ];
    let result = nearest_points(points, origin, |a, b| distance_key(a, b));
    let ids: Vec<u8> = result.iter().map(|(p, _)| p.data).collect();
    assert_eq!(ids, vec![3, 1, 4]);
}

#[test]
fn nan_distance_in_the_middle_drops_all() {
    let origin = Point { lat: 0.0f32, lon: 0.0, data: 0u8 };
    let points = vec![
        Point { lat: 2.0f32, lon: 0.0, data: 1u8 },
        Point { lat: f32::NAN, lon: 0.0, data: 2u8 },
        Point { lat: 1.0f32, lon: 0.0, data: 3u8 },
    ];
    assert_eq!(nearest_points(points, origin, |a, b| distance_key(a, b)).len(), 0);
}

#[test]
fn float_keys_follow_float_order() {
    let values: Vec<f32> = vec![
        f32::NEG_INFINITY,
        -1.5e30,
        -2.0,
        -1.0,
        -1.0e-40,
        -0.0,
        0.0,
        1.0e-40,
        0.5,
        1.0,
        3.25,
        1.0e30,
        f32::INFINITY,
    ];
    for a in &values {
        for b in &values {
            let expected = match a.partial_cmp(b) {
                Some(std::cmp::Ordering::Less) => Some(KeyOrder::Less),
                Some(std::cmp::Ordering::Equal) => Some(KeyOrder::Equal),
                Some(std::cmp::Ordering::Greater) => Some(KeyOrder::Greater),
                None => None,
            };
            let got = compare_keys(&key_from_f32_bits(a.to_bits()), &key_from_f32_bits(b.to_bits()));
            assert_eq!(got, expected, "{} vs {}", a, b);
        }
    }
    assert_eq!(key_from_f32_bits(0.0f32.to_bits()), OrderKey::Value(0));
    assert_eq!(key_from_f32_bits((-0.0f32).to_bits()), OrderKey::Value(0));
    assert_eq!(key_from_f32_bits(1.0f32.to_bits()), OrderKey::Value(0x3f80_0000));
    assert_eq!(key_from_f32_bits((-2.0f32).to_bits()), OrderKey::Value(-0x4000_0000));
    assert!(matches!(key_from_f32_bits(f32::NAN.to_bits()), OrderKey::Incomparable));
    assert_eq!(compare_keys(&key_from_f32_bits(f32::NAN.to_bits()), &OrderKey::Value(0)), None);
}

#[test]
fn point_getters() {
    let p = Point { lat: 12i64, lon: -7i64, data: 1u8 };
    assert_eq!(p.lat(), 12);
    assert_eq!(p.lon(), -7);
}

#[test]
fn sorting_sorted_entries_changes_nothing() {
    let items: Vec<(char, OrderKey)> = vec![
        ('a', OrderKey::Value(-3)),
        ('b', OrderKey::Value(0)),
        ('c', OrderKey::Value(0)),
        ('d', OrderKey::Value(9)),
    ];
    let once = sort(items.clone());
    assert_eq!(once, items);
    assert_eq!(sort(once.clone()), once);
}
