use preimage::range::Add;
use preimage::{item, HigherIntoIterator};

#[test]
fn add_example_target_zero() {
    let mut it = Add.hinto_iter(item(0i64..1i64));
    assert_eq!(it.next(), Some((0, 0)));
    assert_eq!(it.next(), Some((1, -1)));
    assert_eq!(it.next(), Some((-1, 1)));
    assert_eq!(it.next(), Some((2, -2)));
    assert_eq!(it.next(), Some((-2, 2)));
}

#[test]
fn add_scalar_delegates_to_degenerate_range() {
    let mut scalar = Add.hinto_iter(item(0i64));
    let mut range = Add.hinto_iter(item(0i64..1i64));
    for _ in 0..20 {
        assert_eq!(scalar.next(), range.next());
    }
}

#[test]
fn add_second_component_order() {
    let mut it = Add.hinto_iter(item(0i64..2i64));
    let expected_b = [0, 0, -1, -1, 1, 1, -2, -2, 2, 2, -3, -3, 3, 3];
    for &b in expected_b.iter() {
        let (_, got_b) = it.next().unwrap();
        assert_eq!(got_b, b);
    }
}

#[test]
fn add_sums_always_in_range() {
    let mut it = Add.hinto_iter(item(3i64..7i64));
    for _ in 0..50 {
        let (a, b) = it.next().unwrap();
        let sum = a + b;
        assert!(3 <= sum && sum < 7);
    }
}

#[test]
fn add_no_pair_produced_twice() {
    let mut it = Add.hinto_iter(item(0i64..3i64));
    let mut seen: Vec<(i64, i64)> = Vec::new();
    for _ in 0..60 {
        let p = it.next().unwrap();
        assert!(!seen.contains(&p));
        seen.push(p);
    }
}

#[test]
fn add_bounded_pairs_all_appear() {
    // Every pair (a, b) with a + b in [0, 2) and |b| <= 2 must appear
    // within the first (2 * 2 + 1) * 2 = 10 elements.
    let mut it = Add.hinto_iter(item(0i64..2i64));
    let mut seen: Vec<(i64, i64)> = Vec::new();
    for _ in 0..10 {
        seen.push(it.next().unwrap());
    }
    for b in -2i64..=2i64 {
        for sum in 0i64..2i64 {
            let pair = (sum - b, b);
            assert!(seen.contains(&pair));
        }
    }
}

#[test]
fn add_empty_range_yields_nothing() {
    let mut it = Add.hinto_iter(item(5i64..5i64));
    assert_eq!(it.next(), None);
    assert_eq!(it.next(), None);
    let mut rev = Add.hinto_iter(item(7i64..2i64));
    assert_eq!(rev.next(), None);
}
