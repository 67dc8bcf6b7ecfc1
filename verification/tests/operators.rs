use preimage::range::{Id, Neg, Square};
use preimage::{item, HigherIntoIterator};

#[test]
fn neg_range_transform() {
    let r = Neg.hinto_iter(item(2i64..5i64));
    assert_eq!(r, -4i64..-1i64);
}

#[test]
fn neg_involution_example() {
    let once = Neg.hinto_iter(item(-10i64..42i64));
    let twice = Neg.hinto_iter(item(once));
    assert_eq!(twice, -10i64..42i64);
}

#[test]
fn neg_scalar() {
    assert_eq!(Neg.hinto_iter(item(7i64)), -7i64..-6i64);
    assert_eq!(Neg.hinto_iter(item(0i64)), 0i64..1i64);
    assert_eq!(Neg.hinto_iter(item(-3i64)), 3i64..4i64);
}

#[test]
fn neg_empty_range_stays_empty() {
    let r = Neg.hinto_iter(item(5i64..5i64));
    assert!(r.is_empty());
}

#[test]
fn id_range_fixpoint() {
    assert_eq!(Id.hinto_iter(item(-3i64..9i64)), -3i64..9i64);
    assert_eq!(Id.hinto_iter(item(4i64..4i64)), 4i64..4i64);
}

#[test]
fn id_scalar() {
    assert_eq!(Id.hinto_iter(item(4i64)), 4i64..5i64);
    assert_eq!(Id.hinto_iter(item(-1i64)), -1i64..0i64);
}

#[test]
fn square_scalar_perfect() {
    assert_eq!(Square.hinto_iter(item(16i64)), 4i64..5i64);
    assert_eq!(Square.hinto_iter(item(0i64)), 0i64..1i64);
    assert_eq!(Square.hinto_iter(item(1i64)), 1i64..2i64);
}

#[test]
fn square_scalar_non_square() {
    assert_eq!(Square.hinto_iter(item(15i64)), 0i64..0i64);
    assert_eq!(Square.hinto_iter(item(2i64)), 0i64..0i64);
    assert_eq!(Square.hinto_iter(item(-4i64)), 0i64..0i64);
}

#[test]
fn square_scalar_large() {
    let v: i64 = 3037000499i64 * 3037000499i64;
    assert_eq!(Square.hinto_iter(item(v)), 3037000499i64..3037000500i64);
    assert_eq!(Square.hinto_iter(item(v - 1)), 0i64..0i64);
    assert_eq!(Square.hinto_iter(item(i64::MAX)), 0i64..0i64);
}

#[test]
fn square_range_one_to_seventeen() {
    let mut it = Square.hinto_iter(item(1i64..17i64));
    assert_eq!(it.next(), Some(1));
    assert_eq!(it.next(), Some(2));
    assert_eq!(it.next(), Some(3));
    assert_eq!(it.next(), Some(4));
    assert_eq!(it.next(), None);
}

#[test]
fn square_range_empty() {
    let mut it = Square.hinto_iter(item(3i64..3i64));
    assert_eq!(it.next(), None);
    assert_eq!(it.next(), None);
}

#[test]
fn square_range_negative_start() {
    let mut it = Square.hinto_iter(item(-5i64..2i64));
    assert_eq!(it.next(), Some(0));
    assert_eq!(it.next(), Some(1));
    assert_eq!(it.next(), None);
}

#[test]
fn item_round_trip() {
    assert_eq!(item(5i64).inner(), 5i64);
    assert_eq!(item(2i64..9i64).inner(), 2i64..9i64);
}
