use error_rail::types::Accumulator;
use error_rail::text::{u32_to_decimal, u64_to_hex16};

#[test]
fn accumulator_push_pop_and_len() {
    let mut a = Accumulator::new();
    assert!(a.is_empty());
    a.push(1);
    a.push(2);
    assert_eq!(a.len(), 2);
    assert_eq!(a.pop(), Some(2));
    assert_eq!(a.iter(), &[1]);
}

#[test]
fn accumulator_extend_merge_and_map() {
    let mut a = Accumulator::single(1);
    a.extend(vec![2, 3]);
    let b = Accumulator::single(4);
    a.merge(b);
    let doubled = a.map(|x: i32| x * 2);
    assert_eq!(doubled.into_inner(), vec![2, 4, 6, 8]);
}

#[test]
fn decimal_and_hex_rendering() {
    assert_eq!(u32_to_decimal(0), "0");
    assert_eq!(u32_to_decimal(4294967295), "4294967295");
    assert_eq!(u64_to_hex16(0xab), "00000000000000ab");
    assert_eq!(u64_to_hex16(u64::MAX), "ffffffffffffffff");
}

#[test]
fn accumulator_from_vec_keeps_order() {
    let a = Accumulator::from(vec![3, 1, 2]);
    assert_eq!(a.into_inner(), vec![3, 1, 2]);
    let b = Accumulator::from_vec(vec!["x"]);
    assert_eq!(b.len(), 1);
}

#[test]
fn accumulator_iter_mut_changes_items() {
    let mut a = Accumulator::from_vec(vec![1, 2]);
    for x in a.iter_mut().iter_mut() {
        *x += 10;
    }
    assert_eq!(a.into_inner(), vec![11, 12]);
}
