use enum_parity::BitParityIter;
use enum_parity::IntegerDomain;
use enum_parity::IntegerParity;

fn domain(bits: u32, signed: bool) -> IntegerDomain {
    IntegerDomain::new(bits, signed).unwrap()
}

fn take(iter: &mut BitParityIter, n: usize) -> Vec<u128> {
    let mut v: Vec<u128> = Vec::new();
    for _ in 0..n {
        v.push(iter.next().unwrap());
    }
    v
}

fn drain(iter: &mut BitParityIter) -> Vec<u128> {
    let mut v: Vec<u128> = Vec::new();
    while let Some(x) = iter.next() {
        v.push(x);
    }
    v
}

#[test]
pub fn small_even_parity() {
    let mut iter = BitParityIter::new(domain(usize::BITS, false), true);
    let v = take(&mut iter, 4);

    assert_eq!(v, [0x00, 0x3, 0x05, 0x06]);
}

#[test]
pub fn small_odd_parity() {
    let mut iter = BitParityIter::new(domain(usize::BITS, false), false);
    let v = take(&mut iter, 4);

    assert_eq!(v, [0x01, 0x2, 0x04, 0x07]);
}

#[test]
pub fn overflowing_u8_even_parity() {
    let mut iter = BitParityIter::new(domain(8, false), true);
    for _ in 0..124 {
        iter.next();
    }
    let v = drain(&mut iter);

    assert_eq!(v, [0xf9, 0xfa, 0xfc, 0xff]);
}

#[test]
pub fn overflowing_u8_odd_parity() {
    let mut iter = BitParityIter::new(domain(8, false), false);
    for _ in 0..124 {
        iter.next();
    }
    let v = drain(&mut iter);

    assert_eq!(v, [0xf8, 0xfb, 0xfd, 0xfe]);
}

// these `i8`s should be the same as `u8`, since we only care about the bits
#[test]
pub fn overflowing_i8_even_parity() {
    let mut iter = BitParityIter::new(domain(8, true), true);
    for _ in 0..124 {
        iter.next();
    }
    let v: Vec<i8> = drain(&mut iter).iter().map(|&x| x as u8 as i8).collect();

    assert_eq!(
        v,
        [0xf9_u8 as i8, 0xfa_u8 as i8, 0xfc_u8 as i8, 0xff_u8 as i8]
    );
}

#[test]
pub fn overflowing_i8_odd_parity() {
    let mut iter = BitParityIter::new(domain(8, true), false);
    for _ in 0..124 {
        iter.next();
    }
    let v: Vec<i8> = drain(&mut iter).iter().map(|&x| x as u8 as i8).collect();

    assert_eq!(
        v,
        [0xf8_u8 as i8, 0xfb_u8 as i8, 0xfd_u8 as i8, 0xfe_u8 as i8]
    );
}

#[test]
fn first_value_by_parity() {
    for &(bits, signed) in &[(8, false), (16, true), (32, false), (64, true), (128, false)] {
        let d = domain(bits, signed);
        assert_eq!(d.first(true), 0);
        assert_eq!(d.first(false), 1);
        assert!(d.has_even_parity(d.first(true)));
        assert!(!d.has_even_parity(d.first(false)));
    }
}

#[test]
fn successive_values_skip_no_qualifying_value() {
    let d = domain(64, false);
    let mut iter = BitParityIter::new(d, true);
    let a = iter.next().unwrap();
    let b = iter.next().unwrap();
    assert_eq!((a, b), (0x00, 0x03));
    assert!(b > a);
    for w in (a + 1)..b {
        assert!(!d.has_even_parity(w));
    }
}

#[test]
fn resume_continues_strictly_after() {
    let mut iter = BitParityIter::new(domain(64, false), true);
    iter.resume_after(0x05);
    assert_eq!(iter.next(), Some(0x06));
    assert_eq!(iter.next(), Some(0x09));
}

#[test]
fn exhaustion_is_sticky() {
    let mut iter = BitParityIter::new(domain(8, false), true);
    while iter.next().is_some() {}
    assert_eq!(iter.next(), None);
    assert_eq!(iter.next(), None);
}

#[test]
fn checked_increment_stops_at_max() {
    let d = domain(8, false);
    assert_eq!(d.checked_increment(0xfe), Some(0xff));
    assert_eq!(d.checked_increment(0xff), None);
}
