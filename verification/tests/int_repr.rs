use enum_parity::IntRepr;
use enum_parity::IntegerDomain;

fn all() -> Vec<(IntRepr, &'static str)> {
    vec![
        (IntRepr::U8, "u8"),
        (IntRepr::U16, "u16"),
        (IntRepr::U32, "u32"),
        (IntRepr::U64, "u64"),
        (IntRepr::U128, "u128"),
        (IntRepr::Usize, "usize"),
        (IntRepr::I8, "i8"),
        (IntRepr::I16, "i16"),
        (IntRepr::I32, "i32"),
        (IntRepr::I64, "i64"),
        (IntRepr::I128, "i128"),
        (IntRepr::Isize, "isize"),
    ]
}

#[test]
fn parses_every_supported_name() {
    for (repr, name) in all() {
        assert_eq!(IntRepr::from_str(name), Ok(repr));
    }
}

#[test]
fn rejects_unknown_names() {
    for name in ["", "u7", "U8", "f32", "int", "u8 ", "usized"] {
        assert_eq!(IntRepr::from_str(name), Err(()));
    }
}

#[test]
fn name_round_trip() {
    for (repr, name) in all() {
        assert_eq!(repr.as_str(), name);
        assert_eq!(IntRepr::from_str(repr.as_str()), Ok(repr));
    }
}

#[test]
fn fixed_width_domains() {
    assert_eq!(
        IntRepr::U8.to_domain(64),
        Some(IntegerDomain {
            bits: 8,
            signed: false
        })
    );
    assert_eq!(
        IntRepr::I128.to_domain(64),
        Some(IntegerDomain {
            bits: 128,
            signed: true
        })
    );
}

#[test]
fn pointer_width_domains() {
    assert_eq!(
        IntRepr::Usize.to_domain(64),
        Some(IntegerDomain {
            bits: 64,
            signed: false
        })
    );
    assert_eq!(
        IntRepr::Isize.to_domain(32),
        Some(IntegerDomain {
            bits: 32,
            signed: true
        })
    );
    assert_eq!(IntRepr::Usize.to_domain(13), None);
}
