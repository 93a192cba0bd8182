use enum_parity::resolve;
use enum_parity::Assignment;
use enum_parity::ExplicitValue;
use enum_parity::IntegerDomain;
use enum_parity::Parity;
use enum_parity::ResolutionError;
use enum_parity::Variant;

fn domain(bits: u32, signed: bool) -> IntegerDomain {
    IntegerDomain::new(bits, signed).unwrap()
}

fn auto(label: &str) -> Variant {
    Variant {
        label: label.to_string(),
        explicit: None,
    }
}

fn lit(label: &str, value: u128) -> Variant {
    Variant {
        label: label.to_string(),
        explicit: Some(ExplicitValue::Literal(value)),
    }
}

fn values(out: &[Assignment]) -> Vec<u128> {
    out.iter().map(|a| a.value).collect()
}

fn labels(out: &[Assignment]) -> Vec<&str> {
    out.iter().map(|a| a.label.as_str()).collect()
}

#[test]
fn four_auto_even() {
    let vs = vec![auto("Foo"), auto("Bar"), auto("Baz"), auto("Quo")];
    let out = resolve(&vs, domain(8, false), Parity::Even, false).unwrap();
    assert_eq!(values(&out), [0x00, 0x03, 0x05, 0x06]);
    assert_eq!(labels(&out), ["Foo", "Bar", "Baz", "Quo"]);
}

#[test]
fn four_auto_odd() {
    let vs = vec![auto("Lorem"), auto("Ipsum"), auto("Dolor"), auto("Sit")];
    let out = resolve(&vs, domain(8, false), Parity::Odd, false).unwrap();
    assert_eq!(values(&out), [0x01, 0x02, 0x04, 0x07]);
    assert_eq!(labels(&out), ["Lorem", "Ipsum", "Dolor", "Sit"]);
}

#[test]
fn explicit_value_resets_the_baseline() {
    let vs = vec![auto("A"), lit("B", 0x05), auto("C"), auto("D")];
    let out = resolve(&vs, domain(64, false), Parity::Even, false).unwrap();
    assert_eq!(values(&out), [0x00, 0x05, 0x06, 0x09]);
}

#[test]
fn parity_violation_names_the_variant() {
    let vs = vec![auto("A"), lit("B", 0x04), auto("C")];
    let err = resolve(&vs, domain(64, false), Parity::Even, false).unwrap_err();
    assert_eq!(
        err,
        ResolutionError::ParityViolation {
            index: 1,
            value: 0x04,
            required: Parity::Even,
        }
    );
}

#[test]
fn override_accepts_a_parity_violation() {
    let vs = vec![auto("A"), lit("B", 0x04), auto("C"), auto("D")];
    let out = resolve(&vs, domain(64, false), Parity::Even, true).unwrap();
    assert_eq!(values(&out), [0x00, 0x04, 0x05, 0x06]);
}

#[test]
fn collision_names_both_variants() {
    let vs = vec![lit("A", 0x03), auto("B"), lit("C", 0x03)];
    let err = resolve(&vs, domain(64, false), Parity::Even, false).unwrap_err();
    assert_eq!(
        err,
        ResolutionError::ValueCollision {
            first_index: 0,
            second_index: 2,
            value: 0x03,
        }
    );
}

#[test]
fn auto_collides_with_earlier_explicit_and_is_skipped() {
    // A=0x00, B=0x03, C=0x0a explicit, D=0x0c, E=0x05 explicit (below the
    // cursor), F=0x06, G=0x09; for H the generator meets 0x0a and 0x0c,
    // both claimed, and skips to 0x0f.
    let vs = vec![
        auto("A"),
        auto("B"),
        lit("C", 0x0a),
        auto("D"),
        lit("E", 0x05),
        auto("F"),
        auto("G"),
        auto("H"),
    ];
    let out = resolve(&vs, domain(64, false), Parity::Even, false).unwrap();
    assert_eq!(
        values(&out),
        [0x00, 0x03, 0x0a, 0x0c, 0x05, 0x06, 0x09, 0x0f]
    );
}

#[test]
fn exhaustion_names_the_first_unsatisfiable_variant() {
    // 8 bits hold exactly 128 even-parity patterns.
    let mut vs: Vec<Variant> = Vec::new();
    for k in 0..129 {
        vs.push(auto(&format!("V{k}")));
    }
    let err = resolve(&vs, domain(8, false), Parity::Even, false).unwrap_err();
    assert_eq!(
        err,
        ResolutionError::DomainExhausted {
            index: 128,
            domain: domain(8, false),
            parity: Parity::Even,
        }
    );
}

#[test]
fn full_domain_assigns_every_even_pattern() {
    let mut vs: Vec<Variant> = Vec::new();
    for k in 0..128 {
        vs.push(auto(&format!("V{k}")));
    }
    let out = resolve(&vs, domain(8, false), Parity::Even, false).unwrap();
    let vals = values(&out);
    assert_eq!(vals.len(), 128);
    assert_eq!(vals[124..], [0xf9, 0xfa, 0xfc, 0xff]);
    for w in &vals {
        assert_eq!(w.count_ones() % 2, 0);
    }
}

#[test]
fn opaque_explicit_value_is_malformed() {
    let vs = vec![
        auto("A"),
        Variant {
            label: "B".to_string(),
            explicit: Some(ExplicitValue::Opaque),
        },
    ];
    let err = resolve(&vs, domain(64, false), Parity::Even, false).unwrap_err();
    assert_eq!(err, ResolutionError::MalformedExplicitValue { index: 1 });
}

#[test]
fn out_of_domain_explicit_value_is_malformed() {
    let vs = vec![lit("A", 0x100)];
    let err = resolve(&vs, domain(8, false), Parity::Even, false).unwrap_err();
    assert_eq!(err, ResolutionError::MalformedExplicitValue { index: 0 });
}

#[test]
fn parity_is_checked_before_collisions() {
    // 0x01 violates even parity and is also claimed; the parity check wins.
    let vs = vec![lit("A", 0x01), lit("B", 0x01)];
    let err = resolve(&vs, domain(8, false), Parity::Even, false).unwrap_err();
    assert_eq!(
        err,
        ResolutionError::ParityViolation {
            index: 0,
            value: 0x01,
            required: Parity::Even,
        }
    );
}

#[test]
fn resolve_is_idempotent() {
    let build = || {
        vec![
            auto("A"),
            lit("B", 0x06),
            auto("C"),
            lit("D", 0x0f),
            auto("E"),
        ]
    };
    let first = resolve(&build(), domain(16, true), Parity::Even, false).unwrap();
    let second = resolve(&build(), domain(16, true), Parity::Even, false).unwrap();
    assert_eq!(first, second);
}

#[test]
fn signed_domains_use_the_raw_bit_pattern() {
    // 0xff has eight set bits: even parity, representable as -1 in i8.
    let vs = vec![auto("A"), lit("B", 0xff)];
    let out = resolve(&vs, domain(8, true), Parity::Even, false).unwrap();
    assert_eq!(values(&out), [0x00, 0xff]);
    assert_eq!(out[1].value as u8 as i8, -1);
}
