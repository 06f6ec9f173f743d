use ricer::colors::{color_scheme_from_pairs, load_color_scheme};
use ricer::ColorError;

fn full_pairs() -> Vec<(String, String)> {
    let digits = "0123456789abcdef";
    let mut pairs = Vec::new();
    for d in digits.chars() {
        pairs.push((format!("base0{}", d), format!("Value{}", d)));
    }
    pairs
}

#[test]
fn complete_scheme_loads() {
    let pairs = full_pairs();
    let scheme = color_scheme_from_pairs(&pairs).unwrap();
    assert_eq!(scheme.value(0).as_str(), "value0");
    assert_eq!(scheme.value(15).as_str(), "valuef");
}

#[test]
fn each_missing_key_is_incomplete() {
    let full = full_pairs();
    for omit in 0..16usize {
        let mut pairs = full.clone();
        pairs.remove(omit);
        match color_scheme_from_pairs(&pairs) {
            Err(ColorError::IncompleteColorScheme) => {},
            other => panic!("expected IncompleteColorScheme, got {:?}", other),
        }
    }
}

#[test]
fn values_are_lowercased() {
    let text = "base00: AABBCC\nbase01: x\nbase02: x\nbase03: x\nbase04: x\nbase05: x\n\
                base06: x\nbase07: x\nbase08: x\nbase09: x\nbase0a: x\nbase0b: x\n\
                base0c: x\nbase0d: x\nbase0e: x\nbase0f: x\n";
    let scheme = load_color_scheme(text).unwrap();
    assert_eq!(scheme.value(0).as_str(), "aabbcc");
}

#[test]
fn non_mapping_is_malformed() {
    match load_color_scheme("- one\n- two\n") {
        Err(ColorError::MalformedColorData) => {},
        other => panic!("expected MalformedColorData, got {:?}", other),
    }
    match load_color_scheme("") {
        Err(ColorError::MalformedColorData) => {},
        other => panic!("expected MalformedColorData, got {:?}", other),
    }
}

#[test]
fn incomplete_yaml_scheme_fails() {
    match load_color_scheme("base00: abc\nbase01: def\n") {
        Err(ColorError::IncompleteColorScheme) => {},
        other => panic!("expected IncompleteColorScheme, got {:?}", other),
    }
}
