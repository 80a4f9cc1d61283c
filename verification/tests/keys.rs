use avkeys::AvKey;
use avkeys::AvKeyDiscrim;
use avkeys::AvKeyParameter;
use avkeys::IntoAvKeyDiscrim;

#[test]
fn avkey_discrim() {
    let _a = AvKeyDiscrim::Str("sdfgh");
}

#[test]
fn into_discrim_variants() {
    assert!(matches!(29u32.into_discrim(), AvKeyDiscrim::Int(29)));
    assert!(matches!("Ctrl".into_discrim(), AvKeyDiscrim::Str("Ctrl")));
    assert!(matches!(';'.into_discrim(), AvKeyDiscrim::Char(';')));
}

#[test]
fn digit_key_members_and_ordinals() {
    let keys = AvKeyParameter::DigitKey.keys();
    assert_eq!(keys, vec![11, 2, 3, 4, 5, 6, 7, 8, 9, 10]);
    // The ordinal is the visible digit: code 11 is the `0` key.
    assert_eq!(AvKeyParameter::DigitKey.value(11), Some(0));
    assert_eq!(AvKeyParameter::DigitKey.value(2), Some(1));
    assert_eq!(AvKeyParameter::DigitKey.value(10), Some(9));
    assert_eq!(AvKeyParameter::DigitKey.value(1), None);
    assert_eq!(AvKeyParameter::DigitKey.value(59), None);
}

#[test]
fn function_key_members_and_ordinals() {
    let keys = AvKeyParameter::FunctionKey.keys();
    assert_eq!(keys, vec![59, 60, 61, 62, 63, 64, 65, 66, 67, 68, 87, 88]);
    // Function keys are 1-indexed to match their labels.
    assert_eq!(AvKeyParameter::FunctionKey.value(59), Some(1));
    assert_eq!(AvKeyParameter::FunctionKey.value(68), Some(10));
    assert_eq!(AvKeyParameter::FunctionKey.value(87), Some(11));
    assert_eq!(AvKeyParameter::FunctionKey.value(88), Some(12));
    assert_eq!(AvKeyParameter::FunctionKey.value(11), None);
}

#[test]
fn ordinals_are_injective_and_total_on_members() {
    for kind in [AvKeyParameter::DigitKey, AvKeyParameter::FunctionKey] {
        let members = kind.keys();
        let mut seen = Vec::new();
        for code in &members {
            let v = kind.value(*code).expect("a member must have an ordinal");
            assert!(!seen.contains(&v), "ordinal {v} assigned twice");
            seen.push(v);
        }
    }
}

#[test]
fn parameter_tags_resolve() {
    assert_eq!(AvKeyParameter::try_from("d"), Ok(AvKeyParameter::DigitKey));
    assert_eq!(AvKeyParameter::try_from("f"), Ok(AvKeyParameter::FunctionKey));
    assert_eq!(AvKeyParameter::try_from("q"), Err(String::from("q")));
    assert_eq!(AvKeyParameter::DigitKey.tag(), "d");
    assert_eq!(AvKeyParameter::FunctionKey.tag(), "f");
}

#[test]
fn key_matches_parameter() {
    // The key with code 4 is the digit `3`: it compares equal to the
    // digit-key class, in both directions.
    let three = AvKey::Key(4);
    let digits = AvKey::Parameter(AvKeyParameter::DigitKey);
    assert_eq!(three.matches(&digits), Some(true));
    assert_eq!(digits.matches(&three), Some(true));
    // A key outside the class does not match it.
    let esc = AvKey::Key(1);
    assert_eq!(esc.matches(&digits), Some(false));
    assert_eq!(digits.matches(&esc), Some(false));
}

#[test]
fn key_matches_key() {
    assert_eq!(AvKey::Key(29).matches(&AvKey::Key(29)), Some(true));
    assert_eq!(AvKey::Key(29).matches(&AvKey::Key(97)), Some(false));
}

#[test]
fn parameter_vs_parameter_is_undefined() {
    let d = AvKey::Parameter(AvKeyParameter::DigitKey);
    let f = AvKey::Parameter(AvKeyParameter::FunctionKey);
    assert_eq!(d.matches(&f), None);
    assert_eq!(d.matches(&d), None);
}

#[test]
fn key_accessors() {
    let k = AvKey::Key(2);
    let p = AvKey::Parameter(AvKeyParameter::DigitKey);
    assert_eq!(k.key(), Some(2));
    assert_eq!(k.key_parameter(), None);
    assert_eq!(p.key(), None);
    assert_eq!(p.key_parameter(), Some(AvKeyParameter::DigitKey));
}
