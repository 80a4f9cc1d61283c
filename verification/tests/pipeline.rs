use avkeys::AvKey;
use avkeys::AvKeyParameter;
use avkeys::KeybindError;
use avkeys::emitter::compile;
use avkeys::parser::ParsedKey;
use avkeys::parser::ParsedKeyDisc;
use avkeys::parser::ParsedKeybind;
use avkeys::registry::KeyEntry;
use avkeys::registry::KeyIdentifier;
use avkeys::registry::Registry;
use avkeys::validator::CallbackParam;
use avkeys::Span;

fn entry(primary: &str, code: u32, aliases: Vec<KeyIdentifier>) -> KeyEntry {
    KeyEntry { primary: String::from(primary), code, aliases }
}

fn arg(name: &str, ty: &str) -> CallbackParam {
    CallbackParam { name: String::from(name), ty: String::from(ty), span: Span::new(0, 0) }
}

/// The registry of the end-to-end scenarios: `Escape=1`,
/// `LeftCtrl=29 alias Ctrl`, `Delete=111`, `LeftMeta=125 alias Logo`, and
/// the ten digit keys.
fn scenario_registry() -> Registry {
    let mut reg = Registry::new();
    reg.insert(entry("Escape", 1, vec![KeyIdentifier::Ident(String::from("Esc"))]))
        .unwrap();
    reg.insert(entry("LeftCtrl", 29, vec![KeyIdentifier::Ident(String::from("Ctrl"))]))
        .unwrap();
    reg.insert(entry("Delete", 111, vec![])).unwrap();
    reg.insert(entry("LeftMeta", 125, vec![KeyIdentifier::Ident(String::from("Logo"))]))
        .unwrap();
    let digits: Vec<u32> = vec![11, 2, 3, 4, 5, 6, 7, 8, 9, 10];
    for (d, code) in digits.into_iter().enumerate() {
        let name = format!("Digit{d}");
        let ch = char::from_digit(d as u32, 10).unwrap();
        reg.insert(entry(&name, code, vec![KeyIdentifier::LitChar(ch)])).unwrap();
    }
    reg
}

fn keys_of(d: &[AvKey]) -> Vec<Option<u32>> {
    d.iter().map(AvKey::key).collect()
}

#[test]
fn end_to_end_ctrl_code() {
    // `Ctrl+[111]` parses to a name and a raw code, lowers to the codes
    // 29 and 111, and validates with an empty plan.
    let reg = scenario_registry();
    let kb = ParsedKeybind::parse("Ctrl+[111]").unwrap();
    assert_eq!(kb.terms().len(), 2);
    assert!(matches!(&kb.terms()[0], ParsedKey::Name(ParsedKeyDisc::Ident(s), _) if s == "Ctrl"));
    assert!(matches!(&kb.terms()[1], ParsedKey::Code(111, _)));
    let d = compile("Ctrl+[111]", &vec![], &reg).unwrap();
    assert_eq!(keys_of(&d.default_keys), vec![Some(29), Some(111)]);
    assert_eq!(d.parameter_assignment_plan, vec![]);
}

#[test]
fn end_to_end_logo_digit_parameter() {
    // `Logo+{d}` with the declared argument `(i, d)` validates, plans
    // position 0 onto the digit-key class, and lowers to the meta key
    // plus the class.
    let reg = scenario_registry();
    let d = compile("Logo+{d}", &vec![arg("i", "d")], &reg).unwrap();
    assert_eq!(d.default_keys.len(), 2);
    assert_eq!(d.default_keys[0].key(), Some(125));
    assert_eq!(d.default_keys[1].key_parameter(), Some(AvKeyParameter::DigitKey));
    assert_eq!(d.parameter_assignment_plan, vec![(0, AvKeyParameter::DigitKey)]);
}

#[test]
fn lowering_resolves_each_alias_type() {
    let reg = scenario_registry();
    // A char alias and a raw code beside names.
    let d = compile("Esc+'3'+[200]", &vec![], &reg).unwrap();
    assert_eq!(keys_of(&d.default_keys), vec![Some(1), Some(4), Some(200)]);
}

#[test]
fn unknown_aliases_are_collected() {
    let reg = scenario_registry();
    let errs = compile("Nope+Ctrl+'x'", &vec![], &reg).unwrap_err();
    assert_eq!(errs.len(), 2);
    assert!(matches!(
        &errs[0],
        KeybindError::UnknownAlias { spelling: KeyIdentifier::Ident(s), .. } if s == "Nope"
    ));
    assert!(matches!(
        &errs[1],
        KeybindError::UnknownAlias { spelling: KeyIdentifier::LitChar('x'), .. }
    ));
}

#[test]
fn parse_errors_stop_the_pipeline() {
    let reg = scenario_registry();
    let errs = compile("Ctrl+", &vec![], &reg).unwrap_err();
    assert_eq!(errs.len(), 1);
    assert!(matches!(&errs[0], KeybindError::Grammar { .. }));
}

#[test]
fn validation_errors_precede_lowering() {
    // With a bad declaration the validator's verdict is returned even
    // though the expression also holds an unresolvable name.
    let reg = scenario_registry();
    let errs = compile("Nope+{d}", &vec![], &reg).unwrap_err();
    assert_eq!(errs.len(), 1);
    assert!(matches!(&errs[0], KeybindError::ArityMismatch { needed: 1 }));
}

#[test]
fn round_trip_name_and_code() {
    // A raw code present under a name: parsing the name and lowering it
    // gives the same fixed key as parsing the bracketed code, which
    // never consults the registry.
    let reg = scenario_registry();
    let by_name = compile("Delete", &vec![], &reg).unwrap();
    assert_eq!(keys_of(&by_name.default_keys), vec![Some(111)]);
    let by_code = compile("[111]", &vec![], &Registry::new()).unwrap();
    assert_eq!(keys_of(&by_code.default_keys), vec![Some(111)]);
}

#[test]
fn multi_digit_codes_keep_their_value() {
    let reg = Registry::new();
    let d = compile("[0012]+[4094]", &vec![], &reg).unwrap();
    assert_eq!(keys_of(&d.default_keys), vec![Some(12), Some(4094)]);
}

#[test]
fn single_term_lowering() {
    let reg = scenario_registry();
    let kb = ParsedKeybind::parse("Ctrl").unwrap();
    let k = kb.terms()[0].to_lookup(&reg).unwrap();
    assert_eq!(k.key(), Some(29));
    let kb = ParsedKeybind::parse("{f}").unwrap();
    let k = kb.terms()[0].to_lookup(&reg).unwrap();
    assert_eq!(k.key_parameter(), Some(AvKeyParameter::FunctionKey));
}
