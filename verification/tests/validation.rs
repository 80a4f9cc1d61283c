use avkeys::AvKeyParameter;
use avkeys::KeybindError;
use avkeys::Span;
use avkeys::parser::ParsedKeybind;
use avkeys::validator::CallbackParam;

fn arg(name: &str, ty: &str) -> CallbackParam {
    CallbackParam { name: String::from(name), ty: String::from(ty), span: Span::new(0, 0) }
}

#[test]
fn parameters_present_in_order() {
    let kb = ParsedKeybind::parse("Ctrl+{d}+A+{f}").unwrap();
    assert_eq!(kb.parameters_present(), vec![String::from("d"), String::from("f")]);
    let kb = ParsedKeybind::parse("Ctrl+Alt").unwrap();
    assert_eq!(kb.parameters_present(), Vec::<String>::new());
}

#[test]
fn declared_types_are_extracted() {
    let kb = ParsedKeybind::parse("Ctrl+{d}").unwrap();
    let params = vec![arg("n", "d"), arg("m", "f")];
    assert_eq!(
        kb.key_parameter_types_delcared_in_fn(&params),
        vec![String::from("d"), String::from("f")]
    );
}

#[test]
fn unknown_tags_are_aggregated() {
    // Exactly the two unknown tags are reported, not just the first.
    let kb = ParsedKeybind::parse("{q}+{d}+{z}").unwrap();
    let errs = kb.validate_parameter_names();
    assert_eq!(errs.len(), 2);
    assert!(matches!(&errs[0], KeybindError::UnknownParameterTag { tag, .. } if tag == "q"));
    assert!(matches!(&errs[1], KeybindError::UnknownParameterTag { tag, .. } if tag == "z"));
}

#[test]
fn missing_argument_is_reported_per_position() {
    // Two parameter terms against one declared argument: the `f` slot at
    // position 1 is missing.
    let kb = ParsedKeybind::parse("Ctrl+{d}+{f}").unwrap();
    let errs = kb.validate_func_sign_against_key_params(&vec![arg("n", "d")]);
    assert_eq!(errs.len(), 1);
    assert!(matches!(
        &errs[0],
        KeybindError::MissingParameter { position: 1, tag } if tag == "f"
    ));
}

#[test]
fn zero_arguments_against_parameters_is_one_error() {
    // Two parameter terms, no declared arguments at all: one aggregate
    // error instead of one per position.
    let kb = ParsedKeybind::parse("Ctrl+{d}+{f}").unwrap();
    let errs = kb.validate_func_sign_against_key_params(&vec![]);
    assert_eq!(errs.len(), 1);
    assert!(matches!(&errs[0], KeybindError::ArityMismatch { needed: 2 }));
}

#[test]
fn excess_arguments_are_reported_each() {
    let kb = ParsedKeybind::parse("Logo+{d}").unwrap();
    let params = vec![arg("n", "d"), arg("extra1", "d"), arg("extra2", "f")];
    let errs = kb.validate_func_sign_against_key_params(&params);
    assert_eq!(errs.len(), 2);
    assert!(matches!(&errs[0], KeybindError::ExcessParameter { name, .. } if name == "extra1"));
    assert!(matches!(&errs[1], KeybindError::ExcessParameter { name, .. } if name == "extra2"));
}

#[test]
fn type_mismatch_names_expected_and_actual() {
    // `Ctrl+{d}` with the single argument `(x, f)`: expected `d`, got `f`.
    let kb = ParsedKeybind::parse("Ctrl+{d}").unwrap();
    let errs = kb.validate_func_sign_against_key_params(&vec![arg("x", "f")]);
    assert_eq!(errs.len(), 1);
    assert!(matches!(
        &errs[0],
        KeybindError::TypeCorrespondence { expected, actual, .. }
            if expected == "d" && actual == "f"
    ));
}

#[test]
fn validate_aggregates_both_checks() {
    // An unknown tag and the type mismatches surface together in one
    // pass: the tag-validity errors first, then the correspondence ones.
    let kb = ParsedKeybind::parse("{q}+{d}").unwrap();
    let errs = kb.validate(&vec![arg("a", "d"), arg("b", "f")]).unwrap_err();
    assert_eq!(errs.len(), 3);
    assert!(matches!(&errs[0], KeybindError::UnknownParameterTag { tag, .. } if tag == "q"));
    assert!(matches!(&errs[1], KeybindError::TypeCorrespondence { expected, actual, .. }
        if expected == "q" && actual == "d"));
    assert!(matches!(&errs[2], KeybindError::TypeCorrespondence { expected, actual, .. }
        if expected == "d" && actual == "f"));
}

#[test]
fn validate_builds_the_assignment_plan() {
    let kb = ParsedKeybind::parse("Ctrl+{d}+{f}").unwrap();
    let plan = kb.validate(&vec![arg("n", "d"), arg("m", "f")]).unwrap();
    assert_eq!(plan, vec![(0, AvKeyParameter::DigitKey), (1, AvKeyParameter::FunctionKey)]);
    let kb = ParsedKeybind::parse("Ctrl+Alt").unwrap();
    let plan = kb.validate(&vec![]).unwrap();
    assert_eq!(plan, vec![]);
}
