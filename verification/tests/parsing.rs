use avkeys::GrammarKind;
use avkeys::KeybindError;
use avkeys::Span;
use avkeys::parser::ParsedKey;
use avkeys::parser::ParsedKeyDisc;
use avkeys::parser::ParsedKeybind;

fn parse_ok(text: &str) -> Vec<ParsedKey> {
    ParsedKeybind::parse(text).unwrap().terms().clone()
}

fn parse_err(text: &str) -> (Span, GrammarKind) {
    match ParsedKeybind::parse(text) {
        Err(KeybindError::Grammar { span, kind }) => (span, kind),
        other => panic!("expected a grammar error, got {other:?}"),
    }
}

#[test]
fn parses_plus_joined_names() {
    let terms = parse_ok("Ctrl+Alt+Del");
    assert_eq!(terms.len(), 3);
    assert!(matches!(&terms[0], ParsedKey::Name(ParsedKeyDisc::Ident(s), _) if s == "Ctrl"));
    assert!(matches!(&terms[1], ParsedKey::Name(ParsedKeyDisc::Ident(s), _) if s == "Alt"));
    assert!(matches!(&terms[2], ParsedKey::Name(ParsedKeyDisc::Ident(s), _) if s == "Del"));
    // Spans point into the original text.
    assert!(matches!(&terms[1], ParsedKey::Name(_, sp) if *sp == Span { start: 5, end: 8 }));
}

#[test]
fn bare_int_is_a_name_and_bracketed_int_a_code() {
    let terms = parse_ok("Ctrl+1");
    assert!(matches!(&terms[1], ParsedKey::Name(ParsedKeyDisc::LitInt(1), _)));
    let terms = parse_ok("Ctrl+[111]");
    assert!(matches!(&terms[1], ParsedKey::Code(111, _)));
    assert!(matches!(&terms[1], ParsedKey::Code(_, sp) if *sp == Span { start: 5, end: 10 }));
}

#[test]
fn parses_parameter_terms() {
    let terms = parse_ok("Logo+{d}");
    assert_eq!(terms.len(), 2);
    assert!(matches!(&terms[1], ParsedKey::Parameter(t, _) if t == "d"));
    // Unknown tags still parse: resolution is the validator's business.
    let terms = parse_ok("{q}");
    assert!(matches!(&terms[0], ParsedKey::Parameter(t, _) if t == "q"));
}

#[test]
fn parses_char_literals() {
    let terms = parse_ok("Ctrl+';'");
    assert!(matches!(&terms[1], ParsedKey::Name(ParsedKeyDisc::LitChar(';'), _)));
    let terms = parse_ok("'\\''");
    assert!(matches!(&terms[0], ParsedKey::Name(ParsedKeyDisc::LitChar('\''), _)));
    let terms = parse_ok("'\\\\'");
    assert!(matches!(&terms[0], ParsedKey::Name(ParsedKeyDisc::LitChar('\\'), _)));
    let terms = parse_ok("'+'");
    assert!(matches!(&terms[0], ParsedKey::Name(ParsedKeyDisc::LitChar('+'), _)));
}

#[test]
fn rejects_empty_expression() {
    let (span, kind) = parse_err("");
    assert_eq!(kind, GrammarKind::EmptyExpression);
    assert_eq!(span, Span { start: 0, end: 0 });
}

#[test]
fn rejects_trailing_separator() {
    let (span, kind) = parse_err("Ctrl+");
    assert_eq!(kind, GrammarKind::ExpectedTerm);
    assert_eq!(span, Span { start: 5, end: 5 });
}

#[test]
fn rejects_missing_separator() {
    let (_, kind) = parse_err("Ctrl Alt");
    assert_eq!(kind, GrammarKind::ExpectedSeparator);
}

#[test]
fn rejects_bad_bracket_contents() {
    let (_, kind) = parse_err("Ctrl+[x]");
    assert_eq!(kind, GrammarKind::BadCodeTerm);
    let (_, kind) = parse_err("Ctrl+[12");
    assert_eq!(kind, GrammarKind::BadCodeTerm);
    let (_, kind) = parse_err("[]");
    assert_eq!(kind, GrammarKind::BadCodeTerm);
}

#[test]
fn rejects_bad_brace_contents() {
    let (_, kind) = parse_err("Logo+{1}");
    assert_eq!(kind, GrammarKind::BadParameterTerm);
    let (_, kind) = parse_err("{}");
    assert_eq!(kind, GrammarKind::BadParameterTerm);
    let (_, kind) = parse_err("{d");
    assert_eq!(kind, GrammarKind::BadParameterTerm);
}

#[test]
fn rejects_bad_char_literals() {
    let (_, kind) = parse_err("''");
    assert_eq!(kind, GrammarKind::BadCharLiteral);
    let (_, kind) = parse_err("'ab'");
    assert_eq!(kind, GrammarKind::BadCharLiteral);
}

#[test]
fn rejects_oversized_codes() {
    let (_, kind) = parse_err("[4294967296]");
    assert_eq!(kind, GrammarKind::CodeOverflow);
    let terms = parse_ok("[4294967295]");
    assert!(matches!(&terms[0], ParsedKey::Code(4294967295, _)));
}

#[test]
fn rejects_unknown_tokens() {
    let (span, kind) = parse_err("#");
    assert_eq!(kind, GrammarKind::UnknownToken);
    assert_eq!(span, Span { start: 0, end: 1 });
}
