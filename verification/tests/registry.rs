use avkeys::AvKey;
use avkeys::AvKeyDiscrim;
use avkeys::registry::KeyEntry;
use avkeys::registry::KeyIdentifier;
use avkeys::registry::Registry;
use avkeys::registry::RegistryError;

fn entry(primary: &str, code: u32, aliases: Vec<KeyIdentifier>) -> KeyEntry {
    KeyEntry { primary: String::from(primary), code, aliases }
}

#[test]
fn to_string_try_test() {
    let mut reg = Registry::new();
    reg.insert(entry("LeftCtrl", 29, vec![KeyIdentifier::Ident(String::from("Ctrl"))]))
        .unwrap();
    let k: AvKey = reg.lookup(AvKeyDiscrim::Str("LeftCtrl")).unwrap().to_key();
    let k = reg.key_text(&k).unwrap();
    println!("{k}");
}

#[test]
fn lookup_is_type_directed() {
    let mut reg = Registry::new();
    reg.insert(entry(
        "Digit1",
        2,
        vec![KeyIdentifier::LitChar('1'), KeyIdentifier::LitInt(1)],
    ))
    .unwrap();
    // The name, the character and the integer each resolve through their
    // own alias type.
    assert_eq!(reg.lookup(AvKeyDiscrim::Str("Digit1")).unwrap().code, 2);
    assert_eq!(reg.lookup(AvKeyDiscrim::Char('1')).unwrap().code, 2);
    assert_eq!(reg.lookup(AvKeyDiscrim::Int(1)).unwrap().code, 2);
    // The spelling `1` exists as a char and an int alias, not as a name.
    assert!(reg.lookup(AvKeyDiscrim::Str("1")).is_none());
    assert!(reg.lookup(AvKeyDiscrim::Char('2')).is_none());
    assert!(reg.lookup(AvKeyDiscrim::Int(2)).is_none());
}

#[test]
fn insert_rejects_shared_spellings() {
    let mut reg = Registry::new();
    reg.insert(entry("LeftCtrl", 29, vec![KeyIdentifier::Ident(String::from("Ctrl"))]))
        .unwrap();
    reg.insert(entry("Escape", 1, vec![])).unwrap();
    // A new entry whose alias repeats an existing name spelling is
    // refused, naming the entry hit, and the registry is unchanged.
    let r = reg.insert(entry(
        "RightCtrl",
        97,
        vec![KeyIdentifier::Ident(String::from("Ctrl"))],
    ));
    assert_eq!(r, Err(RegistryError::AliasCollision { existing: 0 }));
    assert_eq!(reg.len(), 2);
    // A primary name colliding with an existing primary is refused too.
    let r = reg.insert(entry("Escape", 200, vec![]));
    assert_eq!(r, Err(RegistryError::AliasCollision { existing: 1 }));
    // Distinct spellings are accepted.
    reg.insert(entry("RightCtrl", 97, vec![])).unwrap();
    assert_eq!(reg.len(), 3);
}

#[test]
fn lookup_code_finds_first_entry() {
    let mut reg = Registry::new();
    reg.insert(entry("Escape", 1, vec![])).unwrap();
    reg.insert(entry("Delete", 111, vec![])).unwrap();
    assert_eq!(reg.lookup_code(111).unwrap().primary, "Delete");
    assert!(reg.lookup_code(200).is_none());
}

#[test]
fn display_name_prefers_shortest_spelling() {
    let e = entry(
        "LeftMeta",
        125,
        vec![
            KeyIdentifier::Ident(String::from("Meta")),
            KeyIdentifier::Ident(String::from("Logo")),
            KeyIdentifier::Ident(String::from("Win")),
        ],
    );
    assert_eq!(e.display_name(), "Win");
    // On a tie the earlier spelling wins; the primary name comes first.
    let e = entry("Esc", 1, vec![KeyIdentifier::Ident(String::from("Escape"))]);
    assert_eq!(e.display_name(), "Esc");
    let e = entry(
        "LeftCtrl",
        29,
        vec![KeyIdentifier::LitChar('^'), KeyIdentifier::Ident(String::from("Ctrl"))],
    );
    assert_eq!(e.display_name(), "Ctrl");
}

#[test]
fn key_text_renders_keys_and_parameters() {
    let mut reg = Registry::new();
    reg.insert(entry("LeftCtrl", 29, vec![KeyIdentifier::Ident(String::from("Ctrl"))]))
        .unwrap();
    assert_eq!(reg.key_text(&AvKey::Key(29)), Ok(String::from("Ctrl")));
    assert_eq!(reg.key_text(&AvKey::Key(111)), Err(()));
    assert_eq!(
        reg.key_text(&AvKey::Parameter(avkeys::AvKeyParameter::DigitKey)),
        Ok(String::from("{d}"))
    );
}
