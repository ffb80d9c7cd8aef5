//! The value model: encoding, decoding and canonical number lists.

use module_manager::numbers::parse_u32;
use module_manager::numbers::u32_to_string;
use module_manager::options::decode_enum;
use module_manager::options::decode_numbers;
use module_manager::options::decode_switch;
use module_manager::options::decode_text;
use module_manager::options::numberlist_add;
use module_manager::options::numberlist_remove;
use module_manager::options::validate_serial;
use module_manager::options::EnumChoice;
use module_manager::options::ModuleOption;
use module_manager::options::OptionType;

#[test]
fn switch_serialization_forms() {
    assert_eq!(ModuleOption::Switch { value: true }.value(), "true");
    assert_eq!(ModuleOption::Switch { value: false }.value(), "false");
    assert_eq!(ModuleOption::Switch { value: true }.to_string(), "Enabled");
    assert_eq!(ModuleOption::Switch { value: false }.to_string(), "Disabled");
}

#[test]
fn text_serialization_forms() {
    let v = ModuleOption::Text { value: String::from("hello world") };
    assert_eq!(v.value(), "\"hello world\"");
    assert_eq!(v.to_string(), "\"hello world\"");
    let empty = ModuleOption::Text { value: String::new() };
    assert_eq!(empty.value(), "\"\"");
}

#[test]
fn enum_serialization_forms() {
    let v = ModuleOption::Enum {
        value: String::from("kde"),
        pretty: String::from("KDE Plasma"),
    };
    assert_eq!(v.value(), "kde");
    assert_eq!(v.to_string(), "KDE Plasma");
}

#[test]
fn numberlist_serialization_forms() {
    let v = ModuleOption::NumberList { value: vec![2, 5, 19] };
    assert_eq!(v.value(), "[ 2 5 19 ]");
    assert_eq!(v.to_string(), "2, 5, 19");
    let empty = ModuleOption::NumberList { value: vec![] };
    assert_eq!(empty.value(), "[  ]");
    assert_eq!(empty.to_string(), "");
}

#[test]
fn numberlist_serialization_canonicalizes_at_encode_time() {
    // Unsorted input with a duplicate: the serialization is ascending,
    // deduplicated and space-separated, a valid list literal.
    let v = ModuleOption::NumberList { value: vec![5, 2, 5] };
    assert_eq!(v.value(), "[ 2 5 ]");
}

#[test]
fn switch_round_trip() {
    for v in [true, false] {
        let encoded = ModuleOption::Switch { value: v }.value();
        assert_eq!(decode_switch(&encoded), Some(v));
    }
    assert_eq!(decode_switch("maybe"), None);
    assert_eq!(decode_switch(""), None);
}

#[test]
fn text_round_trip() {
    let original = String::from("fo o");
    let encoded = ModuleOption::Text { value: original.clone() }.value();
    assert_eq!(decode_text(&encoded), Some(original));
    assert_eq!(decode_text("\"\""), Some(String::new()));
    assert_eq!(decode_text("\""), None);
    assert_eq!(decode_text("unquoted"), None);
}

#[test]
fn enum_round_trip_with_schema_label() {
    let choices = vec![
        EnumChoice { key: String::from("kde"), label: String::from("KDE Plasma") },
        EnumChoice { key: String::from("gnome"), label: String::from("GNOME") },
    ];
    let v = decode_enum(&choices, "gnome");
    assert_eq!(
        v,
        ModuleOption::Enum { value: String::from("gnome"), pretty: String::from("GNOME") }
    );
    assert_eq!(v.value(), "gnome");
    // An unknown key falls back to itself as the label; decoding never fails.
    let w = decode_enum(&choices, "sway");
    assert_eq!(
        w,
        ModuleOption::Enum { value: String::from("sway"), pretty: String::from("sway") }
    );
}

#[test]
fn numberlist_round_trip_through_tokens() {
    let tokens = vec![String::from("2"), String::from("5"), String::from("19")];
    assert_eq!(decode_numbers(&tokens), vec![2, 5, 19]);
    // Tokens that do not parse are silently dropped, not an error.
    let mixed = vec![String::from("7"), String::from("x"), String::from("9")];
    assert_eq!(decode_numbers(&mixed), vec![7, 9]);
}

#[test]
fn decimal_rendering() {
    assert_eq!(u32_to_string(0), "0");
    assert_eq!(u32_to_string(42), "42");
    assert_eq!(u32_to_string(4294967295), "4294967295");
}

#[test]
fn decimal_parsing() {
    assert_eq!(parse_u32("0"), Some(0));
    assert_eq!(parse_u32("007"), Some(7));
    assert_eq!(parse_u32("+7"), Some(7));
    assert_eq!(parse_u32("4294967295"), Some(4294967295));
    assert_eq!(parse_u32("4294967296"), None);
    assert_eq!(parse_u32("99999999999999999999"), None);
    assert_eq!(parse_u32(""), None);
    assert_eq!(parse_u32("+"), None);
    assert_eq!(parse_u32("12a"), None);
    assert_eq!(parse_u32("-1"), None);
}

#[test]
fn numberlist_add_canonicalizes() {
    // Schema default [], add 5, add 2, add 5 again: the duplicate is
    // elided and the stored sequence is ascending.
    let v0: Vec<u32> = vec![];
    let v1 = numberlist_add(&v0, 5);
    let v2 = numberlist_add(&v1, 2);
    let v3 = numberlist_add(&v2, 5);
    assert_eq!(v3, vec![2, 5]);
}

#[test]
fn numberlist_add_canonicalizes_unsorted_input() {
    let v = numberlist_add(&vec![9, 3, 9, 1], 5);
    assert_eq!(v, vec![1, 3, 5, 9]);
}

#[test]
fn numberlist_remove_canonicalizes() {
    let v = numberlist_remove(&vec![9, 3, 9, 1], 9);
    assert_eq!(v, vec![1, 3]);
    let w = numberlist_remove(&vec![1, 2], 7);
    assert_eq!(w, vec![1, 2]);
}

#[test]
fn validation_by_shape() {
    let switch = OptionType::Switch { default: false };
    assert!(validate_serial(&switch, "true"));
    assert!(validate_serial(&switch, "false"));
    assert!(!validate_serial(&switch, "yes"));

    let text = OptionType::Text { default: String::new() };
    assert!(validate_serial(&text, "\"abc\""));
    assert!(validate_serial(&text, "\"\""));
    assert!(!validate_serial(&text, "abc"));
    // A single quote character is not a wrapped string.
    assert!(!validate_serial(&text, "\""));

    let choices = vec![EnumChoice { key: String::from("a"), label: String::from("Alpha") }];
    let en = OptionType::Enum { default: String::from("a"), options: choices };
    assert!(validate_serial(&en, "Alpha"));
    assert!(!validate_serial(&en, "a"));
    assert!(!validate_serial(&en, "Beta"));

    let nl = OptionType::NumberList { default: vec![] };
    assert!(validate_serial(&nl, "[ 1, 2 ]"));
    assert!(!validate_serial(&nl, "1, 2"));
}

#[test]
fn option_type_shape_queries() {
    assert!(OptionType::Switch { default: true }.is_switch());
    assert!(!OptionType::Switch { default: true }.is_text());
    assert!(OptionType::Text { default: String::new() }.is_text());
    assert!(!OptionType::NumberList { default: vec![] }.is_switch());
}
