//! Names and discriminators.

use anchor_derive::attrs::{Attribute, Element, Meta, Value, ValueKind};
use anchor_derive::discriminator::{
    default_instruction_discriminator, discriminator_of_digest, hashed_discriminator,
    parse_discrim_attr, parse_discriminator_array, validate_discriminator_prefixes,
    validate_instruction_discriminator_prefixes, DiscrimAttr, Named,
};
use anchor_derive::failure::{Failure, Span};
use anchor_derive::json::Json;
use anchor_derive::names::{
    check_name, format_discriminator_bytes, new_ident, part_initials, to_camel_case, to_snake_case,
    to_type_name, with_capitals,
};
use anchor_derive::syntax::Ident;
use anchor_derive::template::{fill, fill2};

const AT: Span = Span { start: 1, end: 2 };

fn message(failure: Failure) -> String {
    match failure {
        Failure::Diagnostic { message, .. } => message,
        Failure::NotAnIdentifier(word) => panic!("not an identifier: {word}"),
    }
}

// ---------------------------------------------------------------------------
// Names
// ---------------------------------------------------------------------------

#[test]
fn snake_case_parts_at_capitals() {
    for (input, expected) in [
        ("", ""),
        ("depositFunds", "deposit_funds"),
        ("DepositFunds", "deposit_funds"),
        ("HTTPServer", "h_t_t_p_server"),
        ("my-program name", "my_program_name"),
        ("a_b", "a_b"),
        ("x1Y", "x1_y"),
        ("Éa", "Éa"),
    ] {
        assert_eq!(to_snake_case(input), expected, "{input}");
    }
}

#[test]
fn snake_case_stays_as_it_is() {
    for input in ["depositFunds", "HTTPServer", "my-program name", "a__b", "_x"] {
        let once = to_snake_case(input);
        assert_eq!(to_snake_case(&once), once);
        assert!(!once.contains(|ch: char| ch.is_ascii_uppercase() || ch == '-' || ch == ' '));
    }
}

#[test]
fn type_names_run_the_parts_together() {
    for (input, expected) in [
        ("deposit_funds", "DepositFunds"),
        ("depositFunds", "DepositFunds"),
        ("my-program", "MyProgram"),
        ("_a__b_", "AB"),
        ("HTTP", "HTTP"),
        ("éclair_x", "éclairX"),
    ] {
        assert_eq!(to_type_name(input), expected, "{input}");
        assert_eq!(to_type_name(&to_snake_case(input)), expected, "{input}");
        assert!(!to_type_name(input).contains('_'));
    }
}

#[test]
fn camel_case_follows_the_unicode_tables() {
    assert_eq!(to_camel_case("execute_transfer"), "ExecuteTransfer");
    assert_eq!(to_camel_case("__x_1y"), "X1y");
    assert_eq!(to_camel_case("éclair_ßtein"), "ÉclairSStein");
    assert_eq!(to_camel_case("keepCase_Here"), "KeepCaseHere");
}

#[test]
fn camel_case_writes_the_parts_one_after_the_other() {
    assert_eq!(to_camel_case(""), "");
    for (a, b) in [("deposit", "funds"), ("", "x"), ("a_b", "1c"), ("ßa", "éb"), ("_", "_")] {
        let joined = to_camel_case(&format!("{a}_{b}"));
        assert_eq!(joined, to_camel_case(a) + &to_camel_case(b), "{a}_{b}");
        assert!(!joined.contains('_'));
    }
}

#[test]
fn camel_case_of_plain_names_is_their_type_name() {
    for (name, expected) in [
        ("initialize", "Initialize"),
        ("set_u64_value", "SetU64Value"),
        ("_private__2nd", "Private2nd"),
        ("depositFunds", "DepositFunds"),
        ("HTTP_get", "HTTPGet"),
    ] {
        assert_eq!(to_camel_case(name), expected, "{name}");
        assert_eq!(to_type_name(name), expected, "{name}");
    }
    assert_ne!(to_camel_case("éclair"), to_type_name("éclair"));
}

#[test]
fn initials_are_replaced_by_given_capitals() {
    assert_eq!(part_initials("ab__cd_e"), vec!['a', 'c', 'e']);
    let capitals = vec![String::from("1"), String::from("22"), String::from("")];
    assert_eq!(with_capitals("ab__cd_e", &capitals), "1b22d");
}

#[test]
fn bytes_are_shown_in_brackets() {
    assert_eq!(format_discriminator_bytes(&vec![1, 2, 255]), "[1, 2, 255]");
    assert_eq!(format_discriminator_bytes(&vec![9]), "[9]");
    assert_eq!(format_discriminator_bytes(&Vec::new()), "[]");
}

#[test]
fn items_are_named_by_identifiers() {
    assert_eq!(new_ident(String::from("Foo_1")).unwrap(), "Foo_1");
    assert_eq!(new_ident(String::from("fn")).unwrap(), "fn");
    for word in ["", "1a", "a b", "a::b", "r#type", "a-b"] {
        match new_ident(word.to_owned()) {
            Err(Failure::NotAnIdentifier(found)) => assert_eq!(found, word),
            _ => panic!("`{word}` unexpectedly accepted"),
        }
    }
}

#[test]
fn a_name_must_read_back_as_itself() {
    assert!(check_name("x", &Some(String::from("x"))));
    assert!(!check_name(" x", &Some(String::from("x"))));
    assert!(!check_name("r#x", &Some(String::from("r#x"))));
    assert!(!check_name("x y", &None));
}

// ---------------------------------------------------------------------------
// Templates
// ---------------------------------------------------------------------------

#[test]
fn holes_are_replaced_by_parts() {
    assert_eq!(fill2("fn @a() { @b; @a }", "f", "g()"), "fn f() { g(); f }");
    assert_eq!(fill("mail@Host @ @", &Vec::new()), "mail@Host @ @");
    assert_eq!(fill("[@a][@b]", &vec![String::from("@b")]), "[@b][]");
}

// ---------------------------------------------------------------------------
// Default discriminators
// ---------------------------------------------------------------------------

#[test]
fn default_discriminators_are_the_head_of_a_digest() {
    assert_eq!(
        default_instruction_discriminator("initialize"),
        vec![175, 175, 109, 31, 13, 152, 155, 237]
    );
    assert_eq!(
        hashed_discriminator("global", "initialize"),
        default_instruction_discriminator("initialize")
    );
    assert_ne!(
        hashed_discriminator("account", "initialize"),
        default_instruction_discriminator("initialize")
    );
    let digest: Vec<u8> = (0..32).collect();
    assert_eq!(discriminator_of_digest(&digest), vec![0, 1, 2, 3, 4, 5, 6, 7]);
}

// ---------------------------------------------------------------------------
// Discriminators in attributes
// ---------------------------------------------------------------------------

fn discrim(kind: ValueKind) -> Attribute {
    Attribute {
        inner: false,
        path: String::from("discrim"),
        path_span: AT,
        meta: Meta::NameValue {
            value: Value { kind, tokens: String::from("?"), span: AT },
            eq: AT,
        },
        tokens: String::from("#[discrim = ?]"),
        span: AT,
    }
}

fn element(digits: Option<&str>) -> Element {
    Element { digits: digits.map(|digits| digits.to_owned()), span: AT }
}

#[test]
fn an_attribute_gives_a_byte_or_an_array() {
    let one = parse_discrim_attr(&vec![discrim(ValueKind::Integer(String::from("7")))]);
    assert_eq!(one.unwrap().unwrap().bytes, vec![7]);
    let many = parse_discrim_attr(&vec![discrim(ValueKind::Array(vec![
        element(Some("1")),
        element(Some("255")),
    ]))]);
    assert_eq!(many.unwrap().unwrap().bytes, vec![1, 255]);
    assert!(parse_discrim_attr(&Vec::new()).unwrap().is_none());
}

#[test]
fn only_the_first_discrim_attribute_counts() {
    let mut plain = discrim(ValueKind::Other);
    plain.meta = Meta::Path;
    let attrs = vec![
        plain,
        discrim(ValueKind::Integer(String::from("1"))),
        discrim(ValueKind::Other),
    ];
    assert_eq!(parse_discrim_attr(&attrs).unwrap().unwrap().bytes, vec![1]);
}

#[test]
fn malformed_discrim_attributes_are_refused() {
    for (kind, expected) in [
        (
            ValueKind::Integer(String::from("256")),
            "`#[discrim = N]` value must fit in a u8 (0..=255)",
        ),
        (
            ValueKind::Array(vec![element(Some("1")), element(Some("300"))]),
            "`#[discrim = [...]]` values must fit in a u8 (0..=255)",
        ),
        (
            ValueKind::Array(vec![element(None)]),
            "`#[discrim = [...]]` values must be integer literals",
        ),
        (ValueKind::Array(Vec::new()), "`#[discrim = [...]]` must contain at least one byte"),
        (
            ValueKind::Text(String::from("x")),
            "`#[discrim = ...]` value must be an integer literal or byte array literal",
        ),
        (
            ValueKind::Other,
            "`#[discrim = ...]` value must be an integer literal or byte array literal",
        ),
    ] {
        match parse_discrim_attr(&vec![discrim(kind)]) {
            Err(failure) => assert_eq!(message(failure), expected),
            Ok(_) => panic!("unexpectedly accepted: {expected}"),
        }
    }
}

// ---------------------------------------------------------------------------
// Discriminators that exclude each other
// ---------------------------------------------------------------------------

fn named(name: &str, bytes: &[u8]) -> Named {
    Named { name: name.to_owned(), bytes: bytes.to_vec(), span: AT }
}

#[test]
fn the_first_clash_is_reported() {
    let list = vec![named("a", &[1]), named("b", &[2, 3]), named("c", &[2]), named("d", &[2])];
    assert_eq!(
        message(validate_discriminator_prefixes("events", &list, AT).unwrap_err()),
        "Ambiguous discriminators for events: `c` discriminator [2] is a prefix of `b` \
         discriminator [2, 3]"
    );
}

#[test]
fn items_of_one_name_do_not_clash() {
    let list = vec![named("a", &[1]), named("a", &[1, 2]), named("b", &[3])];
    assert!(validate_discriminator_prefixes("events", &list, AT).is_ok());
}

#[test]
fn data_begins_with_one_discriminator_at_most() {
    let list = vec![named("a", &[1, 2]), named("b", &[1, 3]), named("c", &[2])];
    assert!(validate_discriminator_prefixes("events", &list, AT).is_ok());
    for data in [[1u8, 2, 9], [1, 3, 9], [2, 0, 0], [3, 3, 3]] {
        let matching: Vec<&str> = list
            .iter()
            .filter(|item| data.starts_with(&item.bytes))
            .map(|item| item.name.as_str())
            .collect();
        assert!(matching.len() <= 1, "{matching:?}");
    }
}

#[test]
fn handlers_clash_at_the_outer_handler() {
    let ident = |text: &str, start: usize| Ident {
        text: text.to_owned(),
        span: Span { start, end: start },
    };
    let given = |bytes: &[u8]| Some(DiscrimAttr { bytes: bytes.to_vec(), span: AT });
    let handlers = vec![ident("first", 10), ident("second", 20)];
    let attrs = vec![given(&[1]), given(&[1, 2])];
    match validate_instruction_discriminator_prefixes(&handlers, &attrs) {
        Err(Failure::Diagnostic { span, message }) => {
            assert_eq!(span.start, 20);
            assert_eq!(
                message,
                "Ambiguous discriminators for instructions: `first` discriminator [1] is a prefix \
                 of `second` discriminator [1, 2]"
            );
        }
        _ => panic!("expected a clash"),
    }
    let attrs = vec![given(&[175]), None];
    let handlers = vec![ident("first", 10), ident("initialize", 20)];
    assert!(validate_instruction_discriminator_prefixes(&handlers, &attrs).is_err());
    let attrs = vec![given(&[174]), None];
    assert!(validate_instruction_discriminator_prefixes(&handlers, &attrs).is_ok());
}

#[test]
fn arrays_of_bytes_are_discriminators() {
    let numbers = |list: &[u64]| -> Vec<Json> { list.iter().map(|n| Json::Number(*n)).collect() };
    assert_eq!(parse_discriminator_array(&numbers(&[0, 255]), AT).unwrap(), vec![0, 255]);
    assert_eq!(
        message(parse_discriminator_array(&Vec::new(), AT).unwrap_err()),
        "IDL discriminator must not be empty"
    );
    assert_eq!(
        message(parse_discriminator_array(&numbers(&[1, 256]), AT).unwrap_err()),
        "IDL discriminator values must be bytes"
    );
    assert_eq!(
        message(parse_discriminator_array(&vec![Json::Null], AT).unwrap_err()),
        "IDL discriminator values must be bytes"
    );
}
