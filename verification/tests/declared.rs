//! Programs that an interface description declares.

use anchor_derive::account_groups::{
    collect_declare_account_group, declare_account_group_signature, declare_account_signature,
    next_declare_account_group_name, AccountGroup, AccountGroups,
};
use anchor_derive::declared_constants::{
    declare_idl_const_type_to_tokens, gen_declare_program_constant, gen_declare_program_constants,
    gen_declare_program_docs, parse_declare_program_byte_array,
};
use anchor_derive::declared_errors::gen_declare_program_errors;
use anchor_derive::declared_events::gen_declare_program_events;
use anchor_derive::declared_program::{
    gen_declared_program, validate_declare_program_discriminators,
};
use anchor_derive::declared_types::{
    declare_idl_array_len_to_tokens, declare_idl_defined_builtin, declare_idl_generic_arg_to_tokens,
    declare_idl_type_to_tokens,
};
use anchor_derive::failure::{Failure, Span};
use anchor_derive::json::{json_str, Json, Member};
use anchor_derive::names::format_discriminator_bytes;
use anchor_derive::syntax::Ident;
use anchor_derive::type_defs::{gen_declare_program_type_idents, gen_declare_program_types};
use anchor_derive::type_parts::{
    declare_type_serialization, gen_declare_program_repr, gen_declare_program_type_fields,
    gen_declare_program_type_generics, DeclareTypeFields, DeclareTypeSerialization, FieldReading,
    NamedType,
};

const AT: Span = Span { start: 3, end: 4 };

fn value(tree: &serde_json::Value) -> Json {
    match tree {
        serde_json::Value::Null => Json::Null,
        serde_json::Value::Bool(flag) => Json::Bool(*flag),
        serde_json::Value::Number(number) => match number.as_u64() {
            Some(n) => Json::Number(n),
            None => Json::OtherNumber(number.to_string()),
        },
        serde_json::Value::String(text) => Json::Text(text.clone()),
        serde_json::Value::Array(items) => Json::Array(items.iter().map(value).collect()),
        serde_json::Value::Object(members) => Json::Object(
            members
                .iter()
                .map(|(key, member)| Member { key: key.clone(), value: value(member) })
                .collect(),
        ),
    }
}

fn json(text: &str) -> Json {
    value(&serde_json::from_str::<serde_json::Value>(text).unwrap())
}

fn list(text: &str) -> Vec<Json> {
    match json(text) {
        Json::Array(items) => items,
        _ => panic!("not an array: {text}"),
    }
}

fn message(failure: Failure) -> String {
    match failure {
        Failure::Diagnostic { message, .. } => message,
        Failure::NotAnIdentifier(word) => panic!("not an identifier: {word}"),
    }
}

fn error<T>(result: Result<T, Failure>) -> String {
    match result {
        Ok(_) => panic!("unexpectedly accepted"),
        Err(failure) => message(failure),
    }
}

const OPERATORS: [&str; 25] = [
    "<<=", ">>=", "...", "..=", "::", "->", "=>", "==", "!=", "<=", ">=", "&&", "||", "+=", "-=",
    "*=", "/=", "%=", "^=", "&=", "|=", "<<", ">>", "..", "'",
];

/// The tokens with marks joined only where they make up one operator.
fn spaced(stream: proc_macro2::TokenStream) -> proc_macro2::TokenStream {
    let trees: Vec<proc_macro2::TokenTree> = stream.into_iter().collect();
    let mut out: Vec<proc_macro2::TokenTree> = Vec::new();
    let mut i = 0;
    while i < trees.len() {
        match &trees[i] {
            proc_macro2::TokenTree::Group(group) => {
                let inner = spaced(group.stream());
                out.push(proc_macro2::Group::new(group.delimiter(), inner).into());
                i += 1;
            }
            proc_macro2::TokenTree::Punct(_) => {
                let mut run = String::new();
                let mut end = i;
                while let Some(proc_macro2::TokenTree::Punct(punct)) = trees.get(end) {
                    run.push(punct.as_char());
                    end += 1;
                    if punct.spacing() == proc_macro2::Spacing::Alone {
                        break;
                    }
                }
                let operator = OPERATORS.iter().find(|operator| run.starts_with(**operator));
                let taken = operator.map(|operator| operator.len()).unwrap_or(1);
                for (k, ch) in run.chars().take(taken).enumerate() {
                    let joint = k + 1 < taken || ch == '\'';
                    let spacing = if joint {
                        proc_macro2::Spacing::Joint
                    } else {
                        proc_macro2::Spacing::Alone
                    };
                    out.push(proc_macro2::Punct::new(ch, spacing).into());
                }
                i += taken;
            }
            other => {
                out.push(other.clone());
                i += 1;
            }
        }
    }
    out.into_iter().collect()
}

fn normal(code: &str) -> String {
    spaced(code.parse::<proc_macro2::TokenStream>().unwrap()).to_string()
}

fn type_of(field: &Json) -> Result<Json, String> {
    match field.get("type") {
        Some(Json::Text(name)) => Ok(Json::Text(name.clone())),
        Some(other) => Ok(json(&other.to_text())),
        None => Ok(json(&field.to_text())),
    }
}

fn reading(fields: &Json) -> FieldReading {
    let items = match fields {
        Json::Array(items) => items,
        _ => return FieldReading::Tuple(Vec::new()),
    };
    if items.iter().all(|item| item.get("name").is_some()) {
        FieldReading::Named(
            items
                .iter()
                .map(|item| NamedType {
                    name: item.text_at("name").unwrap().to_owned(),
                    ty: type_of(item),
                })
                .collect(),
        )
    } else {
        FieldReading::Tuple(items.iter().map(type_of).collect())
    }
}

fn readings(idl: &Json) -> Vec<Vec<FieldReading>> {
    let types = match idl.get("types") {
        Some(Json::Array(types)) => types,
        _ => return Vec::new(),
    };
    types
        .iter()
        .map(|ty_def| {
            let body = match ty_def.get("type") {
                Some(body) => body,
                None => return Vec::new(),
            };
            match body.text_at("kind") {
                Some("struct") => vec![reading(body.get("fields").unwrap_or(&Json::Null))],
                Some("enum") => match body.get("variants") {
                    Some(Json::Array(variants)) => variants
                        .iter()
                        .map(|variant| reading(variant.get("fields").unwrap_or(&Json::Null)))
                        .collect(),
                    _ => Vec::new(),
                },
                _ => Vec::new(),
            }
        })
        .collect()
}

fn types(idl: &str) -> Result<Vec<String>, Failure> {
    let idl = json(idl);
    gen_declare_program_types(&idl, &readings(&idl))
}

fn one_type(idl: &str) -> String {
    let items = types(idl).unwrap();
    assert_eq!(items.len(), 1);
    syn::parse_file(&items[0]).unwrap();
    normal(&items[0])
}

fn program(idl: &str) -> Result<String, Failure> {
    let idl = json(idl);
    let name = Ident { text: String::from("fixture"), span: AT };
    gen_declared_program(&name, &idl, "/idls/fixture.json", &readings(&idl))
}

// ---------------------------------------------------------------------------
// JSON
// ---------------------------------------------------------------------------

#[test]
fn json_is_printed_without_white_space() {
    let text = r#"{"a":[1,-2,2.5,true,null],"b":"say \"hi\"\n"}"#;
    assert_eq!(json(text).to_text(), text);
}

#[test]
fn a_missing_string_is_reported_with_the_object() {
    assert_eq!(json_str(&json(r#"{"name":"x"}"#), "name", AT).unwrap(), "x");
    assert_eq!(
        error(json_str(&json(r#"{"name":7}"#), "name", AT)),
        r#"IDL object is missing string field `name` in `{"name":7}`"#
    );
    assert_eq!(
        error(json_str(&json("[]"), "name", AT)),
        "IDL object is missing string field `name` in `[]`"
    );
}

// ---------------------------------------------------------------------------
// Types of values
// ---------------------------------------------------------------------------

#[test]
fn types_are_written_as_rust_types() {
    for (idl, expected) in [
        (r#""u64""#, "u64"),
        (r#""bool""#, "bool"),
        (r#""string""#, "anchor_lang::__alloc::string::String"),
        (r#""bytes""#, "anchor_lang::__alloc::vec::Vec<u8>"),
        (r#""pubkey""#, "anchor_lang::Address"),
        (r#"{"option":"u8"}"#, "Option<u8>"),
        (r#"{"vec":"u16"}"#, "anchor_lang::__alloc::vec::Vec<u16>"),
        (r#"{"array":["u8",32]}"#, "[u8; 32usize]"),
        (r#"{"array":["u8",{"generic":"N"}]}"#, "[u8; N]"),
        (r#"{"vec":{"option":{"array":["bool",4]}}}"#, "anchor_lang::__alloc::vec::Vec<Option<[bool; 4usize]>>"),
        (r#"{"generic":"T"}"#, "T"),
        (r#"{"defined":{"name":"my_type"}}"#, "MyType"),
        (r#"{"defined":{"name":"PodI128"}}"#, "anchor_lang::pod::PodI128"),
        (
            r#"{"defined":{"name":"Pair","generics":[{"kind":"type","type":"u8"},{"kind":"const","value":"3"}]}}"#,
            "Pair<u8, 3>",
        ),
    ] {
        let ty = declare_idl_type_to_tokens(&json(idl), AT).unwrap();
        assert_eq!(normal(&ty), normal(expected), "{idl}");
    }
}

#[test]
fn types_that_are_not_known_are_refused() {
    for (idl, expected) in [
        (r#""u256""#, "unsupported IDL type string `u256`"),
        (r#"{"map":"u8"}"#, r#"unsupported IDL type `{"map":"u8"}`"#),
        (r#"{"array":["u8"]}"#, "IDL array type must have two elements"),
        (r#"{"array":["u8",true]}"#, "unsupported IDL array length `true`"),
        (r#"{"array":["u8",{"generic":"a::N"}]}"#, "invalid IDL array generic `a::N`"),
    ] {
        let found = error(declare_idl_type_to_tokens(&json(idl), AT));
        assert!(found.starts_with(expected), "{idl}: {found}");
    }
}

#[test]
fn failures_keep_the_place_that_they_are_reported_at() {
    match declare_idl_type_to_tokens(&json(r#""u256""#), AT) {
        Err(Failure::Diagnostic { span, .. }) => assert_eq!(span, AT),
        _ => panic!("expected a diagnostic"),
    }
}

#[test]
fn array_lengths_are_numbers_or_generics() {
    assert_eq!(declare_idl_array_len_to_tokens(&json("16"), AT).unwrap(), "16usize");
    assert_eq!(declare_idl_array_len_to_tokens(&json("0"), AT).unwrap(), "0usize");
    assert_eq!(
        declare_idl_array_len_to_tokens(&json(r#"{"generic":"LEN"}"#), AT).unwrap(),
        "LEN"
    );
    assert!(error(declare_idl_array_len_to_tokens(&json("-1"), AT))
        .starts_with("unsupported IDL array length `-1`"));
}

#[test]
fn generic_arguments_are_types_or_values() {
    assert_eq!(
        declare_idl_generic_arg_to_tokens(&json(r#"{"kind":"type","type":"i8"}"#), AT).unwrap(),
        "i8"
    );
    assert_eq!(
        normal(
            &declare_idl_generic_arg_to_tokens(&json(r#"{"kind":"const","value":"1+2"}"#), AT)
                .unwrap()
        ),
        "1 + 2"
    );
    assert_eq!(
        error(declare_idl_generic_arg_to_tokens(&json(r#"{"kind":"life"}"#), AT)),
        "unsupported IDL generic arg kind `life`"
    );
    assert!(error(declare_idl_generic_arg_to_tokens(&json(r#"{"kind":"type"}"#), AT))
        .starts_with("generic type arg is missing type in `"));
    assert!(error(declare_idl_generic_arg_to_tokens(
        &json(r#"{"kind":"const","value":"1 +"}"#),
        AT
    ))
    .starts_with("failed to parse const generic value `1 +`"));
}

#[test]
fn only_runtime_wrappers_are_built_in() {
    assert_eq!(declare_idl_defined_builtin("PodU16"), Some(String::from("anchor_lang::pod::PodU16")));
    assert_eq!(declare_idl_defined_builtin("PodU8"), None);
}

// ---------------------------------------------------------------------------
// Constants
// ---------------------------------------------------------------------------

#[test]
fn documentation_becomes_attributes() {
    let docs = gen_declare_program_docs(&json(r#"{"docs":["First line","",3,"with \"quotes\""]}"#));
    assert_eq!(
        docs,
        "#[doc = \" First line\"]\n#[doc = \"\"]\n#[doc = \" with \\\"quotes\\\"\"]\n"
    );
    assert_eq!(gen_declare_program_docs(&json("{}")), "");
}

#[test]
fn byte_arrays_are_read_from_text() {
    assert_eq!(parse_declare_program_byte_array("[1, 2 ,255]", AT).unwrap(), vec![1, 2, 255]);
    assert_eq!(parse_declare_program_byte_array("  [ ] ", AT).unwrap(), Vec::<u8>::new());
    assert_eq!(parse_declare_program_byte_array("[+7]", AT).unwrap(), vec![7]);
    assert_eq!(
        error(parse_declare_program_byte_array("1, 2", AT)),
        "byte-array constant value must be `[u8, ...]`"
    );
    assert_eq!(
        error(parse_declare_program_byte_array("[1, 256]", AT)),
        "invalid byte constant: number too large to fit in target type"
    );
    assert_eq!(
        error(parse_declare_program_byte_array("[1,]", AT)),
        "invalid byte constant: cannot parse integer from empty string"
    );
    assert_eq!(
        error(parse_declare_program_byte_array("[x]", AT)),
        "invalid byte constant: invalid digit found in string"
    );
}

#[test]
fn byte_arrays_are_read_back_from_their_text() {
    for bytes in [Vec::new(), vec![0], vec![9, 10, 99, 100, 255], (0..=255).collect()] {
        let text = format_discriminator_bytes(&bytes);
        assert_eq!(parse_declare_program_byte_array(&text, AT).unwrap(), bytes, "{text}");
    }
}

#[test]
fn white_space_around_bytes_is_that_of_unicode() {
    assert_eq!(
        parse_declare_program_byte_array("\u{3000}[\u{a0}1\u{2003},\t2\u{85}]\u{2029}\r\n", AT).unwrap(),
        vec![1, 2]
    );
    assert_eq!(
        error(parse_declare_program_byte_array("\u{200b}[1]", AT)),
        "byte-array constant value must be `[u8, ...]`"
    );
    assert_eq!(
        error(parse_declare_program_byte_array("[\u{feff}1]", AT)),
        "invalid byte constant: invalid digit found in string"
    );
}

#[test]
fn constants_are_written_by_their_type() {
    for (ty, constant, expected) in [
        (r#""u8""#, "6", "pub const X : u8 = 6 ;"),
        (r#""string""#, "\"seed\"", "pub const X : & 'static str = \"seed\" ;"),
        (r#""bytes""#, "[1, 2]", "pub const X : & 'static [u8] = & [1u8 , 2u8] ;"),
        (r#"{"array":["u8",2]}"#, "[1, 2]", "pub const X : [u8 ; 2usize] = [1u8 , 2u8] ;"),
        (r#"{"array":["u16",2]}"#, "[1, 2]", "pub const X : [u16 ; 2usize] = [1 , 2] ;"),
    ] {
        let item = gen_declare_program_constant("X", &json(ty), constant, AT).unwrap();
        assert_eq!(normal(&item), expected, "{ty}");
    }
    assert_eq!(
        error(gen_declare_program_constant("X", &json(r#"{"array":["u8",3]}"#), "[1]", AT)),
        "constant `X` has 1 bytes, expected 3"
    );
    assert!(error(gen_declare_program_constant("X", &json(r#""string""#), "\"open", AT))
        .starts_with("failed to parse string constant value: "));
}

#[test]
fn constants_borrow_text_and_bytes() {
    assert_eq!(declare_idl_const_type_to_tokens(&json(r#""bytes""#), AT).unwrap(), "&'static [u8]");
    assert_eq!(declare_idl_const_type_to_tokens(&json(r#""string""#), AT).unwrap(), "&'static str");
    assert_eq!(declare_idl_const_type_to_tokens(&json(r#""i64""#), AT).unwrap(), "i64");
}

#[test]
fn a_constant_needs_a_type_and_a_value() {
    let idl = json(r#"{"constants":[{"name":"A","docs":["d"],"type":"u8","value":"1"}]}"#);
    let items = gen_declare_program_constants(&idl).unwrap();
    assert_eq!(items.len(), 1);
    assert_eq!(normal(&items[0]), normal("#[doc = \" d\"] pub const A: u8 = 1;"));
    assert!(gen_declare_program_constants(&json("{}")).unwrap().is_empty());
    assert_eq!(
        error(gen_declare_program_constants(&json(r#"{"constants":[{"name":"A","value":"1"}]}"#))),
        "constant `A` is missing type"
    );
    assert!(error(gen_declare_program_constants(&json(
        r#"{"constants":[{"name":"A","type":"u8"}]}"#
    )))
    .starts_with("IDL object is missing string field `value`"));
    match gen_declare_program_constants(&json(
        r#"{"constants":[{"name":"not a name","type":"u8","value":"1"}]}"#,
    )) {
        Err(Failure::NotAnIdentifier(word)) => assert_eq!(word, "not a name"),
        _ => panic!("expected a refused name"),
    }
}

// ---------------------------------------------------------------------------
// Type definitions
// ---------------------------------------------------------------------------

#[test]
fn serialisations_are_told_apart_by_name() {
    for (idl, expected) in [
        ("{}", DeclareTypeSerialization::Borsh),
        (r#"{"serialization":"borsh"}"#, DeclareTypeSerialization::Borsh),
        (r#"{"serialization":"bytemuck"}"#, DeclareTypeSerialization::Bytemuck),
        (r#"{"serialization":"bytemuckunsafe"}"#, DeclareTypeSerialization::BytemuckUnsafe),
        (r#"{"serialization":"bytemuckUnsafe"}"#, DeclareTypeSerialization::BytemuckUnsafe),
        (r#"{"serialization":{"custom":"x"}}"#, DeclareTypeSerialization::Borsh),
    ] {
        assert_eq!(declare_type_serialization(&json(idl), AT).unwrap(), expected, "{idl}");
    }
    assert!(!DeclareTypeSerialization::Borsh.is_bytemuck());
    assert!(DeclareTypeSerialization::Bytemuck.is_bytemuck());
    assert!(DeclareTypeSerialization::BytemuckUnsafe.is_bytemuck());
    assert_eq!(
        error(declare_type_serialization(&json(r#"{"serialization":"json"}"#), AT)),
        "unsupported IDL type serialization `json`"
    );
}

#[test]
fn layouts_are_written_as_attributes() {
    for (idl, expected) in [
        ("{}", None),
        (r#"{"repr":{"kind":"c"}}"#, Some("#[repr(C)]")),
        (r#"{"repr":{"kind":"rust","packed":true}}"#, Some("#[repr(Rust, packed)]")),
        (r#"{"repr":{"kind":"c","align":8}}"#, Some("#[repr(C, align(8))]")),
        (r#"{"repr":{"kind":"c","packed":true,"align":4}}"#, Some("#[repr(C, packed, align(4))]")),
        (r#"{"repr":{"kind":"transparent","packed":true}}"#, Some("#[repr(transparent)]")),
    ] {
        let found = gen_declare_program_repr(&json(idl), AT).unwrap();
        assert_eq!(found.as_deref(), expected, "{idl}");
    }
    assert_eq!(
        error(gen_declare_program_repr(&json(r#"{"repr":{"kind":"simd"}}"#), AT)),
        "unsupported IDL repr kind `simd`"
    );
}

#[test]
fn generics_are_declared_used_and_bounded() {
    let generics = gen_declare_program_type_generics(
        &json(
            r#"{"generics":[{"kind":"type","name":"T"},{"kind":"const","name":"N","type":"usize"}]}"#,
        ),
        AT,
    )
    .unwrap();
    assert_eq!(generics.impl_generics, "<T, const N: usize>");
    assert_eq!(generics.ty_generics, "<T, N>");
    assert_eq!(generics.idl_where_clause, "where T: anchor_lang::IdlAccountType");
    assert_eq!(
        generics.pod_where_clause,
        "where T: anchor_lang::bytemuck::Pod + anchor_lang::bytemuck::Zeroable"
    );
    let none = gen_declare_program_type_generics(&json("{}"), AT).unwrap();
    assert_eq!(none.impl_generics, "");
    assert_eq!(none.idl_where_clause, "");
    assert!(error(gen_declare_program_type_generics(
        &json(r#"{"generics":[{"kind":"const","name":"N","type":"<"}]}"#),
        AT
    ))
    .starts_with("failed to parse const generic `N` type `<`: "));
    assert_eq!(
        error(gen_declare_program_type_generics(
            &json(r#"{"generics":[{"kind":"life","name":"N"}]}"#),
            AT
        )),
        "unsupported IDL type generic kind `life`"
    );
}

#[test]
fn fields_are_named_or_not() {
    let named = FieldReading::Named(vec![NamedType {
        name: String::from("fooBar"),
        ty: Ok(json(r#""u8""#)),
    }]);
    let fields = gen_declare_program_type_fields(&named, AT, true).unwrap();
    assert_eq!(fields.tys(), vec![String::from("u8")]);
    match fields {
        DeclareTypeFields::Named { fields, .. } => {
            assert_eq!(fields, vec![String::from("pub foo_bar: u8,")])
        }
        _ => panic!("expected named fields"),
    }
    let tuple = FieldReading::Tuple(vec![Ok(json(r#""u8""#)), Ok(json(r#""i8""#))]);
    match gen_declare_program_type_fields(&tuple, AT, false).unwrap() {
        DeclareTypeFields::Tuple { fields, tys } => {
            assert_eq!(fields, vec![String::from("u8"), String::from("i8")]);
            assert_eq!(tys, fields);
        }
        _ => panic!("expected a tuple"),
    }
    assert_eq!(
        error(gen_declare_program_type_fields(
            &FieldReading::Invalid(String::from("mixed")),
            AT,
            true
        )),
        "invalid IDL field list: mixed"
    );
    let failed = FieldReading::Named(vec![NamedType {
        name: String::from("x"),
        ty: Err(String::from("why")),
    }]);
    assert_eq!(
        error(gen_declare_program_type_fields(&failed, AT, true)),
        "failed to normalize IDL field `x` type: why"
    );
    let failed = FieldReading::Tuple(vec![Err(String::from("why"))]);
    assert_eq!(
        error(gen_declare_program_type_fields(&failed, AT, true)),
        "failed to normalize tuple field type for declare_program!: why"
    );
    assert_eq!(DeclareTypeFields::Unit.tys(), Vec::<String>::new());
}

#[test]
fn a_struct_is_serialised_unless_it_says_otherwise() {
    let code = one_type(
        r#"{"types":[{"name":"point","docs":["A point"],"type":{"kind":"struct","fields":[
            {"name":"x","type":"u64"},{"name":"other","type":{"defined":{"name":"Inner"}}}]}}]}"#,
    );
    assert!(code.starts_with("# [doc = \" A point\"]"), "{code}");
    assert!(
        code.contains(
            "# [derive (Clone , anchor_lang :: AnchorDeserialize , anchor_lang :: AnchorSerialize)] \
             pub struct Point { pub x : u64 , pub other : Inner , }"
        ),
        "{code}"
    );
    assert!(
        code.contains("< Inner as anchor_lang :: IdlAccountType > :: __register_idl_deps (accounts , types) ;"),
        "{code}"
    );
    assert!(code.contains("__IDL_ACCOUNT_ENTRY : Option < & 'static str > = None ;"), "{code}");
    assert!(!code.contains("Discriminator"), "{code}");
    assert!(!code.contains("unsafe"), "{code}");
}

#[test]
fn a_struct_of_bytes_asserts_that_it_has_no_padding() {
    let code = one_type(
        r#"{"types":[{"name":"Pair","serialization":"bytemuck","generics":[{"kind":"type","name":"T"}],
            "type":{"kind":"struct","fields":["u8",{"generic":"T"}]}}]}"#,
    );
    assert!(
        code.contains("# [derive (Clone , Copy)] # [repr (C)] pub struct Pair < T > (pub u8 , pub T) ;"),
        "{code}"
    );
    assert!(
        code.contains(
            "unsafe impl < T > anchor_lang :: bytemuck :: Pod for Pair < T > where T : anchor_lang \
             :: bytemuck :: Pod + anchor_lang :: bytemuck :: Zeroable , u8 : anchor_lang :: \
             bytemuck :: Pod + anchor_lang :: bytemuck :: Zeroable , T :"
        ),
        "{code}"
    );
    assert!(
        code.contains(
            "core :: mem :: size_of :: < Self > () == 0 + core :: mem :: size_of :: < u8 > () + \
             core :: mem :: size_of :: < T > ()"
        ),
        "{code}"
    );
}

#[test]
fn an_account_has_an_owner_and_its_last_discriminator() {
    let code = one_type(
        r#"{"accounts":[{"name":"Vault","discriminator":[9]},{"name":"Vault","discriminator":[1,2]}],
            "types":[{"name":"Vault","type":{"kind":"struct"}}]}"#,
    );
    assert!(code.contains("pub struct Vault ;"), "{code}");
    assert!(code.contains("impl anchor_lang :: Owner for Vault"), "{code}");
    assert!(code.contains("DISCRIMINATOR : & 'static [u8] = & [1u8 , 2u8] ;"), "{code}");
    assert!(code.contains("impl anchor_lang :: AccountDeserialize for Vault"), "{code}");
    assert!(code.contains("wincode :: SchemaRead"), "{code}");
}

#[test]
fn an_account_of_bytes_is_read_from_bytes() {
    let code = one_type(
        r#"{"accounts":[{"name":"Vault","discriminator":[1]}],
            "types":[{"name":"Vault","serialization":"bytemuckunsafe","repr":{"kind":"c","packed":true},
            "type":{"kind":"struct","fields":[{"name":"a","type":"u8"}]}}]}"#,
    );
    assert!(code.contains("# [repr (C , packed)] pub struct Vault { pub a : u8 , }"), "{code}");
    assert!(code.contains("pod_read_unaligned"), "{code}");
    assert!(!code.contains("SchemaRead"), "{code}");
}

#[test]
fn enums_keep_the_fields_of_their_variants() {
    let code = one_type(
        r#"{"types":[{"name":"Shape","type":{"kind":"enum","variants":[
            {"name":"Empty"},{"name":"Circle","fields":["u8"]},
            {"name":"Square","fields":[{"name":"sideLength","type":{"defined":{"name":"Side"}}}]}]}}]}"#,
    );
    assert!(
        code.contains("pub enum Shape { Empty , Circle (u8) , Square { side_length : Side , } , }"),
        "{code}"
    );
    assert!(
        code.contains("< Side as anchor_lang :: IdlAccountType > :: __register_idl_deps"),
        "{code}"
    );
}

#[test]
fn aliases_name_another_type() {
    assert_eq!(
        one_type(r#"{"types":[{"name":"Key","type":{"kind":"type","alias":"pubkey"}}]}"#),
        "pub type Key = anchor_lang :: Address ;"
    );
}

#[test]
fn definitions_that_cannot_be_written_are_refused() {
    for (idl, expected) in [
        (r#"{"types":[{"name":"A"}]}"#, "type `A` is missing type body"),
        (
            r#"{"types":[{"name":"A","type":{"kind":"union"}}]}"#,
            "declare_program! only supports struct, enum, and type alias IDL types for now, got \
             `union`",
        ),
        (
            r#"{"types":[{"name":"A","type":{"kind":"struct","fields":7}}]}"#,
            "struct type `A` fields must be an array",
        ),
        (
            r#"{"types":[{"name":"A","type":{"kind":"enum"}}]}"#,
            "enum type `A` is missing variants",
        ),
        (
            r#"{"types":[{"name":"A","serialization":"bytemuck","type":{"kind":"enum","variants":[]}}]}"#,
            "declare_program! does not support bytemuck enum type `A`",
        ),
        (
            r#"{"types":[{"name":"A","type":{"kind":"enum","variants":[{"name":"B","fields":7}]}}]}"#,
            "variant `B` fields must be an array",
        ),
        (
            r#"{"types":[{"name":"A","type":{"kind":"type"}}]}"#,
            "type alias `A` is missing alias",
        ),
        (
            r#"{"accounts":[{"name":"A","discriminator":["x"]}],"types":[{"name":"A","type":{"kind":"struct"}}]}"#,
            "account `A` discriminator entries must be integers",
        ),
        (
            r#"{"accounts":[{"name":"A","discriminator":[256]}],"types":[{"name":"A","type":{"kind":"struct"}}]}"#,
            "account `A` discriminator entry `256` exceeds u8",
        ),
    ] {
        assert_eq!(error(types(idl)), expected, "{idl}");
    }
}

#[test]
fn type_names_are_ordered_and_each_stands_once() {
    let idl = json(
        r#"{"accounts":[{"name":"vault"},{"name":"apple"}],"types":[{"name":"apple"},{"name":"book_end"}]}"#,
    );
    assert_eq!(
        gen_declare_program_type_idents(&idl).unwrap(),
        vec![String::from("Apple"), String::from("BookEnd"), String::from("Vault")]
    );
}

// ---------------------------------------------------------------------------
// Events
// ---------------------------------------------------------------------------

#[test]
fn events_are_exported_and_parsed() {
    let code = gen_declare_program_events(&json(
        r#"{"events":[{"name":"Moved","discriminator":[1,2]},{"name":"raw","discriminator":[3]}],
            "types":[{"name":"Moved"},{"name":"raw","serialization":"bytemuck"}]}"#,
    ))
    .unwrap();
    syn::parse_file(&code).unwrap();
    let code = normal(&code);
    assert!(code.contains("pub use super :: Moved ; pub use super :: Raw ;"), "{code}");
    assert!(code.contains("& [1u8 , 2u8] ;"), "{code}");
    assert!(
        code.contains("pub enum Event { Moved (super :: events :: Moved) , Raw (super :: events :: Raw) , }"),
        "{code}"
    );
    assert_eq!(code.matches("pod_read_unaligned").count(), 1);
    assert_eq!(code.matches("serialize_into").count(), 1);
    let mut from = code.find("fn try_from").unwrap();
    for part in [
        "value . starts_with (< super :: events :: Moved",
        "if ! payload . is_empty () { return Err (anchor_lang :: Error :: InvalidInstructionData)",
        "return Ok (Self :: Moved",
        "value . starts_with (< super :: events :: Raw",
        "payload . len () != expected { return Err (anchor_lang :: Error :: InvalidInstructionData)",
        "return Ok (Self :: Raw",
        "Err (anchor_lang :: Error :: InvalidArgument)",
    ] {
        match code[from..].find(part) {
            Some(at) => from += at + part.len(),
            None => panic!("no `{part}` from {from} on in {code}"),
        }
    }
}

#[test]
fn a_program_without_events_has_an_empty_module() {
    let code = gen_declare_program_events(&json("{}")).unwrap();
    assert_eq!(normal(&code), "pub mod events { use super :: * ; }");
    let code = gen_declare_program_events(&json(r#"{"events":[]}"#)).unwrap();
    assert_eq!(normal(&code), "pub mod events { use super :: * ; }");
}

#[test]
fn events_need_a_discriminator_and_a_type() {
    assert_eq!(
        error(gen_declare_program_events(&json(r#"{"events":[{"name":"A"}]}"#))),
        r#"event `A` is missing discriminator in `{"name":"A"}`"#
    );
    assert_eq!(
        error(gen_declare_program_events(&json(
            r#"{"events":[{"name":"A","discriminator":[1]}]}"#
        ))),
        "event `A` is missing matching type definition"
    );
    assert_eq!(
        error(gen_declare_program_events(&json(
            r#"{"events":[{"name":"A","discriminator":[]}],"types":[{"name":"A"}]}"#
        ))),
        "IDL discriminator must not be empty"
    );
    assert_eq!(
        error(gen_declare_program_events(&json(
            r#"{"events":[{"name":"A","discriminator":[1]}],"types":[{"name":"A","serialization":"x"}]}"#
        ))),
        "unsupported IDL type serialization `x`"
    );
}

// ---------------------------------------------------------------------------
// Errors
// ---------------------------------------------------------------------------

#[test]
fn errors_keep_their_codes_and_messages() {
    let code = gen_declare_program_errors(
        &json(
            r#"{"metadata":{"name":"my_program"},
                "errors":[{"name":"tooBig","code":6000,"msg":"Too big"},{"name":"small","code":4294967295}]}"#,
        ),
        AT,
    )
    .unwrap();
    syn::parse_file(&code).unwrap();
    let code = normal(&code);
    assert!(code.contains("pub enum MyProgramError {"), "{code}");
    assert!(code.contains("# [msg (\"Too big\")] TooBig = 6000u32 , Small = 4294967295u32 ,"), "{code}");
    let unnamed =
        gen_declare_program_errors(&json(r#"{"errors":[{"name":"a","code":1}]}"#), AT).unwrap();
    assert!(unnamed.contains("DeclaredProgramError"), "{unnamed}");
}

#[test]
fn a_program_without_errors_has_an_empty_module() {
    for idl in ["{}", r#"{"errors":[]}"#] {
        let code = gen_declare_program_errors(&json(idl), AT).unwrap();
        assert_eq!(normal(&code), "pub mod error { use super :: * ; }");
    }
}

#[test]
fn errors_need_a_code_of_32_bits() {
    for idl in [r#"{"name":"A"}"#, r#"{"code":4294967296,"name":"A"}"#] {
        assert_eq!(
            error(gen_declare_program_errors(&json(&format!("{{\"errors\":[{idl}]}}")), AT)),
            format!("IDL error `A` is missing a u32 code in `{idl}`")
        );
    }
}

// ---------------------------------------------------------------------------
// Groups of accounts
// ---------------------------------------------------------------------------

fn no_groups() -> AccountGroups {
    AccountGroups { groups: Vec::new(), variants: Vec::new() }
}

fn names(groups: &AccountGroups) -> Vec<&str> {
    groups.groups.iter().map(|group| group.name.as_str()).collect()
}

#[test]
fn signatures_hold_names_and_flags() {
    assert_eq!(
        declare_account_signature(
            &json(r#"{"name":"a","writable":true,"isSigner":true,"optional":false}"#),
            AT
        )
        .unwrap(),
        "leaf:a:true:true:false"
    );
    assert_eq!(
        declare_account_signature(&json(r#"{"name":"a","writable":false,"isMut":true}"#), AT)
            .unwrap(),
        "leaf:a:false:false:false"
    );
    assert_eq!(
        declare_account_group_signature(
            &list(r#"[{"name":"a"},{"name":"b","accounts":[{"name":"c","optional":true}]}]"#),
            AT
        )
        .unwrap(),
        "leaf:a:false:false:false;nested:b:leaf:c:false:false:true;;"
    );
    assert!(error(declare_account_group_signature(&list(r#"[{"name":"a"},{}]"#), AT))
        .starts_with("IDL object is missing string field `name` in `{}`"));
}

#[test]
fn a_taken_name_gets_the_first_free_number() {
    let taken = |names: &[&str]| -> Vec<AccountGroup> {
        names
            .iter()
            .map(|name| AccountGroup { name: (*name).to_owned(), fields: Vec::new() })
            .collect()
    };
    let reserved = vec![String::from("Swap3")];
    assert_eq!(next_declare_account_group_name("Swap", &reserved, &taken(&[])), "Swap");
    assert_eq!(next_declare_account_group_name("Swap", &reserved, &taken(&["Swap"])), "Swap2");
    assert_eq!(
        next_declare_account_group_name("Swap", &reserved, &taken(&["Swap", "Swap2"])),
        "Swap4"
    );
    let many: Vec<String> = (2..=11).map(|n| format!("Swap{n}")).collect();
    assert_eq!(next_declare_account_group_name("Swap", &many, &taken(&["Swap"])), "Swap12");
}

#[test]
fn groups_that_agree_share_a_struct() {
    let mut state = no_groups();
    let none: Vec<String> = Vec::new();
    let accounts = list(r#"[{"name":"payer","signer":true,"writable":true},{"name":"maybe","optional":true}]"#);
    let first = collect_declare_account_group("Pay", &accounts, &none, &mut state, AT).unwrap();
    let again = collect_declare_account_group("Pay", &accounts, &none, &mut state, AT).unwrap();
    assert_eq!(first, "Pay");
    assert_eq!(again, "Pay");
    assert_eq!(names(&state), vec!["Pay"]);
    assert_eq!(state.variants.len(), 1);
    let fields: Vec<String> =
        state.groups[0].fields.iter().map(|field| normal(&field.to_tokens())).collect();
    assert_eq!(
        fields,
        vec![
            String::from(
                "# [account (mut , signer)] pub payer : anchor_lang :: accounts :: UncheckedAccount ,"
            ),
            String::from(
                "pub maybe : Option < anchor_lang :: accounts :: UncheckedAccount > ,"
            ),
        ]
    );
    let other = collect_declare_account_group("Pay", &list(r#"[{"name":"payer"}]"#), &none, &mut state, AT);
    assert_eq!(other.unwrap(), "Pay2");
    assert_eq!(names(&state), vec!["Pay", "Pay2"]);
}

#[test]
fn structs_of_groups_are_ordered_and_avoid_reserved_names() {
    let mut state = no_groups();
    let reserved = vec![String::from("Inner")];
    let accounts = list(
        r#"[{"name":"inner","accounts":[{"name":"a","writable":true}]},{"name":"b","signer":true}]"#,
    );
    let name = collect_declare_account_group("Outer", &accounts, &reserved, &mut state, AT).unwrap();
    assert_eq!(name, "Outer");
    assert_eq!(names(&state), vec!["Inner2", "Outer"]);
    assert_eq!(state.groups[1].fields[0].ty, "anchor_lang::Nested<Inner2>");
    assert_eq!(state.groups[1].fields[0].attrs, "");
    assert_eq!(state.groups[1].fields[1].attrs, "#[account(signer)]");
    assert_eq!(state.groups[0].fields[0].attrs, "#[account(mut)]");
}

#[test]
fn groups_that_differ_leave_each_other_alone() {
    let mut state = no_groups();
    let none: Vec<String> = Vec::new();
    let nested = list(r#"[{"name":"inner","accounts":[{"name":"a"}]}]"#);
    let first = collect_declare_account_group("Outer", &nested, &none, &mut state, AT).unwrap();
    let before: Vec<(String, usize)> =
        state.groups.iter().map(|group| (group.name.clone(), group.fields.len())).collect();
    let other = list(r#"[{"name":"inner","accounts":[{"name":"a"},{"name":"b"}]},{"name":"c"}]"#);
    let second = collect_declare_account_group("Outer", &other, &none, &mut state, AT).unwrap();
    assert_eq!((first.as_str(), second.as_str()), ("Outer", "Outer2"));
    assert_eq!(names(&state), vec!["Inner", "Inner2", "Outer", "Outer2"]);
    for (name, fields) in before {
        assert!(state.groups.iter().any(|group| group.name == name && group.fields.len() == fields));
    }
    let generated: Vec<&str> =
        state.variants.iter().map(|variant| variant.generated_name.as_str()).collect();
    assert_eq!(generated, vec!["Inner", "Outer", "Inner2", "Outer2"]);
}

#[test]
fn a_group_replaces_the_struct_of_a_group_inside_it_with_its_name() {
    let mut state = no_groups();
    let none: Vec<String> = Vec::new();
    let accounts = list(r#"[{"name":"foo","accounts":[{"name":"a"}]},{"name":"b"}]"#);
    let name = collect_declare_account_group("Foo", &accounts, &none, &mut state, AT).unwrap();
    assert_eq!(name, "Foo");
    assert_eq!(names(&state), vec!["Foo"]);
    assert_eq!(state.groups[0].fields[0].ty, "anchor_lang::Nested<Foo>");
}

// ---------------------------------------------------------------------------
// Whole programs
// ---------------------------------------------------------------------------

const PROGRAM: &str = r#"{
    "address": "Demo",
    "metadata": {"name": "demo", "address": "Other"},
    "instructions": [
        {"name": "depositFunds", "discriminator": [1, 2], "accounts": [{"name": "vault", "writable": true}],
         "args": [{"name": "fromAmount", "type": "u64"}, {"name": "note", "type": {"option": "string"}}], "returns": "u8"},
        {"name": "ping", "accounts": [], "args": []}
    ],
    "accounts": [{"name": "Vault", "discriminator": [5]}],
    "events": [{"name": "Done", "discriminator": [6]}],
    "errors": [{"name": "bad", "code": 1}],
    "constants": [{"name": "SEED", "type": "string", "value": "\"s\""}],
    "types": [
        {"name": "Vault", "type": {"kind": "struct", "fields": [{"name": "total", "type": "u64"}]}},
        {"name": "Done", "type": {"kind": "struct"}}
    ]
}"#;

#[test]
fn a_program_is_declared_as_a_module() {
    let code = program(PROGRAM).unwrap();
    syn::parse_file(&code).unwrap();
    let code = normal(&code);
    assert!(code.contains("pub mod fixture {"), "{code}");
    assert!(code.contains("include_bytes ! (\"/idls/fixture.json\")"), "{code}");
    assert!(code.contains("anchor_lang :: address ! (\"Demo\")"), "{code}");
    assert!(code.contains("pub struct Fixture ;"), "{code}");
    assert!(code.contains("pub mod types { pub use super :: Done ; pub use super :: Vault ; }"), "{code}");
    assert!(
        code.contains(
            "# [discrim = [1u8 , 2u8]] pub fn deposit_funds (_ctx : & mut anchor_lang :: Context < \
             DepositFunds > , from_amount : u64 , note : Option < anchor_lang :: __alloc :: string \
             :: String >) -> anchor_lang :: Result < u8 > { let _ = from_amount ; let _ = note ; \
             unreachable ! () }"
        ),
        "{code}"
    );
    assert!(
        code.contains("pub fn ping (_ctx : & mut anchor_lang :: Context < Ping > ,) -> anchor_lang :: Result < () >"),
        "{code}"
    );
    assert!(
        code.contains("# [discrim = [173u8 , 0u8 , 94u8 , 236u8 , 73u8 , 133u8 , 225u8 , 153u8]]"),
        "{code}"
    );
}

#[test]
fn the_address_may_stand_among_the_metadata() {
    let code = program(r#"{"metadata":{"address":"Deep"},"instructions":[]}"#).unwrap();
    assert!(code.contains("anchor_lang::address!(\"Deep\")"), "{code}");
}

#[test]
fn programs_that_cannot_be_declared_are_refused() {
    for (idl, expected) in [
        ("{}", "IDL is missing program address"),
        (r#"{"address":7,"metadata":{"address":"x"}}"#, "IDL is missing program address"),
        (r#"{"address":"x"}"#, "IDL is missing instructions array"),
        (
            r#"{"address":"x","instructions":[{"name":"a","discriminator":[1]}]}"#,
            "instruction `a` is missing accounts array",
        ),
        (
            r#"{"address":"x","instructions":[{"name":"a","discriminator":[1],"accounts":[]}]}"#,
            "instruction `a` is missing args array",
        ),
        (
            r#"{"address":"x","instructions":[{"name":"a","discriminator":[1],"accounts":[],"args":[{"name":"b"}]}]}"#,
            "argument `b` is missing type",
        ),
        (
            r#"{"address":"x","instructions":[{"name":"a","discriminator":[300],"accounts":[],"args":[]}]}"#,
            "IDL discriminator values must be bytes",
        ),
    ] {
        assert_eq!(error(program(idl)), expected, "{idl}");
    }
}

#[test]
fn sections_that_cannot_be_told_apart_are_refused() {
    for (idl, expected) in [
        (
            r#"{"instructions":[{"name":"a","discriminator":[1]},{"name":"b","discriminator":[1,2]}]}"#,
            "Ambiguous discriminators for instructions: `a` discriminator [1] is a prefix of `b` \
             discriminator [1, 2]",
        ),
        (
            r#"{"accounts":[{"name":"a","discriminator":[7,8]},{"name":"b","discriminator":[7]}]}"#,
            "Ambiguous discriminators for accounts: `b` discriminator [7] is a prefix of `a` \
             discriminator [7, 8]",
        ),
        (
            r#"{"events":[{"name":"a","discriminator":[7]},{"name":"b"},{"name":"c","discriminator":[7]}]}"#,
            "Ambiguous discriminators for events: `c` discriminator [7] is a prefix of `a` \
             discriminator [7]",
        ),
    ] {
        assert_eq!(error(validate_declare_program_discriminators(&json(idl), AT)), expected);
    }
    assert!(validate_declare_program_discriminators(&json(PROGRAM), AT).is_ok());
    assert!(validate_declare_program_discriminators(&json("{}"), AT).is_ok());
}
