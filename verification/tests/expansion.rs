//! The macros on whole items, read with `syn`.

use anchor_derive::account::{account, described_account, AccountIdl, Expansion};
use anchor_derive::account_fields::{
    classify_field, print_finder, AccountField, FieldKind, Scope, Seed, Seeds, SeedsProgram,
};
use anchor_derive::accounts::{
    account_relations, check_close_chains, client_meta_signer_expr, cpi_meta_signer_expr,
    field_offsets, impl_accounts, nested_client_accounts_type, AccountsReadings, FieldSummary,
};
use anchor_derive::args::{args_meta, emit_args_deser, Argument};
use anchor_derive::attrs::{
    Attribute, Delimiter, Element, Meta, Token, TokenKind, Value, ValueKind,
};
use anchor_derive::cpi_accounts::{cpi_field_kind, impl_to_cpi_accounts, CpiFieldKind};
use anchor_derive::declared_program::gen_declared_program;
use anchor_derive::declared_types::{declare_idl_array_len_to_tokens, declare_idl_type_to_tokens};
use anchor_derive::derive_order::find_order;
use anchor_derive::discriminator::{default_instruction_discriminator, hashed_discriminator};
use anchor_derive::event::{described_event, event, EventIdl};
use anchor_derive::failure::{Failure, Span};
use anchor_derive::field_attrs::{
    account_meta_attrs, accounts_program_id_expr, has_nested_attr, parse_accounts_program_id_attr,
    signer_expr_attr,
};
use anchor_derive::handler::{described_handler, process_handler, read_le_word, HandlerIdl};
use anchor_derive::handler_fn::{FieldPat, FnArg, HandlerFn, Pat, PatStruct, SimplePat, TypedArg};
use anchor_derive::idl_type::derive_idl_type;
use anchor_derive::instruction_attrs::parse_instruction_attrs;
use anchor_derive::items::{Data, DeriveInput, Field, Fields, Variant};
use anchor_derive::json::{Json, Member};
use anchor_derive::lifetimes::{needs_ix_lifetime, with_ix_lifetime};
use anchor_derive::modes::{parse_account_mode, parse_event_mode, EventMode};
use anchor_derive::pod_fields::{diagnose_non_pod_event_field, diagnose_non_pod_field};
use anchor_derive::program::{
    event_authority_dispatch_check, impl_program, ModItem, ProgramModule,
};
use anchor_derive::program_config::{parse_program_config_tokens, ProgramConfig, ProgramMode};
use anchor_derive::qualified_path::{
    extract_context_accounts_path, extract_result_return_type, is_unit_type, QualifiedTypePath,
};
use anchor_derive::syntax::{
    print_path, print_type, AngleBracketed, GenericArgument, Ident, Inner, Lifetime, Path,
    PathArguments, PathSegment, QSelf, Type, TypePath, TypeReference, TypeTuple,
};
use anchor_derive::wincode::{find_unsupported_wincode_attr, unsupported_wincode_idl_attr_error};
use anchor_derive::wrappers::{
    __erase, anchor_deserialize, anchor_serialize, emit, emit_cpi, event_cpi, EventCpiStruct,
};
use quote::ToTokens;
use syn::parse::Parser;

const AT: Span = Span { start: 0, end: 0 };

// ---------------------------------------------------------------------------
// From syntax trees to values of the library
// ---------------------------------------------------------------------------

fn text<T: ToTokens>(tokens: &T) -> String {
    tokens.to_token_stream().to_string()
}

fn ident(name: &syn::Ident) -> Ident {
    Ident { text: name.to_string(), span: AT }
}

fn lifetime(name: &syn::Lifetime) -> Lifetime {
    Lifetime { name: name.ident.to_string(), span: AT }
}

fn argument(arg: &syn::GenericArgument) -> GenericArgument {
    match arg {
        syn::GenericArgument::Lifetime(name) => GenericArgument::Lifetime(lifetime(name)),
        syn::GenericArgument::Type(inner) => GenericArgument::Type(ty(inner)),
        other => GenericArgument::Other { tokens: text(other), span: AT },
    }
}

fn arguments(args: &syn::PathArguments) -> PathArguments {
    match args {
        syn::PathArguments::None => PathArguments::Absent,
        syn::PathArguments::AngleBracketed(angle) => {
            PathArguments::AngleBracketed(AngleBracketed {
                turbofish: angle.colon2_token.is_some(),
                args: angle.args.iter().map(argument).collect(),
                span: AT,
            })
        }
        syn::PathArguments::Parenthesized(paren) => {
            PathArguments::Parenthesized { tokens: text(paren), span: AT }
        }
    }
}

fn path(tree: &syn::Path) -> Path {
    Path {
        leading_colon: tree.leading_colon.is_some(),
        segments: tree
            .segments
            .iter()
            .map(|segment| PathSegment {
                ident: ident(&segment.ident),
                arguments: arguments(&segment.arguments),
                span: AT,
            })
            .collect(),
        span: AT,
    }
}

fn ty(tree: &syn::Type) -> Type {
    match tree {
        syn::Type::Path(named) => Type::Path(TypePath {
            qself: named
                .qself
                .as_ref()
                .map(|qself| QSelf { ty: Box::new(ty(&qself.ty)), position: qself.position }),
            path: path(&named.path),
            span: AT,
        }),
        syn::Type::Reference(reference) => Type::Reference(TypeReference {
            lifetime: reference.lifetime.as_ref().map(lifetime),
            mutable: reference.mutability.is_some(),
            elem: Box::new(ty(&reference.elem)),
            span: AT,
        }),
        syn::Type::Tuple(tuple) => {
            Type::Tuple(TypeTuple { elems: tuple.elems.iter().map(ty).collect(), span: AT })
        }
        syn::Type::Array(array) => Type::Array {
            elem: Box::new(ty(&array.elem)),
            len: text(&array.len),
            span: AT,
        },
        syn::Type::Slice(slice) => {
            Type::Slice(Inner { elem: Box::new(ty(&slice.elem)), span: AT })
        }
        syn::Type::Paren(paren) => {
            Type::Paren(Inner { elem: Box::new(ty(&paren.elem)), span: AT })
        }
        syn::Type::Group(group) => {
            Type::Group(Inner { elem: Box::new(ty(&group.elem)), span: AT })
        }
        syn::Type::Ptr(pointer) => Type::Pointer {
            mutable: pointer.mutability.is_some(),
            elem: Box::new(ty(&pointer.elem)),
            span: AT,
        },
        other => Type::Other { tokens: text(other), span: AT },
    }
}

fn tokens(stream: proc_macro2::TokenStream) -> Vec<Token> {
    let mut out = Vec::new();
    for tree in stream {
        let kind = match tree {
            proc_macro2::TokenTree::Ident(word) => TokenKind::Word(word.to_string()),
            proc_macro2::TokenTree::Punct(punct) => TokenKind::Punct {
                ch: punct.as_char(),
                joint: punct.spacing() == proc_macro2::Spacing::Joint,
            },
            proc_macro2::TokenTree::Literal(literal) => TokenKind::Literal(literal.to_string()),
            proc_macro2::TokenTree::Group(group) => {
                let delimiter = match group.delimiter() {
                    proc_macro2::Delimiter::Parenthesis => Delimiter::Paren,
                    proc_macro2::Delimiter::Brace => Delimiter::Brace,
                    proc_macro2::Delimiter::Bracket => Delimiter::Bracket,
                    proc_macro2::Delimiter::None => {
                        out.extend(tokens(group.stream()));
                        continue;
                    }
                };
                TokenKind::Group { delimiter, tokens: tokens(group.stream()), close: AT }
            }
        };
        out.push(Token { kind, span: AT });
    }
    out
}

/// Gives each token and bracket a place of its own, from 1 on in the order of the source.
fn number(tokens: &mut [Token], next: &mut usize) {
    let mut place = || {
        let span = Span { start: *next, end: *next };
        *next += 1;
        span
    };
    for token in tokens {
        token.span = place();
        if let TokenKind::Group { tokens: inner, close, .. } = &mut token.kind {
            let mut count = token.span.end + 1;
            number(inner, &mut count);
            *close = Span { start: count, end: count };
            while place() != *close {}
        }
    }
}

/// The tokens of a source, each at its number.
fn numbered(source: &str) -> Vec<Token> {
    let mut found = tokens(source.parse().unwrap());
    number(&mut found, &mut 1);
    found
}

/// Where a list of tokens ends.
const END: Span = Span { start: 900, end: 900 };

fn place(failure: &Failure) -> (usize, usize) {
    match failure {
        Failure::Diagnostic { span, .. } => (span.start, span.end),
        Failure::NotAnIdentifier(text) => panic!("`{text}` is no identifier"),
    }
}

fn digits(expr: &syn::Expr) -> Option<String> {
    match expr {
        syn::Expr::Lit(syn::ExprLit { lit: syn::Lit::Int(int), .. }) => {
            Some(int.base10_digits().to_owned())
        }
        _ => None,
    }
}

fn value(expr: &syn::Expr) -> Value {
    let kind = match expr {
        syn::Expr::Lit(syn::ExprLit { lit: syn::Lit::Str(string), .. }) => {
            ValueKind::Text(string.value())
        }
        syn::Expr::Lit(syn::ExprLit { lit: syn::Lit::Int(int), .. }) => {
            ValueKind::Integer(int.base10_digits().to_owned())
        }
        syn::Expr::Array(array) => ValueKind::Array(
            array
                .elems
                .iter()
                .map(|element| Element { digits: digits(element), span: AT })
                .collect(),
        ),
        _ => ValueKind::Other,
    };
    Value { kind, tokens: text(expr), span: AT }
}

fn attribute(attr: &syn::Attribute) -> Attribute {
    let meta = match &attr.meta {
        syn::Meta::Path(_) => Meta::Path,
        syn::Meta::List(list) => Meta::List { tokens: tokens(list.tokens.clone()), close: AT },
        syn::Meta::NameValue(pair) => Meta::NameValue { value: value(&pair.value), eq: AT },
    };
    Attribute {
        inner: matches!(attr.style, syn::AttrStyle::Inner(_)),
        path: text(attr.path()),
        path_span: AT,
        meta,
        tokens: text(attr),
        span: AT,
    }
}

fn attributes(attrs: &[syn::Attribute]) -> Vec<Attribute> {
    attrs.iter().map(attribute).collect()
}

fn simple_pat(pat: &syn::Pat) -> SimplePat {
    match pat {
        syn::Pat::Ident(named) => {
            SimplePat::Ident { ident: ident(&named.ident), tokens: text(named) }
        }
        syn::Pat::Wild(wild) => SimplePat::Wild { tokens: text(wild) },
        other => SimplePat::Other { tokens: text(other), span: AT },
    }
}

fn pat(tree: &syn::Pat) -> Pat {
    match tree {
        syn::Pat::Ident(named) => Pat::Ident { ident: ident(&named.ident), tokens: text(named) },
        syn::Pat::Wild(wild) => Pat::Wild { tokens: text(wild) },
        syn::Pat::Struct(fields) => Pat::Struct(PatStruct {
            head: text(&fields.path),
            fields: fields
                .fields
                .iter()
                .map(|field| FieldPat {
                    attrs: field.attrs.iter().map(text).collect(),
                    member: text(&field.member),
                    named: matches!(field.member, syn::Member::Named(_)),
                    colon: field.colon_token.is_some(),
                    pat: simple_pat(&field.pat),
                })
                .collect(),
            trailing: fields.fields.trailing_punct(),
            rest: fields.rest.as_ref().map(text),
        }),
        other => Pat::Other { tokens: text(other), span: AT },
    }
}

fn fn_arg(arg: &syn::FnArg) -> FnArg {
    match arg {
        syn::FnArg::Receiver(receiver) => FnArg::Receiver { tokens: text(receiver), span: AT },
        syn::FnArg::Typed(typed) => FnArg::Typed(TypedArg {
            attrs: typed.attrs.iter().map(text).collect(),
            pat: pat(&typed.pat),
            ty: ty(&typed.ty),
        }),
    }
}

fn handler(func: &syn::ItemFn) -> HandlerFn {
    HandlerFn {
        attrs: attributes(&func.attrs),
        public: matches!(func.vis, syn::Visibility::Public(_)),
        ident: ident(&func.sig.ident),
        head: format!("{} fn {} {}", text(&func.vis), func.sig.ident, text(&func.sig.generics)),
        inputs: func.sig.inputs.iter().map(fn_arg).collect(),
        output: match &func.sig.output {
            syn::ReturnType::Default => None,
            syn::ReturnType::Type(_, output) => Some(ty(output)),
        },
        tail: text(&func.sig.output),
        body: func.block.stmts.iter().map(text).collect::<Vec<_>>().join("\n"),
        tokens: text(func),
    }
}

fn module(source: &str) -> ProgramModule {
    let tree: syn::ItemMod = syn::parse_str(source).unwrap();
    ProgramModule {
        vis: text(&tree.vis),
        ident: ident(&tree.ident),
        items: tree.content.map(|(_, items)| {
            items
                .iter()
                .map(|item| match item {
                    syn::Item::Fn(func) => ModItem::Fn(handler(func)),
                    other => ModItem::Other(text(other)),
                })
                .collect()
        }),
    }
}

fn field(tree: &syn::Field) -> Field {
    Field {
        attrs: attributes(&tree.attrs),
        vis: text(&tree.vis),
        name: tree.ident.as_ref().map(ident),
        ty: ty(&tree.ty),
        span: AT,
    }
}

fn fields(tree: &syn::Fields) -> Fields {
    match tree {
        syn::Fields::Named(named) => Fields::Named(named.named.iter().map(field).collect()),
        syn::Fields::Unnamed(unnamed) => {
            Fields::Unnamed(unnamed.unnamed.iter().map(field).collect())
        }
        syn::Fields::Unit => Fields::Unit,
    }
}

fn derive_input(source: &str) -> DeriveInput {
    let tree: syn::DeriveInput = syn::parse_str(source).unwrap();
    let (impl_generics, ty_generics, where_clause) = tree.generics.split_for_impl();
    let (data, fields_text) = match &tree.data {
        syn::Data::Struct(data) => (Data::Struct(fields(&data.fields)), text(&data.fields)),
        syn::Data::Enum(data) => (
            Data::Enum(
                data.variants
                    .iter()
                    .map(|variant| Variant {
                        attrs: attributes(&variant.attrs),
                        fields: variant.fields.iter().map(field).collect(),
                    })
                    .collect(),
            ),
            String::new(),
        ),
        syn::Data::Union(_) => (Data::Union, String::new()),
    };
    DeriveInput {
        attrs: attributes(&tree.attrs),
        vis: text(&tree.vis),
        ident: ident(&tree.ident),
        impl_generics: text(&impl_generics),
        ty_generics: text(&ty_generics),
        where_clause: where_clause.map(text).unwrap_or_default(),
        data,
        fields_text,
        span: AT,
    }
}

fn program_config(source: &str) -> Result<ProgramConfig, Failure> {
    parse_program_config_tokens(&numbered(source), END)
}

/// An attribute with a list of tokens, each at its number.
fn list_attr(name: &str, source: &str) -> Attribute {
    let mut attr = attribute(&attribute_tree(&format!("#[{name}({source})]")));
    attr.meta = Meta::List { tokens: numbered(source), close: END };
    attr
}

fn instruction_attr(source: &str) -> Attribute {
    list_attr("instruction", source)
}

fn attribute_tree(source: &str) -> syn::Attribute {
    syn::Attribute::parse_outer.parse_str(source).unwrap().remove(0)
}

// ---------------------------------------------------------------------------
// From results of the library to tokens
// ---------------------------------------------------------------------------

const OPERATORS: [&str; 25] = [
    "<<=", ">>=", "...", "..=", "::", "->", "=>", "==", "!=", "<=", ">=", "&&", "||", "+=", "-=",
    "*=", "/=", "%=", "^=", "&=", "|=", "<<", ">>", "..", "'",
];

/// The tokens with marks joined only where they make up one operator.
fn spaced(stream: proc_macro2::TokenStream) -> proc_macro2::TokenStream {
    let trees: Vec<proc_macro2::TokenTree> = stream.into_iter().collect();
    let mut out: Vec<proc_macro2::TokenTree> = Vec::new();
    let mut i = 0;
    while i < trees.len() {
        match &trees[i] {
            proc_macro2::TokenTree::Group(group) => {
                let inner = spaced(group.stream());
                out.push(proc_macro2::Group::new(group.delimiter(), inner).into());
                i += 1;
            }
            proc_macro2::TokenTree::Punct(_) => {
                let mut run = String::new();
                let mut end = i;
                while let Some(proc_macro2::TokenTree::Punct(punct)) = trees.get(end) {
                    run.push(punct.as_char());
                    end += 1;
                    if punct.spacing() == proc_macro2::Spacing::Alone {
                        break;
                    }
                }
                let operator = OPERATORS.iter().find(|operator| run.starts_with(**operator));
                let taken = operator.map(|operator| operator.len()).unwrap_or(1);
                for (k, ch) in run.chars().take(taken).enumerate() {
                    let joint = k + 1 < taken || ch == '\'';
                    let spacing = if joint {
                        proc_macro2::Spacing::Joint
                    } else {
                        proc_macro2::Spacing::Alone
                    };
                    out.push(proc_macro2::Punct::new(ch, spacing).into());
                }
                i += taken;
            }
            other => {
                out.push(other.clone());
                i += 1;
            }
        }
    }
    out.into_iter().collect()
}

fn normal(code: &str) -> String {
    spaced(code.parse::<proc_macro2::TokenStream>().unwrap()).to_string()
}

fn message(failure: &Failure) -> String {
    match failure {
        Failure::Diagnostic { message, .. } => message.clone(),
        Failure::NotAnIdentifier(word) => panic!("not an identifier: {word}"),
    }
}

fn expanded(result: Result<String, Vec<Failure>>) -> String {
    match result {
        Ok(code) => normal(&code),
        Err(failures) => failures
            .iter()
            .map(|failure| syn::Error::new(proc_macro2::Span::call_site(), message(failure)))
            .map(|err| err.to_compile_error().to_string())
            .collect(),
    }
}

fn handler_idl() -> HandlerIdl {
    HandlerIdl {
        returns: String::from("\"()\""),
        docs: None,
        args: String::from("\"[]\""),
    }
}

/// A discriminator as JSON.
fn disc_json(bytes: &Vec<u8>) -> String {
    format!("{bytes:?}")
}

fn run_program(source: &str, mode: ProgramMode, program_id: &str) -> String {
    let module = module(source);
    let count = module
        .items
        .as_ref()
        .map(|items| {
            items
                .iter()
                .filter(|item| match item {
                    ModItem::Fn(func) => func.public,
                    ModItem::Other(_) => false,
                })
                .count()
        })
        .unwrap_or(0);
    let idl: Vec<HandlerIdl> = (0..count).map(|_| handler_idl()).collect();
    let config = ProgramConfig { mode, program_id: program_id.to_owned() };
    expanded(impl_program(&module, &config, &idl, &disc_json, &None))
}

fn string(value: &str) -> Json {
    Json::Text(value.to_owned())
}

fn object(members: Vec<(&str, Json)>) -> Json {
    Json::Object(
        members
            .into_iter()
            .map(|(key, value)| Member { key: key.to_owned(), value })
            .collect(),
    )
}

// ---------------------------------------------------------------------------
// Instruction arguments
// ---------------------------------------------------------------------------

#[test]
fn instruction_attrs_parse() {
    let attrs = vec![instruction_attr("first: u8, second: u16")];

    let parsed = parse_instruction_attrs(&attrs).unwrap();

    assert_eq!(parsed.len(), 2);
    assert_eq!(parsed[0].name.text, "first");
    assert_eq!(print_type(&parsed[0].ty), "u8");
    assert_eq!(parsed[1].name.text, "second");
    assert_eq!(print_type(&parsed[1].ty), "u16");
}

#[test]
fn instruction_attrs_rejects_malformed_entries() {
    let attrs = vec![instruction_attr("first: u8, malformed, second: u16")];

    let err = match parse_instruction_attrs(&attrs) {
        Ok(_) => panic!("malformed entries unexpectedly parsed"),
        Err(failure) => message(&failure),
    };

    assert!(err.contains("expected `:`"), "unexpected error: {err}");
}

#[test]
fn instruction_attrs_refuse_reserved_names() {
    let attrs = vec![instruction_attr("first: u8, __second: u16")];

    let err = match parse_instruction_attrs(&attrs) {
        Ok(_) => panic!("reserved name unexpectedly parsed"),
        Err(failure) => message(&failure),
    };

    assert_eq!(
        err,
        "instruction argument names beginning with `__` are reserved for generated code"
    );
}

#[test]
fn instruction_attrs_report_the_first_failure() {
    let flat = attribute(&attribute_tree("#[instruction]"));
    let attrs = vec![instruction_attr("first: u8"), flat, instruction_attr("__late: u8")];

    match parse_instruction_attrs(&attrs) {
        Ok(_) => panic!("an attribute without a list unexpectedly parsed"),
        Err(failure) => assert_eq!(
            message(&failure),
            "expected attribute arguments in parentheses: #[instruction(...)]"
        ),
    }
    let valued = vec![attribute(&attribute_tree("#[instruction = 1]"))];
    match parse_instruction_attrs(&valued) {
        Ok(_) => panic!("an attribute with a value unexpectedly parsed"),
        Err(failure) => {
            assert_eq!(message(&failure), "expected parentheses: #[instruction(...)]")
        }
    }
}

#[test]
fn instruction_attrs_are_read_across_attributes_and_types() {
    let attrs = vec![
        attribute(&attribute_tree("#[other(name: u8)]")),
        instruction_attr(
            "a: &[u8], b: Option<Args<'_>>, c: (&u8, [u16; 4]), d: <T as Tr<'a>>::Out, \
             e: *const u8, f: fn(u8) -> u8,",
        ),
        instruction_attr(""),
        instruction_attr("g: (u8)"),
    ];
    let parsed = parse_instruction_attrs(&attrs).unwrap();
    let found: Vec<(&str, String)> =
        parsed.iter().map(|arg| (arg.name.text.as_str(), normal(&print_type(&arg.ty)))).collect();
    assert_eq!(
        found,
        vec![
            ("a", normal("&[u8]")),
            ("b", normal("Option<Args<'_>>")),
            ("c", normal("(&u8, [u16; 4])")),
            ("d", normal("<T as Tr<'a>>::Out")),
            ("e", normal("*const u8")),
            ("f", normal("fn(u8) -> u8")),
            ("g", normal("(u8)")),
        ]
    );
    assert_eq!(parsed[0].name.span, Span { start: 1, end: 1 });
    let rewritten = with_ix_lifetime(&parsed[2].ty, &Lifetime { name: "ix".into(), span: AT });
    assert_eq!(normal(&print_type(&rewritten)), normal("(&'ix u8, [u16; 4])"));
}

#[test]
fn instruction_attrs_fail_at_the_token_that_is_wrong() {
    for (source, at, expected) in [
        ("first: u8, malformed, second: u16", (6, 6), "expected `:`"),
        ("first", (900, 900), "unexpected end of input, expected `:`"),
        ("a: u8 b: u8", (4, 4), "expected `,`"),
        ("a: Vec<(u8, =)>, b: u8", (8, 8), "expected one of"),
        ("a:", (900, 900), "unexpected end of input, expected one of"),
        ("a: u8, type: u8", (5, 5), "expected identifier, found keyword `type`"),
        ("1: u8", (1, 1), "expected identifier"),
        ("a: u8, __b: u8", (5, 5), "instruction argument names beginning with `__`"),
    ] {
        match parse_instruction_attrs(&vec![instruction_attr(source)]) {
            Ok(_) => panic!("`{source}` unexpectedly parsed"),
            Err(failure) => {
                let said = message(&failure);
                assert!(said.starts_with(expected), "{source}: {said}");
                assert_eq!(place(&failure), at, "{source}");
            }
        }
    }
}

// ---------------------------------------------------------------------------
// Handlers
// ---------------------------------------------------------------------------

#[test]
fn process_handler_emits_ixarg_fallback_for_missing_instruction_attr() {
    let func: syn::ItemFn = syn::parse_str(
        "pub fn do_it(ctx: &mut Context<MyAccounts>, amount: u64, step: u8) -> Result<()> {
            let _ = ctx;
            let _ = amount;
            let _ = step;
            Ok(())
        }",
    )
    .unwrap();

    let generated =
        process_handler(&handler(&func), "my_program", &None, "crate::ID", &handler_idl(), &disc_json)
            .unwrap();
    let wrapper = normal(&generated.wrapper);

    assert!(
        wrapper.contains("__AnchorIxArgCoerce"),
        "expected fallback coercion trait in wrapper: {wrapper}"
    );
    assert!(
        wrapper.contains(
            "impl < 'ix , __AnchorIxArgs > __AnchorIxArgCoerce < 'ix > for __AnchorIxArgs"
        ),
        "expected generic instruction-arg coercion impl in wrapper: {wrapper}"
    );
}

#[test]
fn clients_write_what_is_dispatched_on() {
    let func: syn::ItemFn = syn::parse_str(
        "pub fn initialize(ctx: &mut Context<MyAccounts>, amount: u64) -> Result<()> { Ok(()) }",
    )
    .unwrap();
    let generated = |discrim: &Option<Vec<u8>>| {
        process_handler(&handler(&func), "my_program", discrim, "crate::ID", &handler_idl(), &disc_json)
            .unwrap()
    };
    let bytes = [175u8, 175, 109, 31, 13, 152, 155, 237];
    let hashed = generated(&None);
    let word = format!("== {}u64", u64::from_le_bytes(bytes));
    assert!(normal(&hashed.dispatch_arm).contains(&word), "{}", hashed.dispatch_arm);
    assert!(normal(&hashed.dispatch_arm).contains("__ix_data_ptr . add (8) , __ix_data_len - 8"));
    assert!(normal(&hashed.instruction_struct).contains(
        "175u8 , 175u8 , 109u8 , 31u8 , 13u8 , 152u8 , 155u8 , 237u8"
    ));
    assert_eq!(read_le_word(&bytes.to_vec()), u64::from_le_bytes(bytes));
    let short = generated(&Some(vec![7]));
    assert!(normal(&short.dispatch_arm).contains("* __ix_data_ptr == 7u8"));
    assert!(normal(&short.instruction_struct).contains("7u8"));
    assert_eq!(normal(&generated(&Some(vec![1, 2])).dispatch_arm), "");
    // The interface description is made from the bytes that the code holds.
    assert_eq!(hashed.idl_disc, "[175, 175, 109, 31, 13, 152, 155, 237]");
    assert_eq!(short.idl_disc, "[7]");
    let told = described_handler(
        &handler(&func),
        "my_program",
        &Some(vec![7]),
        "crate::ID",
        &handler_idl(),
        "[seven]",
    );
    assert_eq!(told.unwrap().idl_disc, "[seven]");
}

#[test]
fn extract_context_accounts_path_preserves_qualified_segments() {
    let arg: syn::FnArg = syn::parse_str("ctx: &mut Context<shared::Inner>").unwrap();
    let arg = fn_arg(&arg);

    let accounts_path = match extract_context_accounts_path(&arg) {
        Ok(accounts_path) => accounts_path,
        Err(failure) => panic!("qualified context path should parse: {}", message(&failure)),
    };

    assert_eq!(normal(&print_path(accounts_path.path)), "shared :: Inner");
    assert_eq!(accounts_path.leaf_ident.text, "Inner");
}

#[test]
fn qualified_type_helper_module_path_tracks_original_scope() {
    let inner: syn::Type = syn::parse_str("crate::shared::Inner").unwrap();
    let inner = ty(&inner);
    let qualified =
        QualifiedTypePath::from_type(&inner).expect("qualified nested path should parse");
    let client_path = qualified.helper_module_path("__client_accounts_", 1).unwrap();
    let cpi_path = qualified.helper_module_path("__cpi_accounts_", 2).unwrap();

    assert_eq!(
        normal(&format!("{client_path}::Inner")),
        "crate :: shared :: __client_accounts_inner :: Inner"
    );
    assert_eq!(
        normal(&format!("{cpi_path}::Inner")),
        "crate :: shared :: __cpi_accounts_inner :: Inner"
    );
}

// ---------------------------------------------------------------------------
// Programs
// ---------------------------------------------------------------------------

#[test]
fn program_attrs_parse_interface_program_id() {
    let config = match program_config("interface, program_id = super::ID") {
        Ok(config) => config,
        Err(failure) => panic!("program attrs should parse: {}", message(&failure)),
    };

    assert!(config.mode == ProgramMode::Interface);
    assert_eq!(normal(&config.program_id), "super :: ID");
}

#[test]
fn program_attrs_reject_program_id_without_interface() {
    let err = match program_config("program_id = super::ID") {
        Ok(_) => panic!("program_id without interface unexpectedly parsed"),
        Err(failure) => message(&failure),
    };

    assert!(err.contains("only supported with"), "unexpected error: {err}");
}

#[test]
fn program_attrs_default_to_an_executable_program() {
    let config = match program_config("") {
        Ok(config) => config,
        Err(failure) => panic!("no attrs should parse: {}", message(&failure)),
    };

    assert!(config.mode == ProgramMode::Executable);
    assert_eq!(config.program_id, "crate::ID");
}

#[test]
fn program_attrs_refuse_a_second_program_id_and_other_arguments() {
    for (source, expected) in [
        (
            "interface, program_id = a::ID, program_id = b::ID",
            "duplicate `program_id`",
        ),
        (
            "executable",
            "unsupported `#[program]` argument; expected `interface` or `program_id = <expr>`",
        ),
        (
            "interface(x)",
            "unsupported `#[program]` argument; expected `interface` or `program_id = <expr>`",
        ),
    ] {
        match program_config(source) {
            Ok(_) => panic!("`{source}` unexpectedly parsed"),
            Err(failure) => assert_eq!(message(&failure), expected),
        }
    }
}

#[test]
fn program_attrs_fail_at_the_tokens_that_are_wrong() {
    for (source, at, expected) in [
        ("interface, program_id = a, program_id = b", (7, 7), "duplicate `program_id`"),
        ("interface, other(x, y)", (3, 8), "unsupported `#[program]` argument"),
        ("interface, a::program_id = b", (3, 8), "unsupported `#[program]` argument"),
        ("program_id = a", (1, 1), "`program_id` is only supported with"),
        ("interface program_id", (2, 2), "expected `,`"),
        ("interface, program_id =", (900, 900), "unexpected end of input"),
        ("interface, program_id = (1 +)", (8, 8), "unexpected end of input"),
        ("interface, 3", (3, 3), "expected identifier"),
        ("3, other", (1, 1), "expected identifier"),
    ] {
        match program_config(source) {
            Ok(_) => panic!("`{source}` unexpectedly parsed"),
            Err(failure) => {
                let said = message(&failure);
                assert!(said.starts_with(expected), "{source}: {said}");
                assert_eq!(place(&failure), at, "{source}");
            }
        }
    }
    let config = program_config("program_id = a::b(1, 2), interface,").unwrap();
    assert!(config.mode == ProgramMode::Interface);
    assert_eq!(normal(&config.program_id), normal("a::b(1, 2)"));
}

#[test]
fn program_interface_mode_emits_client_surface_only() {
    let generated = run_program(
        "pub mod external_program {
            use super::*;

            #[discrim = [1, 2, 3, 4]]
            pub fn do_it(ctx: &mut Context<MyAccounts>, amount: u64) -> Result<()> {
                let _ = (ctx, amount);
                unreachable!()
            }
        }",
        ProgramMode::Interface,
        "super :: ID",
    );

    assert!(
        generated.contains("pub mod instruction"),
        "expected instruction module: {generated}"
    );
    assert!(
        generated.contains("pub mod accounts"),
        "expected accounts module: {generated}"
    );
    assert!(generated.contains("pub mod cpi"), "expected cpi module: {generated}");
    assert!(
        generated.contains("super :: ID"),
        "expected custom program id in instruction builder: {generated}"
    );
    assert!(
        generated.contains("1u8") && generated.contains("2u8"),
        "expected explicit discriminator bytes in instruction builder: {generated}"
    );
    assert!(
        !generated.contains("__anchor_dispatch"),
        "interface mode must not emit executable dispatch: {generated}"
    );
    assert!(
        !generated.contains("default_allocator"),
        "interface mode must not emit entrypoint runtime: {generated}"
    );
}

#[test]
fn program_interface_mode_rejects_prefix_overlapping_discriminators() {
    let generated = run_program(
        "pub mod external_program {
            use super::*;

            #[discrim = [1]]
            pub fn short(_ctx: &mut Context<Short>) -> Result<()> {
                unreachable!()
            }

            #[discrim = [1, 2]]
            pub fn long(_ctx: &mut Context<Long>) -> Result<()> {
                unreachable!()
            }
        }",
        ProgramMode::Interface,
        "super :: ID",
    );

    assert!(
        generated.contains("Ambiguous discriminators for instructions"),
        "expected prefix-overlap rejection: {generated}"
    );
    assert!(
        generated
            .contains("`short` discriminator [1] is a prefix of `long` discriminator [1, 2]"),
        "expected targeted prefix diagnostic: {generated}"
    );
}

#[test]
fn program_handlers_inject_update_phase_into_handler_body() {
    let generated = run_program(
        "pub mod demo_program {
            use super::*;

            #[access_control(validate(&ctx))]
            pub fn rotate(ctx: &mut Context<RotateAuthority>) -> Result<()> {
                do_work()?;
                Ok(())
            }
        }",
        ProgramMode::Executable,
        "crate :: ID",
    );

    assert!(
        generated
            .contains("anchor_lang :: TryAccounts :: update_accounts (& mut ctx . accounts) ? ;"),
        "expected handler body to call update_accounts after access-control expansion, got: \
         {generated}"
    );
    assert!(
        generated.contains("access_control"),
        "expected access_control attr to remain on the generated handler, got: {generated}"
    );
}

#[test]
fn program_handlers_inject_update_phase_for_destructured_context() {
    let generated = run_program(
        "pub mod demo_program {
            use super::*;

            pub fn rotate(Context { accounts, .. }: &mut Context<RotateAuthority>) -> Result<()> {
                do_work(accounts)?;
                Ok(())
            }
        }",
        ProgramMode::Executable,
        "crate :: ID",
    );

    assert!(
        generated.contains("anchor_lang :: TryAccounts :: update_accounts (accounts) ? ;"),
        "expected destructured handler body to call update_accounts via accounts binding, got: \
         {generated}"
    );
}

#[test]
fn program_handlers_synthesize_accounts_binding_for_struct_context() {
    let generated = run_program(
        "pub mod demo_program {
            use super::*;

            pub fn rotate(Context { bumps, .. }: &mut Context<RotateAuthority>) -> Result<()> {
                do_work(bumps)?;
                Ok(())
            }
        }",
        ProgramMode::Executable,
        "crate :: ID",
    );

    assert!(
        generated
            .contains("anchor_lang :: TryAccounts :: update_accounts (__anchor_accounts) ? ;"),
        "expected struct-pattern handler body to call update_accounts via synthesized accounts \
         binding, got: {generated}"
    );
    assert!(
        generated.contains("Context { bumps , accounts : __anchor_accounts , .. }"),
        "expected struct-pattern handler signature to include synthesized accounts binding, got: \
         {generated}"
    );
}

#[test]
fn program_handlers_inject_update_phase_for_wildcard_context() {
    let generated = run_program(
        "pub mod demo_program {
            use super::*;

            pub fn rotate(_: &mut Context<RotateAuthority>) -> Result<()> {
                do_work()?;
                Ok(())
            }
        }",
        ProgramMode::Executable,
        "crate :: ID",
    );

    assert!(
        generated.contains(
            "anchor_lang :: TryAccounts :: update_accounts (& mut __anchor_ctx . accounts) ? ;"
        ),
        "expected wildcard handler body to call update_accounts via synthesized ctx binding, got: \
         {generated}"
    );
    assert!(
        generated.contains("fn rotate (__anchor_ctx : & mut Context < RotateAuthority >)"),
        "expected wildcard handler signature to be rewritten to a concrete ctx binding, got: \
         {generated}"
    );
}

#[test]
fn program_handlers_reject_unsupported_update_hook_context_patterns() {
    let generated = run_program(
        "pub mod demo_program {
            use super::*;

            pub fn rotate(
                Context { accounts: RotateAuthority { vault, .. }, .. }: &mut Context<RotateAuthority>
            ) -> Result<()> {
                do_work(vault)?;
                Ok(())
            }
        }",
        ProgramMode::Executable,
        "crate :: ID",
    );

    assert!(
        generated.contains("compile_error"),
        "expected unsupported nested accounts destructuring to emit a compile error, got: \
         {generated}"
    );
    assert!(
        generated.contains("must bind `accounts` as a name or `_`"),
        "expected targeted unsupported-pattern error, got: {generated}"
    );
}

#[test]
fn program_handlers_reject_non_binding_update_hook_context_patterns() {
    let generated = run_program(
        "pub mod demo_program {
            use super::*;

            pub fn rotate(
                &mut ctx: &mut Context<RotateAuthority>
            ) -> Result<()> {
                do_work(ctx.accounts.vault)?;
                Ok(())
            }
        }",
        ProgramMode::Executable,
        "crate :: ID",
    );

    assert!(
        generated.contains("compile_error"),
        "expected unsupported reference-pattern context to emit a compile error, got: {generated}"
    );
    assert!(
        generated.contains(
            "must take `&mut Context<T>` as an identifier like `ctx`, `_`, or `Context { .. }`"
        ),
        "expected targeted top-level pattern error, got: {generated}"
    );
}

#[test]
fn event_authority_dispatch_uses_precomputed_const_when_available() {
    let generated = normal(&event_authority_dispatch_check(&Some(vec![7; 32])));

    assert!(
        generated.contains("const __EXPECTED_EVENT_AUTHORITY"),
        "expected precomputed const path: {generated}"
    );
    assert!(
        generated.contains("Address :: new_from_array"),
        "expected embedded address bytes: {generated}"
    );
    assert!(
        !generated.contains("find_program_address"),
        "precomputed path should not call find_program_address: {generated}"
    );
}

#[test]
fn event_authority_dispatch_falls_back_to_runtime_find() {
    let generated = normal(&event_authority_dispatch_check(&None));

    assert!(
        generated.contains("find_program_address"),
        "fallback path should still derive the event authority at runtime: {generated}"
    );
    assert!(
        !generated.contains("const __EXPECTED_EVENT_AUTHORITY"),
        "fallback path should not emit the precomputed constant: {generated}"
    );
}

// ---------------------------------------------------------------------------
// Accounts
// ---------------------------------------------------------------------------

fn account_field(name: &str, source: &str, inner: Option<&str>) -> AccountField {
    let tree: syn::Type = syn::parse_str(source).unwrap();
    AccountField {
        name: Ident { text: name.to_owned(), span: AT },
        nested_inner: inner.map(|inner| {
            let tree: syn::Type = syn::parse_str(inner).unwrap();
            ty(&tree)
        }),
        base: ty(&tree),
        base_name: match &tree {
            syn::Type::Path(named) => named.path.segments.last().unwrap().ident.to_string(),
            _ => String::new(),
        },
        load: format!("let {name} = load();"),
        deferred_load: None,
        constraints: Vec::new(),
        update: None,
        exit: None,
        bump_cache: format!("__anchor_bump_cache_{name}"),
        has_bump: false,
        is_optional: false,
        contributes_mut_bit: false,
        contributes_active_mut_bit: false,
        idl_writable: false,
        idl_init_signer: false,
        idl_has_one: Vec::new(),
        idl_address_v1_source: None,
        idl_field_ty: Some(ty(&tree)),
        seeds: Seeds::Absent,
        seeds_program: None,
    }
}

fn readings(fields: Vec<AccountField>) -> AccountsReadings {
    AccountsReadings {
        summaries: Ok(Vec::new()),
        fields: Ok(fields),
        idl_accounts_fn: String::from("fn __idl_accounts() {}"),
    }
}

#[test]
fn nested_accounts_register_idl_deps_through_nested_wrapper() {
    let input = derive_input("pub struct Outer { pub nested: anchor_lang::Nested<Inner>, }");
    let read = readings(vec![account_field("nested", "anchor_lang::Nested<Inner>", Some("Inner"))]);

    let generated = match impl_accounts(&input, read) {
        Ok(code) => normal(&code),
        Err(failure) => panic!("nested accounts should expand: {}", message(&failure)),
    };

    assert!(
        generated.contains("< Inner > :: __idl_register_deps"),
        "nested accounts should forward IDL dep registration through the inner helper: {generated}"
    );
    assert!(
        !generated.contains(
            "< anchor_lang :: Nested < Inner > as anchor_lang :: IdlAccountType > :: \
             __register_idl_deps"
        ),
        "nested accounts should not require an IdlAccountType impl on Inner via Nested: \
         {generated}"
    );
}

#[test]
fn nested_accounts_keep_the_inner_bumps() {
    let input = derive_input(
        "pub struct Outer {
            pub authority: anchor_lang::accounts::UncheckedAccount,
            pub inner: anchor_lang::Nested<Inner>,
        }",
    );
    let read = readings(vec![
        account_field("authority", "anchor_lang::accounts::UncheckedAccount", None),
        account_field("inner", "anchor_lang::Nested<Inner>", Some("Inner")),
    ]);

    let generated = match impl_accounts(&input, read) {
        Ok(code) => normal(&code),
        Err(failure) => panic!("nested accounts should expand: {}", message(&failure)),
    };

    assert!(
        generated.contains("pub struct OuterBumps"),
        "expected outer bumps struct: {generated}"
    );
    assert!(
        generated.contains("pub inner : < Inner as anchor_lang :: Bumps > :: Bumps"),
        "expected nested field to retain the inner bumps type: {generated}"
    );
    assert!(
        generated.contains(
            "let mut __anchor_bump_cache_inner : < Inner as anchor_lang :: Bumps > :: Bumps ="
        ),
        "expected nested bump cache local declaration: {generated}"
    );
}

// ---------------------------------------------------------------------------
// Declared programs
// ---------------------------------------------------------------------------

#[test]
fn declare_program_array_lengths_accept_declared_generics_only() {
    let generic_tokens =
        declare_idl_array_len_to_tokens(&object(vec![("generic", string("N"))]), AT).unwrap();
    assert_eq!(normal(&generic_tokens), "N");

    let err = declare_idl_array_len_to_tokens(
        &object(vec![("generic", string("limits::ITEMS"))]),
        AT,
    )
    .unwrap_err();
    assert!(message(&err).contains("invalid IDL array generic"));
}

#[test]
fn declare_program_markers_emit_known_idl_addresses() {
    let bytes: Vec<Json> = (1..=8).map(Json::Number).collect();
    let idl = object(vec![
        ("address", string("Externa1111111111111111111111111111111111111")),
        (
            "metadata",
            object(vec![
                ("name", string("fixture")),
                ("version", string("0.1.0")),
                ("spec", string("0.1.0")),
            ]),
        ),
        (
            "instructions",
            Json::Array(vec![object(vec![
                ("name", string("ping")),
                ("discriminator", Json::Array(bytes)),
                ("accounts", Json::Array(Vec::new())),
                ("args", Json::Array(Vec::new())),
            ])]),
        ),
        ("accounts", Json::Array(Vec::new())),
        ("types", Json::Array(Vec::new())),
    ]);
    let name = Ident { text: String::from("fixture"), span: AT };

    let generated = match gen_declared_program(&name, &idl, "fixture.json", &Vec::new()) {
        Ok(code) => normal(&code),
        Err(failure) => panic!("fixture IDL should generate: {}", message(&failure)),
    };

    assert!(
        generated.contains(
            "const IDL_ADDRESS : & 'static str = \
             \"Externa1111111111111111111111111111111111111\""
        ),
        "declare_program markers should expose their known address for IDL emission: {generated}"
    );
}

#[test]
fn declare_idl_defined_pod_wrappers_use_runtime_types() {
    let defined = |name: &str| object(vec![("defined", object(vec![("name", string(name))]))]);
    let pod_u64 = declare_idl_type_to_tokens(&defined("PodU64"), AT).unwrap();
    assert_eq!(normal(&pod_u64), "anchor_lang :: pod :: PodU64");

    let pod_bool = declare_idl_type_to_tokens(&defined("PodBool"), AT).unwrap();
    assert_eq!(normal(&pod_bool), "anchor_lang :: pod :: PodBool");
}

// ---------------------------------------------------------------------------
// Types and lifetimes
// ---------------------------------------------------------------------------

fn parsed(source: &str) -> Type {
    let tree: syn::Type = syn::parse_str(source).unwrap();
    ty(&tree)
}

fn named(text: &str) -> Ident {
    Ident { text: text.to_owned(), span: AT }
}

fn same_tokens(code: &str, expected: &str) {
    assert_eq!(normal(code), normal(expected));
}

#[test]
fn types_print_as_they_are_written() {
    for source in [
        "u8",
        "::a::B<'x, C, 3>",
        "&'a mut [T]",
        "&str",
        "<T as Tr<u8>>::Out<'_>",
        "fn(u8) -> u8",
        "()",
        "Foo::<u8>",
        "dyn Fn(u8)",
    ] {
        same_tokens(&print_type(&parsed(source)), source);
    }
}

#[test]
fn the_instruction_lifetime_takes_the_place_of_others() {
    let ix = Lifetime { name: String::from("ix"), span: AT };
    for (source, expected, borrows) in [
        ("&[u8]", "&'ix [u8]", true),
        ("&'_ mut T", "&'ix mut T", true),
        ("&'static [u8]", "&'static [u8]", true),
        ("Args<'_>", "Args<'ix>", true),
        ("Args<'a, 'b, u8>", "Args<'ix, 'ix, u8>", true),
        ("Option<&[u8]>", "Option<&'ix [u8]>", true),
        ("Result<Args<'_>, E>", "Result<Args<'ix>, E>", true),
        ("Vec<u8>", "Vec<u8>", false),
        ("u64", "u64", false),
        ("(&[u8], u8)", "(&'ix [u8], u8)", false),
        ("(Args<'_>,)", "(Args<'ix>,)", false),
        ("[&u8; 2]", "[&'ix u8; 2]", false),
        ("&[&str]", "&'ix [&'ix str]", true),
        ("[Args<'a>]", "[Args<'ix>]", false),
        ("(&u8)", "(&'ix u8)", false),
        ("*const &u8", "*const &'ix u8", false),
        ("Option<(&u8, ())>", "Option<(&'ix u8, ())>", false),
        ("<&u8 as Tr<'_>>::Out", "<&'ix u8 as Tr<'ix>>::Out", true),
        ("fn(&u8) -> u8", "fn(&u8) -> u8", false),
    ] {
        let ty = parsed(source);
        assert_eq!(needs_ix_lifetime(&ty), borrows, "{source}");
        let once = with_ix_lifetime(&ty, &ix);
        same_tokens(&print_type(&once), expected);
        same_tokens(&print_type(&with_ix_lifetime(&once, &ix)), expected);
    }
}

#[test]
fn arguments_are_read_from_instruction_data() {
    let names = [named("data"), named("count")];
    let types = [parsed("&[u8]"), parsed("u8")];
    let args: Vec<Argument> =
        names.iter().zip(types.iter()).map(|(name, ty)| Argument { name, ty }).collect();
    let (texts, borrows) = args_meta(&args);
    assert!(borrows);
    same_tokens(&texts[0], "&'ix [u8]");
    same_tokens(&texts[1], "u8");
    let code = emit_args_deser(&args, "__Args", false).deser;
    let code = normal(&code);
    assert!(code.contains("struct __Args < 'ix >"), "{code}");
    assert!(code.contains("data : & 'ix [u8] ,"), "{code}");
    let (_, borrows) = args_meta(&args[1..].iter().map(|arg| Argument { name: arg.name, ty: arg.ty }).collect());
    assert!(!borrows);
    let pair = parsed("(&[u8], u8)");
    let code = emit_args_deser(&vec![Argument { name: &names[0], ty: &pair }], "__Args", true).deser;
    let code = normal(&code);
    assert!(code.contains("struct __Args < 'ix > { data : (& 'ix [u8] , u8) , }"), "{code}");
}

#[test]
fn unit_types_are_told_from_others() {
    assert!(is_unit_type(&parsed("()")));
    assert!(!is_unit_type(&parsed("u8")));
    assert!(!is_unit_type(&parsed("(u8,)")));
}

// ---------------------------------------------------------------------------
// Handler signatures
// ---------------------------------------------------------------------------

fn fail<T>(result: Result<T, Failure>) -> String {
    match result {
        Ok(_) => panic!("unexpectedly accepted"),
        Err(failure) => message(&failure),
    }
}

#[test]
fn handlers_return_a_result() {
    let value = |source: &str| {
        let output = Some(parsed(source));
        extract_result_return_type(&output).map(|value| value.map(print_type))
    };
    assert_eq!(value("Result<()>").unwrap(), None);
    assert_eq!(value("Result<u64>").unwrap(), Some(String::from("u64")));
    assert_eq!(value("anchor_lang::Result<u8>").unwrap(), Some(String::from("u8")));
    assert_eq!(fail(value("u64")), "handler return type must be `Result<T>`");
    assert_eq!(fail(value("&Result<u8>")), "handler return type must be `Result<T>`");
    assert_eq!(fail(value("Result")), "handler return type must be `Result<T>`");
    assert_eq!(fail(value("Result<'a>")), "handler return type must be `Result<T>`");
    assert!(extract_result_return_type(&None).unwrap().is_none());
}

#[test]
fn contexts_that_cannot_be_read_are_refused() {
    for (source, expected) in [
        ("&self", "first parameter must be `ctx: &mut Context<T>`"),
        ("ctx: Context<'_, '_, 'info, 'info, Buy<'info>>", "Anchor v2 handlers take"),
        ("ctx: Context<Buy>", "handler context must be passed by mutable reference"),
        ("ctx: u8", "first parameter must be `ctx: &mut Context<T>`"),
        ("ctx: &Context<Buy>", "handler context must be mutable"),
        ("ctx: &mut [u8]", "could not parse handler context"),
        ("ctx: &mut Other<Buy>", "first parameter must be `ctx: &mut Context<T>`"),
        ("ctx: &mut Context", "missing accounts type: expected `Context<YourAccountsStruct>`"),
        ("ctx: &mut Context<Buy, Sell>", "Anchor v2 `Context` takes exactly one accounts type."),
        ("ctx: &mut Context<(u8, u8)>", "Context generic must be an accounts struct type"),
        ("ctx: &mut Context<Buy<'info>>", "Anchor v2 account structs in handler contexts"),
    ] {
        let arg: syn::FnArg = syn::parse_str(source).unwrap();
        let arg = fn_arg(&arg);
        let found = fail(extract_context_accounts_path(&arg));
        assert!(found.starts_with(expected), "{source}: {found}");
    }
}

#[test]
fn a_refused_handler_reports_why() {
    let func: syn::ItemFn = syn::parse_str("pub fn f() -> Result<()> { Ok(()) }").unwrap();
    let generated =
        process_handler(&handler(&func), "m", &None, "crate::ID", &handler_idl(), &disc_json).unwrap();
    assert_eq!(
        message(&generated.error.unwrap()),
        "handler must have a `ctx: &mut Context<T>` parameter"
    );
}

// ---------------------------------------------------------------------------
// Executable programs
// ---------------------------------------------------------------------------

fn parses(code: &str) {
    if let Err(err) = syn::parse_file(code) {
        panic!("{err}: {code}");
    }
}

const TWO_HANDLERS: &str = "pub mod demo {
    use super::*;
    const LIMIT: u64 = 3;

    /// Docs.
    #[cfg(feature = \"x\")]
    pub fn first(ctx: &mut Context<shared::Pay>, amount: u64, data: &[u8]) -> Result<u64> {
        Ok(amount)
    }

    pub fn second(ctx: &mut Context<shared::Pay>) -> Result<()> {
        Ok(())
    }

    fn helper() {}
}";

#[test]
fn executable_programs_dispatch() {
    let generated = run_program(TWO_HANDLERS, ProgramMode::Executable, "crate::ID");
    parses(&generated);
    assert!(generated.contains("__anchor_dispatch"), "{generated}");
    assert!(generated.contains("fn helper () { }"), "{generated}");
    assert!(generated.contains("const LIMIT : u64 = 3 ;"), "{generated}");
    assert_eq!(generated.matches("__client_accounts_pay :: Pay ;").count(), 1, "{generated}");
    assert_eq!(generated.matches("__cpi_accounts_pay :: Pay ;").count(), 1, "{generated}");
    assert!(generated.contains("pub struct First < 'ix >"), "{generated}");
    assert!(generated.contains("pub struct Second"), "{generated}");
    let first = disc_json(&default_instruction_discriminator("first"));
    assert!(generated.contains(&format!("{first:?}")), "{first} {generated}");
    let check = generated.find("__event_authority").unwrap();
    let dispatch = generated.find("__handlers :: first").unwrap();
    assert!(check < dispatch, "{generated}");
}

#[test]
fn interfaces_parse_and_export_their_accounts_once() {
    let generated = run_program(TWO_HANDLERS, ProgramMode::Interface, "super::ID");
    parses(&generated);
    assert!(!generated.contains("__event_authority"), "{generated}");
    assert_eq!(generated.matches("__client_accounts_pay :: Pay ;").count(), 1, "{generated}");
}

#[test]
fn executable_bytes_are_given_to_all_and_differ() {
    let source = |first: &str, second: &str| {
        format!(
            "pub mod demo {{
                {first} pub fn first(ctx: &mut Context<A>) -> Result<()> {{ Ok(()) }}
                {second} pub fn second(ctx: &mut Context<B>) -> Result<()> {{ Ok(()) }}
            }}"
        )
    };
    let run = |first: &str, second: &str| {
        run_program(&source(first, second), ProgramMode::Executable, "crate::ID")
    };
    let good = run("#[discrim = 1]", "#[discrim = 2]");
    parses(&good);
    assert!(!good.contains("discrim ="), "{good}");
    assert!(run("#[discrim = 1]", "").contains("if any instruction in `#[program]` uses"));
    assert!(run("#[discrim = 1]", "#[discrim = [2, 3]]")
        .contains("executable `#[program]` custom discriminators must be one byte"));
    assert!(run("#[discrim = 1]", "#[discrim = 1]")
        .contains("duplicate `#[discrim = 1]` on instruction `second`"));
    parses(&run("#[cfg(a)] #[discrim = 1]", "#[cfg(not(a))] #[discrim = 1]"));
}

#[test]
fn a_module_without_a_body_is_refused() {
    assert!(run_program("pub mod demo;", ProgramMode::Executable, "crate::ID")
        .contains("`#[program]` module must have an inline body"));
}

#[test]
fn all_refused_handlers_are_reported() {
    let generated = run_program(
        "pub mod demo {
            pub fn first(ctx: &mut Context<A>) -> u8 { 1 }
            pub fn second() -> Result<()> { Ok(()) }
        }",
        ProgramMode::Executable,
        "crate::ID",
    );
    assert!(generated.contains("handler return type must be `Result<T>`"), "{generated}");
    assert!(generated.contains("handler must have a `ctx: &mut Context<T>` parameter"), "{generated}");
}

// ---------------------------------------------------------------------------
// Accounts structs
// ---------------------------------------------------------------------------

fn seed(root: Option<&str>, bytes: Option<&[u8]>) -> Seed {
    Seed { bytes: bytes.map(|bytes| bytes.to_vec()), root: root.map(|root| root.to_owned()) }
}

fn scope() -> Scope {
    Scope {
        fields: vec![String::from("payer"), String::from("vault"), String::from("token")],
        args: vec![String::from("amount")],
        program_id: String::from("crate::ID"),
    }
}

fn pda(name: &str, seeds: Vec<Seed>) -> AccountField {
    let mut field = account_field(name, "anchor_lang::accounts::UncheckedAccount", None);
    field.seeds = Seeds::Array(seeds);
    field.has_bump = true;
    field
}

const ACCOUNTS: &str = "pub struct Pay {
    pub payer: Signer,
    pub vault: anchor_lang::accounts::UncheckedAccount,
    pub token: Program<Token>,
}";

fn pay_fields() -> Vec<AccountField> {
    let mut payer = account_field("payer", "Signer", None);
    payer.contributes_mut_bit = true;
    payer.idl_writable = true;
    let vault = pda("vault", vec![seed(None, Some(b"v")), seed(Some("payer"), None)]);
    let token = account_field("token", "Program<Token>", None);
    vec![payer, vault, token]
}

#[test]
fn accounts_structs_expand() {
    let mut input = derive_input(ACCOUNTS);
    input.attrs.push(instruction_attr("amount: &[u8]"));
    let generated = impl_accounts(&input, readings(pay_fields())).unwrap();
    parses(&generated);
    let generated = normal(&generated);
    assert!(generated.contains("pub struct PayBumps { pub vault : u8 , }"), "{generated}");
    assert!(generated.contains("pub mod __client_accounts_pay"), "{generated}");
    assert!(generated.contains("pub mod __cpi_accounts_pay"), "{generated}");
    assert!(generated.contains("pub struct PayResolved { pub payer : anchor_lang :: Address , }"), "{generated}");
    assert!(generated.contains("mut_mask_set_bit (__mask , 0usize)"), "{generated}");
    let program = generated.find("let token").unwrap();
    let derived = generated.find("let (vault , _)").unwrap();
    assert!(program < derived, "{generated}");
}

#[test]
fn an_empty_accounts_struct_expands() {
    let generated = impl_accounts(&derive_input("pub struct Empty {}"), readings(Vec::new())).unwrap();
    parses(&generated);
    let generated = normal(&generated);
    assert!(generated.contains("PhantomData"), "{generated}");
    assert!(generated.contains("pub type EmptyBumps = () ;"), "{generated}");
}

#[test]
fn optional_and_nested_fields_expand() {
    let mut maybe = pda("maybe", vec![seed(None, Some(b"m"))]);
    maybe.is_optional = true;
    maybe.contributes_active_mut_bit = true;
    maybe.idl_writable = true;
    let inner = account_field("inner", "anchor_lang::Nested<a::Inner>", Some("a::Inner"));
    let generated = impl_accounts(
        &derive_input(
            "pub struct Outer { pub maybe: Option<UncheckedAccount>, pub inner: anchor_lang::Nested<a::Inner> }",
        ),
        readings(vec![maybe, inner]),
    )
    .unwrap();
    parses(&generated);
    let generated = normal(&generated);
    assert!(generated.contains("pub maybe : Option < u8 >"), "{generated}");
    assert!(generated.contains("a :: __client_accounts_inner :: Inner"), "{generated}");
    assert!(generated.contains("if self . maybe . is_some ()"), "{generated}");
    in_order(
        &generated,
        &[
            "pub mod __client_accounts_outer",
            "match self . maybe { Some (__addr) => __metas . push",
            "is_writable : true",
            "None => __metas . push",
            "is_writable : false , is_signer : false",
            "to_account_metas (& self . inner",
            "match maybe { Some (__addr) => __metas . push",
            "is_writable : true",
            "None => __metas . push",
            "is_writable : false , is_signer : false",
            "to_account_metas (inner",
        ],
    );
}

#[test]
fn accounts_structs_that_cannot_be_derived_are_refused() {
    for (source, expected) in [
        ("struct A(u8);", "`Accounts` derive only supports named fields"),
        ("struct A;", "`Accounts` derive only supports named fields"),
        ("enum A { B }", "`Accounts` derive only supports structs"),
        ("union A { b: u8 }", "`Accounts` derive only supports structs"),
        (
            "#[accounts_program_id(ID)] #[accounts_program_id(ID)] struct A {}",
            "duplicate `accounts_program_id` attribute",
        ),
    ] {
        assert_eq!(fail(impl_accounts(&derive_input(source), readings(Vec::new()))), expected);
    }
    let many: Vec<String> = (0..256).map(|n| format!("f{n}: u8")).collect();
    let source = format!("struct A {{ {} }}", many.join(", "));
    assert_eq!(
        fail(impl_accounts(&derive_input(&source), readings(Vec::new()))),
        "`Accounts` derive supports at most 255 fields"
    );
    let refused = |message: &str| Failure::Diagnostic { span: AT, message: message.to_owned() };
    let mut read = readings(Vec::new());
    read.summaries = Err(refused("summaries"));
    assert_eq!(
        fail(impl_accounts(&derive_input("#[instruction(a)] struct A {}"), read)),
        "unexpected end of input, expected `:`"
    );
    let mut read = readings(Vec::new());
    read.summaries = Err(refused("summaries"));
    read.fields = Err(refused("fields"));
    assert_eq!(fail(impl_accounts(&derive_input("struct A {}"), read)), "summaries");
    let mut read = readings(Vec::new());
    read.fields = Err(refused("fields"));
    assert_eq!(fail(impl_accounts(&derive_input("struct A {}"), read)), "fields");
}

#[test]
fn accounts_are_not_closed_in_chains() {
    let summary = |name: &str, close: Option<&str>| FieldSummary {
        name: named(name),
        close: close.map(named),
    };
    assert!(check_close_chains(&vec![summary("a", Some("b")), summary("b", None)]).is_ok());
    assert!(check_close_chains(&vec![summary("a", Some("elsewhere"))]).is_ok());
    let chain = vec![summary("a", Some("b")), summary("b", Some("c")), summary("c", None)];
    assert_eq!(
        fail(check_close_chains(&chain)),
        "close target `b` is also scheduled to close; close chains can revive an account that was \
         already closed"
    );
    let mut read = readings(Vec::new());
    read.summaries = Ok(chain);
    assert!(impl_accounts(&derive_input("struct A {}"), read).is_err());
}

#[test]
fn offsets_count_nested_accounts() {
    let inners = vec![None, Some(parsed("a::Inner")), None];
    assert_eq!(
        field_offsets(&inners),
        vec![
            String::from("0usize"),
            String::from("0usize + 1"),
            String::from("0usize + 1 + <a::Inner as anchor_lang::TryAccounts>::HEADER_SIZE"),
        ]
    );
}

#[test]
fn relations_stand_on_the_target() {
    let mut vault = account_field("vault", "V", None);
    vault.idl_has_one = vec![String::from("owner"), String::from("mint")];
    let mut owner = account_field("owner", "O", None);
    owner.idl_address_v1_source = Some(String::from("config"));
    let fields = vec![vault, owner];
    assert_eq!(
        account_relations(&fields, "owner"),
        vec![String::from("vault"), String::from("config")]
    );
    assert_eq!(account_relations(&fields, "mint"), vec![String::from("vault")]);
    assert!(account_relations(&fields, "vault").is_empty());
}

#[test]
fn clients_derive_what_they_can() {
    let kind = |field: &AccountField| match classify_field(field, &scope()) {
        FieldKind::Required => String::from("required"),
        FieldKind::Program(expr) => normal(&expr),
        FieldKind::Pda { deps, program_ref, .. } => format!("{} for {program_ref}", deps.join(",")),
    };
    assert_eq!(kind(&account_field("a", "Signer", None)), "required");
    assert_eq!(
        kind(&account_field("a", "Program<Token>", None)),
        "< Token as anchor_lang :: Id > :: id ()"
    );
    assert_eq!(
        kind(&pda("a", vec![seed(None, Some(b"x")), seed(Some("payer"), None)])),
        "payer for &crate::ID"
    );
    assert_eq!(kind(&pda("a", vec![seed(Some("amount"), None)])), "required");
    assert_eq!(kind(&pda("a", vec![seed(None, None)])), "required");
    let mut opaque = pda("a", Vec::new());
    opaque.seeds = Seeds::Opaque;
    assert_eq!(kind(&opaque), "required");
    let mut optional = pda("a", vec![seed(None, Some(b"x"))]);
    optional.is_optional = true;
    assert_eq!(kind(&optional), "required");
    let mut optional_program = account_field("a", "Program<Token>", None);
    optional_program.is_optional = true;
    assert_eq!(kind(&optional_program), "required");
    let program = |root: Option<&str>, has_macro: bool, references_local: bool| {
        let mut field = pda("a", vec![seed(Some("payer"), None)]);
        field.seeds_program = Some(SeedsProgram {
            tokens: String::from("other::ID"),
            root: root.map(|root| root.to_owned()),
            has_macro,
            references_local,
        });
        field
    };
    assert_eq!(kind(&program(None, false, false)), "payer for &other::ID");
    assert_eq!(kind(&program(Some("token"), false, false)), "payer,token for &token");
    assert_eq!(kind(&program(Some("payer"), false, false)), "payer for &payer");
    assert_eq!(kind(&program(Some("amount"), false, false)), "required");
    assert_eq!(kind(&program(None, true, false)), "required");
    assert_eq!(kind(&program(None, false, true)), "required");
}

#[test]
fn programs_are_derived_first_and_addresses_after_what_they_need() {
    let names: Vec<String> = ["late", "early", "program", "loop"].map(String::from).to_vec();
    let address = |deps: &[&str]| FieldKind::Pda {
        seed_exprs: Vec::new(),
        program_ref: String::new(),
        deps: deps.iter().map(|dep| (*dep).to_owned()).collect(),
    };
    let kinds = vec![
        address(&["early", "program"]),
        address(&["program"]),
        FieldKind::Program(String::from("p")),
        address(&["loop"]),
    ];
    assert_eq!(find_order(&names, &kinds), vec![2, 1, 0]);
}

#[test]
fn finders_take_what_the_seeds_refer_to() {
    let found = print_finder(&pda("vault", vec![seed(None, Some(b"v")), seed(Some("payer"), None)]), &scope())
        .unwrap()
        .unwrap();
    parses(&found);
    assert!(normal(&found).contains("payer : & anchor_lang :: Address"), "{found}");
    assert!(print_finder(&account_field("a", "Signer", None), &scope()).unwrap().is_none());
}

#[test]
fn signers_follow_the_type_of_a_field() {
    let field = account_field("payer", "Signer", None);
    same_tokens(
        &cpi_meta_signer_expr(&field),
        "<Signer as anchor_lang::AnchorAccount>::IS_SIGNER || false",
    );
    assert!(normal(&client_meta_signer_expr(&field)).contains("IS_SIGNER || false"));
    let mut plain = account_field("payer", "Signer", None);
    plain.idl_field_ty = None;
    plain.idl_init_signer = true;
    assert!(normal(&cpi_meta_signer_expr(&plain)).contains("true"));
}

#[test]
fn nested_clients_stand_beside_the_nested_struct() {
    same_tokens(
        &nested_client_accounts_type(&parsed("shared::Inner")).unwrap(),
        "super::shared::__client_accounts_inner::Inner",
    );
}

// ---------------------------------------------------------------------------
// Attributes of accounts structs and their fields
// ---------------------------------------------------------------------------

fn first_field(source: &str) -> Field {
    match derive_input(source).data {
        Data::Struct(Fields::Named(mut fields)) => fields.remove(0),
        _ => panic!("no named fields"),
    }
}

#[test]
fn the_program_of_accounts_can_be_given() {
    let expr = |source: &str| accounts_program_id_expr(&derive_input(source).attrs);
    let parsed = |source: &str| parse_accounts_program_id_attr(&derive_input(source).attrs);
    assert_eq!(normal(&expr("struct A {}").unwrap()), "crate :: ID");
    assert_eq!(normal(&expr("#[accounts_program_id(super::ID)] struct A {}").unwrap()), "super :: ID");
    assert_eq!(normal(&parsed("#[accounts_program_id(super::ID)] struct A {}").unwrap()), "super :: ID");
    assert!(expr("#[accounts_program_id = 3] struct A {}").is_err());
    assert!(parsed("#[accounts_program_id] struct A {}").is_err());
    assert!(parsed("#[accounts_program_id(a b)] struct A {}").is_err());
}

#[test]
fn signer_attributes_hold_an_expression() {
    let signer = |source: &str| signer_expr_attr(&first_field(source));
    let plain = signer("struct A { a: u8 }").unwrap();
    assert!(!plain.present);
    let marked = signer("struct A { #[signer] a: u8 }").unwrap();
    assert!(marked.present);
    assert_eq!(marked.expr, "true");
    let given = signer("struct A { #[signer(x || y)] a: u8 }").unwrap();
    assert_eq!(normal(&given.expr), "x || y");
    assert_eq!(fail(signer("struct A { #[signer] #[signer] a: u8 }")), "duplicate #[signer] attribute");
    assert_eq!(signer("struct A { #[signer = flag] a: u8 }").unwrap().expr, "flag");
    assert!(signer("struct A { #[signer(a b)] a: u8 }").is_err());
}

/// Checks what a failure says and where.
fn fails_at(found: Result<(), Failure>, source: &str, at: (usize, usize), expected: &str) {
    match found {
        Ok(()) => panic!("`{source}` unexpectedly accepted"),
        Err(failure) => {
            let said = message(&failure);
            assert!(said.starts_with(expected), "{source}: {said}");
            assert_eq!(place(&failure), at, "{source}");
        }
    }
}

#[test]
fn expressions_in_attributes_fail_at_the_token_that_is_wrong() {
    for (source, at, expected) in [
        ("a b", (2, 2), "unexpected token"),
        ("(1 +)", (4, 4), "unexpected end of input"),
        ("é + [ü, =]", (6, 6), "expected an expression"),
    ] {
        let attrs = vec![list_attr("accounts_program_id", source)];
        fails_at(accounts_program_id_expr(&attrs).map(|_| ()), source, at, expected);
        fails_at(parse_accounts_program_id_attr(&attrs).map(|_| ()), source, at, expected);
        let mut field = first_field("struct A { a: u8 }");
        field.attrs = vec![list_attr("signer", source)];
        fails_at(signer_expr_attr(&field).map(|_| ()), source, at, expected);
    }
    // At its end the one points to the closing bracket, the other to the macro.
    let attrs = vec![list_attr("accounts_program_id", "a +")];
    let found = accounts_program_id_expr(&attrs).map(|_| ());
    fails_at(found, "a +", (900, 900), "unexpected end of input");
    let mut field = first_field("struct A { a: u8 }");
    field.attrs = vec![list_attr("signer", "a +")];
    fails_at(signer_expr_attr(&field).map(|_| ()), "a +", (0, 0), "unexpected end of input");
}

#[test]
fn options_fail_at_the_token_that_is_wrong() {
    for (source, at, expected) in [
        ("skip, other", (3, 3), "unsupported account_meta option"),
        ("skip, skip", (3, 3), "duplicate account_meta skip"),
        ("skip skip", (2, 2), "expected `,`"),
        ("skip, 3", (3, 3), "unexpected literal in nested attribute, expected ident"),
        ("skip = 3", (2, 2), "expected `,`"),
    ] {
        let mut field = first_field("struct A { a: u8 }");
        field.attrs = vec![list_attr("account_meta", source)];
        fails_at(account_meta_attrs(&field).map(|_| ()), source, at, expected);
    }
    for (source, at, expected) in [
        ("other = 3", (2, 2), "expected `,`"),
        ("with =", (900, 900), "unexpected end of input"),
        ("with = (1 +)", (6, 6), "unexpected end of input"),
        ("with = x, 3", (5, 5), "unexpected literal in nested attribute, expected ident"),
        ("skip(a b)", (4, 4), "expected `,`"),
    ] {
        let attrs = vec![list_attr("wincode", source)];
        let found = find_unsupported_wincode_attr(&attrs).map(|_| ());
        fails_at(found, source, at, expected);
    }
}

#[test]
fn nested_attributes_hold_nothing() {
    let nested = |source: &str| has_nested_attr(&first_field(source));
    assert!(!nested("struct A { a: u8 }").unwrap());
    assert!(nested("struct A { #[nested] a: u8 }").unwrap());
    assert_eq!(fail(nested("struct A { #[nested] #[nested] a: u8 }")), "duplicate #[nested] attribute");
    assert_eq!(fail(nested("struct A { #[nested(x)] a: u8 }")), "expected #[nested]");
}

#[test]
fn account_meta_attributes_hold_known_options() {
    let meta = |source: &str| account_meta_attrs(&first_field(source));
    let none = meta("struct A { a: u8 }").unwrap();
    assert!(!none.skip && !none.duplicate_readonly);
    assert!(meta("struct A { #[account_meta(skip)] a: u8 }").unwrap().skip);
    assert!(meta("struct A { #[account_meta(duplicate_readonly)] a: u8 }").unwrap().duplicate_readonly);
    for (source, expected) in [
        ("struct A { #[account_meta] a: u8 }", "expected #[account_meta(skip)]"),
        ("struct A { #[account_meta(skip, skip)] a: u8 }", "duplicate account_meta skip"),
        (
            "struct A { #[account_meta(duplicate_readonly, duplicate_readonly)] a: u8 }",
            "duplicate account_meta duplicate_readonly",
        ),
        ("struct A { #[account_meta(other)] a: u8 }", "unsupported account_meta option"),
        ("struct A { #[account_meta(3)] a: u8 }", "unexpected literal in nested attribute, expected ident"),
        ("struct A { #[account_meta(+)] a: u8 }", "unexpected token in nested attribute, expected ident"),
    ] {
        let found = fail(meta(source));
        assert!(found.starts_with(expected), "{source}: {found}");
    }
    assert_eq!(
        fail(meta("struct A { #[account_meta(skip, duplicate_readonly)] a: u8 }")),
        "#[account_meta(skip)] cannot be combined with #[account_meta(duplicate_readonly)]"
    );
}

// ---------------------------------------------------------------------------
// Accounts of calls to other programs
// ---------------------------------------------------------------------------

#[test]
fn call_accounts_expand() {
    let generated = impl_to_cpi_accounts(&derive_input(
        "pub struct Call<'a> {
            pub payer: CpiHandleMut<'a>,
            #[signer(true)] pub owner: CpiHandle<'a>,
            pub maybe: Option<CpiHandle<'a>>,
            #[nested] pub inner: Inner<'a>,
            #[account_meta(skip)] pub hidden: CpiHandle<'a>,
        }",
    ))
    .unwrap();
    parses(&generated);
    let generated = normal(&generated);
    assert!(generated.contains("impl < 'a > anchor_lang :: ToCpiAccounts < 'a > for Call < 'a >"), "{generated}");
}

/// Where the texts stand in the code, which must be in this order.
fn in_order(code: &str, parts: &[&str]) {
    let mut from = 0;
    for part in parts {
        match code[from..].find(part) {
            Some(at) => from += at + part.len(),
            None => panic!("no `{part}` from {from} on in {code}"),
        }
    }
}

#[test]
fn metas_handles_and_flags_are_listed_for_the_same_accounts() {
    let generated = impl_to_cpi_accounts(&derive_input(
        "pub struct Call<'a> {
            #[account_meta(duplicate_readonly)] pub payer: CpiHandleMut<'a>,
            pub maybe: Option<CpiHandle<'a>>,
            #[account_meta(skip)] pub hidden: CpiHandle<'a>,
            pub marker: PhantomData<&'a ()>,
            #[nested] pub inner: Inner<'a>,
        }",
    ))
    .unwrap();
    let generated = normal(&generated);
    in_order(
        &generated,
        &[
            "fn to_instruction_accounts",
            "self . payer . address () , false , false",
            "self . payer . address () , true , false",
            "match self . maybe",
            "None => { __accounts . push",
            "InstructionAccount :: readonly",
            "to_instruction_accounts (& self . inner)",
            "fn to_cpi_handles",
            "self . payer . into_readonly ()",
            "self . payer . into ()",
            "Some (__account) = self . maybe",
            "to_cpi_handles (& self . inner)",
            "fn optional_account_sentinel_flags",
            "__flags . push (false)",
            "__flags . push (false)",
            "__flags . push (self . maybe . is_none ())",
            "optional_account_sentinel_flags (& self . inner)",
        ],
    );
    assert!(!generated.contains("self . hidden") && !generated.contains("self . marker"));
}

#[test]
fn kinds_of_call_accounts_follow_their_types() {
    let kind = |source: &str, nested: bool| {
        let ty = parsed(source);
        cpi_field_kind(&ty, nested).map(|(kind, lifetime)| (kind, lifetime.name.clone()))
    };
    assert!(matches!(kind("CpiHandle<'a>", false), Ok((CpiFieldKind::Readonly, _))));
    assert!(matches!(kind("a::CpiHandleMut<'a>", false), Ok((CpiFieldKind::Writable, _))));
    assert!(matches!(kind("Option<CpiHandle<'a>>", false), Ok((CpiFieldKind::OptionalReadonly, _))));
    assert!(matches!(kind("Option<CpiHandleMut<'a>>", false), Ok((CpiFieldKind::OptionalWritable, _))));
    assert!(matches!(kind("Inner<'b>", true), Ok((CpiFieldKind::Nested, _))));
    assert!(matches!(kind("PhantomData<&'a ()>", false), Ok((CpiFieldKind::Phantom, _))));
    assert_eq!(kind("CpiHandle<'b>", false).unwrap().1, "b");
    assert_eq!(fail(kind("Option<Inner<'a>>", true)), "#[nested] fields cannot be wrapped in Option");
    assert!(kind("u8", false).is_err());
    assert!(kind("Inner", true).is_err());
}

#[test]
fn call_accounts_that_cannot_be_derived_are_refused() {
    for (source, expected) in [
        ("enum A { B }", "ToCpiAccounts can only be derived for structs"),
        ("struct A(u8);", "ToCpiAccounts can only be derived for structs with named fields"),
        (
            "struct A<'a> { a: CpiHandle<'a>, b: CpiHandle<'b> }",
            "all CpiHandle and CpiHandleMut fields must use the same lifetime",
        ),
        (
            "struct A {}",
            "ToCpiAccounts requires at least one CpiHandle or CpiHandleMut field",
        ),
        (
            "struct A<'a> { #[signer(true)] a: PhantomData<&'a ()> }",
            "PhantomData fields cannot be combined with #[signer]",
        ),
        (
            "struct A<'a> { #[nested] #[signer(true)] a: B<'a> }",
            "#[nested] cannot be combined with #[signer]",
        ),
        (
            "struct A<'a> { #[account_meta(skip)] #[signer(true)] a: CpiHandle<'a> }",
            "#[account_meta(skip)] cannot be combined with #[signer]",
        ),
        (
            "struct A<'a> { #[account_meta(skip)] #[nested] a: B<'a> }",
            "#[account_meta(skip)] cannot be combined with #[nested]",
        ),
        (
            "struct A<'a> { #[account_meta(duplicate_readonly)] a: Option<CpiHandle<'a>> }",
            "#[account_meta(duplicate_readonly)] requires a direct CpiHandle or",
        ),
    ] {
        let found = fail(impl_to_cpi_accounts(&derive_input(source)));
        assert!(found.starts_with(expected), "{source}: {found}");
    }
}

// ---------------------------------------------------------------------------
// Accounts
// ---------------------------------------------------------------------------

fn mode(source: &str) -> Vec<Token> {
    tokens(source.parse::<proc_macro2::TokenStream>().unwrap())
}

fn entry(name: &String, bytes: &Vec<u8>) -> Option<String> {
    Some(format!("{name}{bytes:?}"))
}

fn account_idl() -> AccountIdl {
    AccountIdl {
        repr: Ok(()),
        type_def: String::from("None"),
    }
}

fn expand_account(attr: &str, source: &str) -> Result<Expansion, Failure> {
    account(&mode(attr), &derive_input(source), account_idl(), &entry)
}

#[test]
fn accounts_are_bytes_unless_they_say_otherwise() {
    let pod = expand_account("", "/// Doc\npub struct A { #[cfg(x)] pub a: u64, b: Inner }").unwrap();
    parses(&pod.code);
    assert!(pod.gated.is_empty());
    let code = normal(&pod.code);
    assert!(code.contains("# [repr (C)]"), "{code}");
    assert!(code.contains("unsafe impl anchor_lang :: bytemuck :: Pod for A"), "{code}");
    let borsh = expand_account("borsh", "pub struct A { pub a: Vec<u8> }").unwrap();
    parses(&borsh.code);
    assert!(borsh.gated.is_empty());
    assert!(!borsh.code.contains("bytemuck"), "{}", borsh.code);
    for code in [&pod.code, &borsh.code] {
        assert!(
            normal(code).contains(
                "& [220u8 , 250u8 , 253u8 , 102u8 , 246u8 , 28u8 , 104u8 , 176u8]"
            ),
            "{code}"
        );
    }
}

#[test]
fn entries_are_made_from_the_bytes_that_accounts_hold() {
    let bytes = hashed_discriminator("account", "A");
    let found = expand_account("", "struct A { a: u8 }").unwrap();
    assert!(found.code.contains(&format!("Some(\"A{bytes:?}\")")), "{}", found.code);
    let input = derive_input("struct A { a: u8 }");
    let none = described_account(&mode(""), &input, account_idl(), &None).unwrap();
    assert!(!none.code.contains("Some(\"A"), "{}", none.code);
}

#[test]
fn fields_that_are_not_bytes_are_reported() {
    let pod = expand_account("", "struct A { #[cfg(x)] a: Vec<u8>, b: u8, c: Option<u8> }").unwrap();
    assert_eq!(pod.gated.len(), 2);
    assert_eq!(normal(&pod.gated[0].cfg), "# [cfg (x)]");
    assert!(message(&pod.gated[0].failure).starts_with("field `a` on `#[account] struct A` uses `Vec`"));
    assert_eq!(pod.gated[1].cfg, "");
}

#[test]
fn messages_on_fields_of_accounts_never_suggest_borsh() {
    for (source, known) in [
        ("Vec<u8>", true),
        ("String", true),
        ("Option<u8>", true),
        ("Box<u8>", true),
        ("std::rc::Rc<u8>", true),
        ("Arc<u8>", true),
        ("bool", true),
        ("u64", false),
        ("&u8", false),
        ("HashMap<u8, u8>", false),
    ] {
        let found = diagnose_non_pod_field(&parsed(source), "field", "Owner");
        assert_eq!(found.is_some(), known, "{source}");
        if let Some(message) = found {
            assert!(!message.contains("borsh"), "{message}");
            assert!(message.contains("`field`") && message.contains("Owner"), "{message}");
        }
    }
}

#[test]
fn messages_on_fields_of_events_lead_to_the_default_mode() {
    for (source, known) in [
        ("Vec<u8>", true),
        ("String", true),
        ("Option<u8>", true),
        ("Box<u8>", true),
        ("Cow<u8>", true),
        ("HashMap<u8, u8>", true),
        ("BTreeSet<u8>", true),
        ("bool", true),
        ("u64", false),
        ("[u8; 3]", false),
    ] {
        let found = diagnose_non_pod_event_field(&parsed(source), "field");
        assert_eq!(found.is_some(), known, "{source}");
        if let Some(message) = found {
            assert!(message.contains("`bytemuck` attribute to use the default wincode encoding"), "{message}");
        }
    }
}

#[test]
fn modes_are_single_words() {
    assert!(!parse_account_mode(&mode("")).unwrap());
    assert!(parse_account_mode(&mode("borsh")).unwrap());
    assert!(fail(parse_account_mode(&mode("json"))).starts_with("unknown `#[account]` mode"));
    assert!(parse_account_mode(&mode("borsh, borsh")).is_err());
    assert!(parse_event_mode(&mode("")).unwrap() == EventMode::Wincode);
    assert!(parse_event_mode(&mode("bytemuck")).unwrap() == EventMode::Bytemuck);
    assert!(fail(parse_event_mode(&mode("borsh"))).starts_with("unknown `#[event]` mode"));
    assert!(parse_event_mode(&mode("3")).is_err());
}

#[test]
fn accounts_that_cannot_be_expanded_are_refused() {
    assert_eq!(
        fail(expand_account("", "enum A { B }")),
        "`#[account]` only supports structs"
    );
    assert!(expand_account("json", "struct A { a: u8 }").is_err());
    let mut idl = account_idl();
    idl.repr = Err(Failure::Diagnostic { span: AT, message: String::from("layout") });
    assert_eq!(fail(account(&mode(""), &derive_input("struct A { a: u8 }"), idl, &entry)), "layout");
    let mut idl = account_idl();
    idl.repr = Err(Failure::Diagnostic { span: AT, message: String::from("layout") });
    assert!(account(&mode("borsh"), &derive_input("struct A { a: u8 }"), idl, &entry).is_ok());
}

// ---------------------------------------------------------------------------
// Events
// ---------------------------------------------------------------------------

fn event_idl() -> EventIdl {
    EventIdl { repr: Ok(()), type_def: String::from("None") }
}

#[test]
fn both_modes_of_events_share_the_discriminator() {
    let source = "pub struct Moved { pub a: u64, b: Inner }";
    let wincode = event(&mode(""), &derive_input(source), event_idl(), &disc_json).unwrap();
    let bytemuck = event(&mode("bytemuck"), &derive_input(source), event_idl(), &disc_json).unwrap();
    let part = |code: &str| -> String {
        let code = normal(code);
        let start = code.find("const DISCRIMINATOR").unwrap();
        code[start..].split(';').next().unwrap().to_owned()
    };
    parses(&wincode.code);
    parses(&bytemuck.code);
    assert_eq!(part(&wincode.code), part(&bytemuck.code));
    assert!(part(&wincode.code)
        .contains("[114u8 , 50u8 , 71u8 , 164u8 , 81u8 , 115u8 , 48u8 , 128u8]"));
    for code in [&wincode.code, &bytemuck.code] {
        assert!(code.contains("[114, 50, 71, 164, 81, 115, 48, 128]"), "{code}");
    }
    let told = described_event(&mode(""), &derive_input(source), event_idl(), "[told]").unwrap();
    assert!(told.code.contains("[told]"));
    assert!(normal(&bytemuck.code).contains("# [repr (C)]"));
    assert!(!normal(&wincode.code).contains("# [repr (C)]"));
    assert!(normal(&wincode.code).contains("fn __anchor_private_print_idl_event_moved ()"));
    in_order(
        &normal(&wincode.code),
        &["fn data", "buf . extend_from_slice (disc)", "serialize_into (& mut buf , self"],
    );
    in_order(
        &normal(&bytemuck.code),
        &[
            "fn data",
            "buf . extend_from_slice (disc)",
            "let start = buf . len ()",
            "buf . resize (start + SIZE , 0)",
            "buf . as_mut_ptr () . add (start) , SIZE",
        ],
    );
}

#[test]
fn events_are_structs() {
    assert_eq!(
        fail(event(&mode(""), &derive_input("enum A { B }"), event_idl(), &disc_json)),
        "`#[event]` only supports structs"
    );
    let mut idl = event_idl();
    idl.repr = Err(Failure::Diagnostic { span: AT, message: String::from("layout") });
    assert_eq!(fail(event(&mode("bytemuck"), &derive_input("struct A { a: u8 }"), idl, &disc_json)), "layout");
}

#[test]
fn events_report_overridden_encodings() {
    let expansion =
        event(&mode(""), &derive_input("struct A { #[wincode(skip)] a: u8, #[cfg(x)] #[wincode(with = \"b\")] c: u8 }"), event_idl(), &disc_json)
            .unwrap();
    assert_eq!(expansion.gated.len(), 2);
    assert!(message(&expansion.gated[0].failure)
        .starts_with("`#[event]` does not support `#[wincode(skip)]` fields"));
    assert!(message(&expansion.gated[1].failure)
        .starts_with("`#[event]` does not support `#[wincode(with = ...)]` fields"));
    assert_eq!(normal(&expansion.gated[1].cfg), "# [cfg (x)]");
}

// ---------------------------------------------------------------------------
// Described types
// ---------------------------------------------------------------------------

#[test]
fn structs_and_enums_describe_themselves() {
    let one = derive_idl_type(
        &derive_input("struct Foo<'a, T: Copy> where T: Clone { a: &'a [T], #[cfg(x)] b: u8 }"),
        "Some(\"{}\")",
    )
    .unwrap();
    parses(&one.code);
    let code = normal(&one.code);
    assert!(
        code.contains("impl < 'a , T : Copy > anchor_lang :: IdlAccountType for Foo < 'a , T > where T : Clone"),
        "{code}"
    );
    assert!(!code.contains("Discriminator") && !code.contains("Owner"), "{code}");
    let many =
        derive_idl_type(&derive_input("enum Kind { Spot, Futures(u64), Margin { leverage: u8 } }"), "None")
            .unwrap();
    parses(&many.code);
    assert!(normal(&many.code).contains("u64") && normal(&many.code).contains("u8"));
    assert!(fail(derive_idl_type(&derive_input("union A { b: u8 }"), "None"))
        .starts_with("`#[derive(IdlType)]` does not support unions"));
}

#[test]
fn overridden_encodings_are_found() {
    let found = |source: &str| {
        unsupported_wincode_idl_attr_error("`#[derive(IdlType)]`", &derive_input(source).attrs)
            .map(|failure| message(&failure))
    };
    assert_eq!(found("struct A;"), None);
    assert_eq!(found("#[wincode(other)] struct A;"), None);
    assert_eq!(found("#[wincode(other = 3)] struct A;").unwrap(), "expected `,`");
    assert!(found("#[wincode(skip = 3)] struct A;").unwrap().contains("`#[wincode(skip)]`"));
    assert!(found("#[wincode(skip(default))] struct A;").unwrap().contains("`#[wincode(skip)]`"));
    assert!(found("#[wincode(tag_encoding = \"u32\")] struct A;").unwrap().contains("tag_encoding"));
    assert!(found_kind("#[wincode(with = x)] struct A;"));
    assert!(!found_kind("#[other(with = x)] struct A;"));
}

fn found_kind(source: &str) -> bool {
    match find_unsupported_wincode_attr(&derive_input(source).attrs) {
        Ok(found) => found.is_some(),
        Err(failure) => panic!("{}", message(&failure)),
    }
}

// ---------------------------------------------------------------------------
// Wrappers
// ---------------------------------------------------------------------------

#[test]
fn schemas_are_derived_for_an_item_that_is_erased() {
    same_tokens(
        &anchor_serialize("struct A;"),
        "#[derive(anchor_lang::wincode::SchemaWrite)] #[wincode(crate = \"anchor_lang::wincode\")] \
         #[anchor_lang::__erase] struct A;",
    );
    assert!(anchor_deserialize("struct A;").contains("anchor_lang::wincode::SchemaRead"));
    assert_eq!(__erase("a", "b"), "");
}

#[test]
fn events_are_logged_or_sent() {
    same_tokens(
        &emit("Moved { a: 1 }"),
        "{ anchor_lang::sol_log_data(&[&anchor_lang::Event::data(&Moved { a: 1 })]); }",
    );
    let sent = emit_cpi("Moved { a: 1 }");
    parses(&format!("fn f() {sent}"));
    assert!(normal(&sent).contains("anchor_lang :: Event :: data (& Moved { a : 1 })"));
}

#[test]
fn event_accounts_are_added_behind_the_fields() {
    let item = |named: bool, semicolon: bool| EventCpiStruct {
        attrs: String::from("#[derive(Accounts)]"),
        vis: String::from("pub"),
        ident: self::named("Pay"),
        generics: String::from("<'a>"),
        fields: vec![String::from("pub payer: Signer"), String::from("pub vault: Vault")],
        named,
        semicolon,
    };
    let code = event_cpi(&item(true, false)).unwrap();
    parses(&code);
    let code = normal(&code);
    assert!(
        code.starts_with(
            "# [derive (Accounts)] pub struct Pay < 'a > { pub payer : Signer , pub vault : Vault , #"
        ),
        "{code}"
    );
    assert!(code.contains("pub event_authority"), "{code}");
    let tree: syn::ItemStruct = syn::parse_str(&code).unwrap();
    let names: Vec<String> =
        tree.fields.iter().map(|field| field.ident.as_ref().unwrap().to_string()).collect();
    assert_eq!(names, vec!["payer", "vault", "event_authority", "program"]);
    for refused in [item(false, false), item(true, true)] {
        assert_eq!(
            fail(event_cpi(&refused)),
            "`#[event_cpi]` only supports accounts structs with named fields"
        );
    }
}
