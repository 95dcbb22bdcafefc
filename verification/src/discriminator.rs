//! Discriminators: the bytes by which instructions, accounts and events are told
//! apart.

use crate::attrs::{Attribute, Element, Meta, Value, ValueKind};
use crate::failure::{
    collected, diagnostic, lemma_collected_prefix, new_diagnostic, unit_view, Failure, FailureView,
    Span,
};
use crate::json::{elements, number_of, Json};
use crate::names::{bytes_text, format_discriminator_bytes, snake_case, to_snake_case};
use crate::outside::{byte_value, read_byte, sha256, sha256_of};
use crate::syntax::Ident;
use crate::text::{bytes_start_with, has_prefix, same_text};
use vstd::prelude::*;

verus! {

// ---------------------------------------------------------------------------
// Default discriminators
// ---------------------------------------------------------------------------

/// The discriminator that a digest gives: its first eight bytes.
pub open spec fn digest_head(digest: Seq<u8>) -> Seq<u8> {
    Seq::new(8, |i: int| digest[i])
}

/// The discriminator that a digest gives.
pub fn discriminator_of_digest(digest: &Vec<u8>) -> (out: Vec<u8>)
    requires
        digest@.len() >= 8,
    ensures
        out@ == digest_head(digest@),
{
    let mut out: Vec<u8> = Vec::new();
    for i in 0..8usize
        invariant
            digest@.len() >= 8,
            out@ == digest@.take(i as int),
    {
        out.push(digest[i]);
        assert(digest@.take(i + 1) == digest@.take(i as int).push(digest@[i as int]));
    }
    assert(digest@.take(8) == digest_head(digest@));
    out
}

/// The discriminator of something named in a namespace, where nothing else is said.
pub open spec fn hashed(namespace: Seq<char>, name: Seq<char>) -> Seq<u8> {
    digest_head(sha256_of(namespace + ":"@ + name))
}

/// The discriminator of something named in a namespace, where nothing else is said.
pub fn hashed_discriminator(namespace: &str, name: &str) -> (out: Vec<u8>)
    ensures
        out@ == hashed(namespace@, name@),
        out@.len() == 8,
{
    let digest = sha256(namespace.to_owned().concat(":").concat(name).as_str());
    discriminator_of_digest(&digest)
}

/// The discriminator of an instruction, where nothing else is said.
pub fn default_instruction_discriminator(name: &str) -> (out: Vec<u8>)
    ensures
        out@ == hashed("global"@, name@),
        out@.len() == 8,
{
    hashed_discriminator("global", name)
}

// ---------------------------------------------------------------------------
// Discriminators in attributes
// ---------------------------------------------------------------------------

/// The discriminator that an attribute gives to a handler.
pub struct DiscrimAttr {
    pub bytes: Vec<u8>,
    pub span: Span,
}

/// The discriminator with its bytes as a sequence.
pub struct DiscrimView {
    pub bytes: Seq<u8>,
    pub span: Span,
}

/// The discriminator or its absence, with its bytes as a sequence.
pub open spec fn discrim_option_view(discrim: Option<DiscrimAttr>) -> Option<DiscrimView> {
    match discrim {
        Some(discrim) => Some(DiscrimView { bytes: discrim.bytes@, span: discrim.span }),
        None => None,
    }
}

/// The discriminator, its absence or the failure, with its bytes as a sequence.
pub open spec fn discrim_view(discrim: Result<Option<DiscrimAttr>, Failure>) -> Result<
    Option<DiscrimView>,
    FailureView,
> {
    match discrim {
        Ok(discrim) => Ok(discrim_option_view(discrim)),
        Err(failure) => Err(failure@),
    }
}

/// The bytes, or the failure.
pub open spec fn bytes_view(bytes: Result<Vec<u8>, Failure>) -> Result<Seq<u8>, FailureView> {
    match bytes {
        Ok(bytes) => Ok(bytes@),
        Err(failure) => Err(failure@),
    }
}

/// Why a single value is refused.
pub const BYTE_RANGE: &'static str = "`#[discrim = N]` value must fit in a u8 (0..=255)";

/// Why an element is refused.
pub const ELEMENT_RANGE: &'static str = "`#[discrim = [...]]` values must fit in a u8 (0..=255)";

/// Why an element that is no integer literal is refused.
pub const ELEMENT_FORM: &'static str = "`#[discrim = [...]]` values must be integer literals";

/// Why an empty array is refused.
pub const EMPTY_ARRAY: &'static str = "`#[discrim = [...]]` must contain at least one byte";

/// Why any other value is refused.
pub const DISCRIM_FORM: &'static str =
    "`#[discrim = ...]` value must be an integer literal or byte array literal";

/// The byte that an element of an array writes.
pub open spec fn element_byte(element: Element) -> Result<u8, FailureView> {
    match element.digits {
        None => Err(diagnostic(element.span, ELEMENT_FORM@)),
        Some(digits) => match byte_value(digits@) {
            None => Err(diagnostic(element.span, ELEMENT_RANGE@)),
            Some(byte) => Ok(byte),
        },
    }
}

/// The bytes that the elements of an array write, or the first failure.
pub open spec fn element_bytes(elements: Seq<Element>) -> Result<Seq<u8>, FailureView> {
    collected(elements.map_values(|element: Element| element_byte(element)))
}

/// The bytes that the value of a `discrim` attribute writes.
pub open spec fn value_bytes(value: Value) -> Result<Seq<u8>, FailureView> {
    match value.kind {
        ValueKind::Integer(digits) => match byte_value(digits@) {
            None => Err(diagnostic(value.span, BYTE_RANGE@)),
            Some(byte) => Ok(seq![byte]),
        },
        ValueKind::Array(elements) => if elements@.len() == 0 {
            Err(diagnostic(value.span, EMPTY_ARRAY@))
        } else {
            element_bytes(elements@)
        },
        _ => Err(diagnostic(value.span, DISCRIM_FORM@)),
    }
}

/// Whether an attribute gives a discriminator.
pub open spec fn is_discrim(attr: Attribute) -> bool {
    attr.path@ == "discrim"@ && attr.meta is NameValue
}

/// Whether an attribute gives a discriminator.
pub fn is_discrim_attr(attr: &Attribute) -> (found: bool)
    ensures
        found == is_discrim(*attr),
{
    same_text(attr.path.as_str(), "discrim") && (match &attr.meta {
        Meta::NameValue { .. } => true,
        _ => false,
    })
}

/// The discriminator that the first `discrim` attribute gives.
pub open spec fn attr_discrim(attrs: Seq<Attribute>) -> Result<Option<DiscrimView>, FailureView>
    decreases attrs.len(),
{
    if attrs.len() == 0 {
        Ok(None)
    } else if !is_discrim(attrs[0]) {
        attr_discrim(attrs.skip(1))
    } else {
        let value = attrs[0].meta->NameValue_value;
        match value_bytes(value) {
            Err(failure) => Err(failure),
            Ok(bytes) => Ok(Some(DiscrimView { bytes, span: value.span })),
        }
    }
}

fn read_elements(elements: &Vec<Element>) -> (out: Result<Vec<u8>, Failure>)
    ensures
        bytes_view(out) == element_bytes(elements@),
{
    let mut bytes: Vec<u8> = Vec::new();
    let ghost results = elements@.map_values(|element: Element| element_byte(element));
    for i in 0..elements.len()
        invariant
            results == elements@.map_values(|element: Element| element_byte(element)),
            collected(results.take(i as int)) == Ok::<Seq<u8>, FailureView>(bytes@),
    {
        assert(results.take(i + 1).drop_last() == results.take(i as int));
        let element = &elements[i];
        match &element.digits {
            None => {
                proof {
                    lemma_collected_prefix(results, i + 1);
                }
                return Err(new_diagnostic(element.span, ELEMENT_FORM.to_owned()));
            },
            Some(digits) => match read_byte(digits.as_str()) {
                Ok(byte) => {
                    bytes.push(byte);
                },
                Err(_) => {
                    proof {
                        lemma_collected_prefix(results, i + 1);
                    }
                    return Err(new_diagnostic(element.span, ELEMENT_RANGE.to_owned()));
                },
            },
        }
    }
    assert(results.take(elements@.len() as int) == results);
    Ok(bytes)
}

fn read_value(value: &Value) -> (out: Result<Vec<u8>, Failure>)
    ensures
        bytes_view(out) == value_bytes(*value),
{
    match &value.kind {
        ValueKind::Integer(digits) => match read_byte(digits.as_str()) {
            Ok(byte) => {
                let bytes = vec![byte];
                assert(bytes@ == seq![byte]);
                Ok(bytes)
            },
            Err(_) => Err(new_diagnostic(value.span, BYTE_RANGE.to_owned())),
        },
        ValueKind::Array(elements) => if elements.len() == 0 {
            Err(new_diagnostic(value.span, EMPTY_ARRAY.to_owned()))
        } else {
            read_elements(elements)
        },
        _ => Err(new_diagnostic(value.span, DISCRIM_FORM.to_owned())),
    }
}

/// Reads the `discrim` attribute of a handler.
pub fn parse_discrim_attr(attrs: &Vec<Attribute>) -> (out: Result<Option<DiscrimAttr>, Failure>)
    ensures
        discrim_view(out) == attr_discrim(attrs@),
{
    assert(attrs@.skip(0) == attrs@);
    for i in 0..attrs.len()
        invariant
            attr_discrim(attrs@) == attr_discrim(attrs@.skip(i as int)),
    {
        assert(attrs@.skip(i as int).skip(1) == attrs@.skip(i + 1));
        if same_text(attrs[i].path.as_str(), "discrim") {
            if let Meta::NameValue { value, .. } = &attrs[i].meta {
                return match read_value(value) {
                    Ok(bytes) => Ok(Some(DiscrimAttr { bytes, span: value.span })),
                    Err(failure) => Err(failure),
                };
            }
        }
    }
    Ok(None)
}

// ---------------------------------------------------------------------------
// Discriminators that exclude each other
// ---------------------------------------------------------------------------

/// Something with a discriminator.
pub struct Named {
    pub name: String,
    pub bytes: Vec<u8>,
    pub span: Span,
}

/// Something with a discriminator, as sequences.
pub struct NamedView {
    pub name: Seq<char>,
    pub bytes: Seq<u8>,
    pub span: Span,
}

impl View for Named {
    type V = NamedView;

    open spec fn view(&self) -> NamedView {
        NamedView { name: self.name@, bytes: self.bytes@, span: self.span }
    }
}

/// The list, as sequences.
pub open spec fn named_view(list: Seq<Named>) -> Seq<NamedView> {
    list.map_values(|item: Named| item@)
}

/// Whether two items of a list, under different names, cannot be told apart: the
/// discriminator of the outer one begins with that of the inner one.
pub open spec fn clashes(list: Seq<NamedView>, outer: int, inner: int) -> bool {
    &&& 0 <= outer < list.len()
    &&& 0 <= inner < list.len()
    &&& list[outer].name != list[inner].name
    &&& has_prefix(list[outer].bytes, list[inner].bytes)
}

/// Whether two items clash and no pair before them does.
pub open spec fn first_clash(list: Seq<NamedView>, outer: int, inner: int) -> bool {
    &&& clashes(list, outer, inner)
    &&& forall|a: int, b: int| #[trigger]
        clashes(list, a, b) ==> outer < a || (outer == a && inner <= b)
}

/// Whether no two items of a list, under different names, clash.
pub open spec fn prefix_free(list: Seq<NamedView>) -> bool {
    forall|a: int, b: int| !#[trigger] clashes(list, a, b)
}

/// What is said of two items that clash.
pub open spec fn clash_message(section: Seq<char>, outer: NamedView, inner: NamedView) -> Seq<
    char,
> {
    "Ambiguous discriminators for "@ + section + ": `"@ + inner.name + "` discriminator "@
        + bytes_text(inner.bytes) + " is a prefix of `"@ + outer.name + "` discriminator "@
        + bytes_text(outer.bytes)
}

/// The first clash in a list, reported at `at` or, without that, at the outer item.
pub open spec fn clash_check(section: Seq<char>, list: Seq<NamedView>, at: Option<Span>) -> Result<
    (),
    FailureView,
> {
    if prefix_free(list) {
        Ok(())
    } else {
        let (outer, inner) = choose|outer: int, inner: int| first_clash(list, outer, inner);
        Err(
            diagnostic(
                match at {
                    Some(span) => span,
                    None => list[outer].span,
                },
                clash_message(section, list[outer], list[inner]),
            ),
        )
    }
}

fn check_clashes(section: &str, list: &Vec<Named>, at: Option<Span>) -> (out: Result<(), Failure>)
    ensures
        unit_view(out) == clash_check(section@, named_view(list@), at),
{
    let ghost views = named_view(list@);
    for i in 0..list.len()
        invariant
            views == named_view(list@),
            forall|a: int, b: int| a < i ==> !#[trigger] clashes(views, a, b),
    {
        for j in 0..list.len()
            invariant
                i < list@.len(),
                views == named_view(list@),
                forall|a: int, b: int|
                    a < i || (a == i && b < j) ==> !#[trigger] clashes(views, a, b),
        {
            let outer = &list[i];
            let inner = &list[j];
            if !same_text(outer.name.as_str(), inner.name.as_str()) && bytes_start_with(
                &outer.bytes,
                &inner.bytes,
            ) {
                proof {
                    assert(clashes(views, i as int, j as int));
                    assert(first_clash(views, i as int, j as int));
                    let (a, b) = choose|a: int, b: int| first_clash(views, a, b);
                    assert(first_clash(views, a, b));
                    assert(clashes(views, a, b));
                    assert(a == i && b == j);
                }
                let message = "Ambiguous discriminators for ".to_owned().concat(section).concat(
                    ": `",
                ).concat(inner.name.as_str()).concat("` discriminator ").concat(
                    format_discriminator_bytes(&inner.bytes).as_str(),
                ).concat(" is a prefix of `").concat(outer.name.as_str()).concat(
                    "` discriminator ",
                ).concat(format_discriminator_bytes(&outer.bytes).as_str());
                let span = match at {
                    Some(span) => span,
                    None => outer.span,
                };
                return Err(new_diagnostic(span, message));
            }
            assert(!clashes(views, i as int, j as int));
        }
        assert forall|b: int| !clashes(views, i as int, b) by {
            if clashes(views, i as int, b) {
                assert(b < list@.len());
            }
        }
    }
    assert(prefix_free(views)) by {
        assert forall|a: int, b: int| !clashes(views, a, b) by {
            if clashes(views, a, b) {
                assert(a < list@.len());
            }
        }
    }
    Ok(())
}

/// Refuses discriminators of a section of which one begins with another.
pub fn validate_discriminator_prefixes(section: &str, discriminators: &Vec<Named>, span: Span) -> (
out: Result<(), Failure>)
    ensures
        unit_view(out) == clash_check(section@, named_view(discriminators@), Some(span)),
{
    check_clashes(section, discriminators, Some(span))
}

/// Where no discriminator begins with another, data begins with the discriminators of
/// one name at most.
pub proof fn lemma_one_match(list: Seq<NamedView>, data: Seq<u8>, a: int, b: int)
    requires
        prefix_free(list),
        0 <= a < list.len(),
        0 <= b < list.len(),
        has_prefix(data, list[a].bytes),
        has_prefix(data, list[b].bytes),
    ensures
        list[a].name == list[b].name,
{
    let short = if list[a].bytes.len() <= list[b].bytes.len() {
        a
    } else {
        b
    };
    let long = if short == a {
        b
    } else {
        a
    };
    assert(list[long].bytes.take(list[short].bytes.len() as int) == data.take(
        list[short].bytes.len() as int,
    ));
    assert(!clashes(list, long, short));
}

/// The discriminator of an instruction handler: the one that an attribute gives, or
/// the one that follows from its name in snake case.
pub open spec fn handler_discriminator(name: Seq<char>, discrim: Option<DiscrimView>) -> Seq<u8> {
    match discrim {
        Some(discrim) => discrim.bytes,
        None => hashed("global"@, snake_case(name)),
    }
}

/// The handlers with their discriminators.
pub open spec fn handler_discriminators(
    handlers: Seq<Ident>,
    discrims: Seq<Option<DiscrimAttr>>,
) -> Seq<NamedView> {
    Seq::new(
        handlers.len(),
        |i: int|
            NamedView {
                name: handlers[i].text@,
                bytes: handler_discriminator(
                    handlers[i].text@,
                    discrim_option_view(discrims[i]),
                ),
                span: handlers[i].span,
            },
    )
}

/// Copies bytes.
pub fn copy_bytes(bytes: &Vec<u8>) -> (out: Vec<u8>)
    ensures
        out@ == bytes@,
{
    let mut out: Vec<u8> = Vec::new();
    for i in 0..bytes.len()
        invariant
            out@ == bytes@.take(i as int),
    {
        out.push(bytes[i]);
        assert(bytes@.take(i + 1) == bytes@.take(i as int).push(bytes@[i as int]));
    }
    assert(bytes@.take(bytes@.len() as int) == bytes@);
    out
}

/// Refuses instruction handlers of which the discriminator of one begins with that of
/// another.
pub fn validate_instruction_discriminator_prefixes(
    handlers: &Vec<Ident>,
    discrim_attrs: &Vec<Option<DiscrimAttr>>,
) -> (out: Result<(), Failure>)
    requires
        handlers@.len() == discrim_attrs@.len(),
    ensures
        unit_view(out) == clash_check(
            "instructions"@,
            handler_discriminators(handlers@, discrim_attrs@),
            None,
        ),
{
    let mut list: Vec<Named> = Vec::new();
    let ghost all = handler_discriminators(handlers@, discrim_attrs@);
    for i in 0..handlers.len()
        invariant
            handlers@.len() == discrim_attrs@.len(),
            all == handler_discriminators(handlers@, discrim_attrs@),
            list@.len() == i,
            forall|k: int| 0 <= k < i ==> (#[trigger] list@[k])@ == all[k],
    {
        let name = handlers[i].text.clone();
        let bytes = match &discrim_attrs[i] {
            Some(discrim) => copy_bytes(&discrim.bytes),
            None => default_instruction_discriminator(to_snake_case(name.as_str()).as_str()),
        };
        list.push(Named { name, bytes, span: handlers[i].span });
    }
    assert(named_view(list@) == all);
    check_clashes("instructions", &list, None)
}

// ---------------------------------------------------------------------------
// Discriminators in an interface description
// ---------------------------------------------------------------------------

/// The byte that a value is.
pub open spec fn json_byte(value: Json) -> Option<u8> {
    match number_of(value) {
        Some(n) if n <= 255 => Some(n as u8),
        _ => None,
    }
}

/// The discriminator that an array writes: bytes, and at least one.
pub open spec fn array_discriminator(values: Seq<Json>, span: Span) -> Result<
    Seq<u8>,
    FailureView,
> {
    if values.len() == 0 {
        Err(diagnostic(span, "IDL discriminator must not be empty"@))
    } else if exists|i: int| 0 <= i < values.len() && json_byte(#[trigger] values[i]) is None {
        Err(diagnostic(span, "IDL discriminator values must be bytes"@))
    } else {
        Ok(values.map_values(|value: Json| json_byte(value)->Some_0))
    }
}

/// Reads a discriminator from an array.
pub fn parse_discriminator_array(values: &Vec<Json>, span: Span) -> (out: Result<Vec<u8>, Failure>)
    ensures
        bytes_view(out) == array_discriminator(values@, span),
{
    if values.len() == 0 {
        return Err(new_diagnostic(span, "IDL discriminator must not be empty".to_owned()));
    }
    let mut bytes: Vec<u8> = Vec::new();
    for i in 0..values.len()
        invariant
            values@.len() > 0,
            bytes@.len() == i,
            forall|k: int|
                0 <= k < i ==> json_byte(#[trigger] values@[k]) == Some(bytes@[k]),
    {
        match values[i].as_u64() {
            Some(n) if n <= 255 => {
                bytes.push(n as u8);
            },
            _ => {
                assert(json_byte(values@[i as int]) is None);
                return Err(
                    new_diagnostic(span, "IDL discriminator values must be bytes".to_owned()),
                );
            },
        }
    }
    assert(bytes@ =~= values@.map_values(|value: Json| json_byte(value)->Some_0)) by {
        assert forall|k: int| 0 <= k < values@.len() implies bytes@[k] == json_byte(
            values@[k],
        )->Some_0 by {
            assert(json_byte(values@[k]) == Some(bytes@[k]));
        }
    }
    Ok(bytes)
}

// ---------------------------------------------------------------------------
// Discriminators in an interface description
// ---------------------------------------------------------------------------

/// Whether a function that writes discriminators can be called on any bytes.
pub open spec fn writes_any<W: Fn(&Vec<u8>) -> String>(disc_json: W) -> bool {
    forall|bytes: &Vec<u8>| #[trigger] call_requires(disc_json, (bytes,))
}

/// Whether a text is what the function may write for the given bytes.
pub open spec fn may_write<W: Fn(&Vec<u8>) -> String>(
    disc_json: W,
    bytes: Seq<u8>,
    text: Seq<char>,
) -> bool {
    exists|list: &Vec<u8>, out: String|
        list@ == bytes && out@ == text && #[trigger] call_ensures(disc_json, (list,), out)
}

/// Has the function write a discriminator.
pub fn write_disc<W: Fn(&Vec<u8>) -> String>(disc_json: &W, bytes: &Vec<u8>) -> (text: String)
    requires
        writes_any(*disc_json),
    ensures
        may_write(*disc_json, bytes@, text@),
{
    disc_json(bytes)
}

} // verus!
