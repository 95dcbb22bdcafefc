//! What is accepted, what is refused, and how things are named and told apart.

use crate::account::{account_expansion, pod_failures, AccountIdl, ExpansionView};
use crate::accounts::{accounts_refusal, AccountsReadings};
use crate::attrs::{Attribute, Token, ValueKind};
use crate::declared_types::{array_len, idl_type};
use crate::discriminator::{array_discriminator, attr_discrim, hashed, json_byte, DiscrimView};
use crate::event::{event_expansion, EventIdl};
use crate::failure::{diagnostic, FailureView, Span};
use crate::handler::{handler_code, handler_refusal, HandlerIdl, ERROR_WRAPPER};
use crate::handler_fn::{FnArg, HandlerFn};
use crate::item_laws::{conditions, lemma_conditions};
use crate::items::{field_name, DeriveInput, Field};
use crate::json::{array_at, member, member_of, text_at, Json, Member};
use crate::modes::event_mode;
use crate::names::item_name;
use crate::outside::{byte_value, ident_reading, literal_of, lowercase_of, sha256_of};
use crate::passages::{lemma_filled_from, lemma_filled_last, stands_at};
use crate::pod_fields::{account_field_message, fields_of, named_fields_of};
use crate::program::{any_gated, any_given, discrims_check, first_missing};
use crate::program_config::{config_from, ArgView, ProgramMode};
use crate::qualified_path::{handler_accounts, helper_module, repeated, returned};
use crate::syntax::{segment_texts, type_span, GenericArgument, Path, PathArguments, Type};
use crate::template::filled;
use crate::text::{decimal, terminated};
use crate::type_defs::entry_named;
use crate::wincode::{field_failures, GatedFailureView};
use vstd::prelude::*;

verus! {

spec fn error_wrapper_words() -> Seq<Seq<char>> {
    seq!["#[allow(non_snake_case)]\npub fn "@, "() {\n    ::core::compile_error! { "@, " }\n}"@]
}

proof fn lemma_error_wrapper_text_marks()
    ensures
        ERROR_WRAPPER@.len() == 74,
        stands_at(ERROR_WRAPPER@, error_wrapper_words()[0], 0, 32),
        ERROR_WRAPPER@[32] == '@' && ERROR_WRAPPER@[33] == 'a',
        stands_at(ERROR_WRAPPER@, error_wrapper_words()[1], 34, 34),
        ERROR_WRAPPER@[68] == '@' && ERROR_WRAPPER@[69] == 'b',
        stands_at(ERROR_WRAPPER@, error_wrapper_words()[2], 70, 4),
{
    let template = ERROR_WRAPPER@;
    let words = error_wrapper_words();
    reveal_strlit("#[allow(non_snake_case)]\npub fn @a() {\n    ::core::compile_error! { @b }\n}");
    assert(stands_at(template, words[0], 0, 32)) by {
        reveal_strlit("#[allow(non_snake_case)]\npub fn ");
        assert(template.subrange(0, 32) =~= words[0]);
    }
    assert(stands_at(template, words[1], 34, 34)) by {
        reveal_strlit("() {\n    ::core::compile_error! { ");
        assert(template.subrange(34, 68) =~= words[1]);
    }
    assert(stands_at(template, words[2], 70, 4)) by {
        reveal_strlit(" }\n}");
        assert(template.subrange(70, 74) =~= words[2]);
    }
}

proof fn lemma_error_wrapper_text(parts: Seq<Seq<char>>)
    requires
        parts.len() == 2,
    ensures
        filled(ERROR_WRAPPER@, parts) == "#[allow(non_snake_case)]\npub fn "@ + parts[0] + "() {\n    ::core::compile_error! { "@ + parts[1] + " }\n}"@,
{
    let template = ERROR_WRAPPER@;
    let words = error_wrapper_words();
    lemma_error_wrapper_text_marks();
    let told = filled(template, parts);
    assert(template.skip(0) =~= template);
    let done0 = Seq::<char>::empty();
    assert(told =~= done0 + filled(template.skip(0), parts));
    lemma_filled_from(template, 0, words[0], 'a', parts, done0, told);
    let done1 = words[0] + parts[0];
    assert(done0 + words[0] + parts[0] =~= done1);
    lemma_filled_from(template, 34, words[1], 'b', parts, done1, told);
    let done2 = done1 + words[1] + parts[1];
    lemma_filled_last(template, 70, words[2], parts, done2, told);
}

// ---------------------------------------------------------------------------
// Handlers
// ---------------------------------------------------------------------------

/// The one generic argument of a type with a given name.
pub open spec fn only_one_in(ty: Type, name: Seq<char>) -> Option<GenericArgument> {
    match ty {
        Type::Path(path) => if path.path.segments@.len() > 0
            && path.path.segments@.last().ident.text@ == name {
            match path.path.segments@.last().arguments {
                PathArguments::AngleBracketed(angle) => if angle.args@.len() == 1 {
                    Some(angle.args@[0])
                } else {
                    None
                },
                _ => None,
            }
        } else {
            None
        },
        _ => None,
    }
}

/// The accounts struct in `&mut Context<T>`: a type without arguments of its own.
pub open spec fn context_of(arg: FnArg) -> Option<Path> {
    match arg {
        FnArg::Typed(typed) => match typed.ty {
            Type::Reference(reference) => if reference.mutable {
                match only_one_in(*reference.elem, "Context"@) {
                    Some(GenericArgument::Type(Type::Path(accounts))) => if accounts.path.segments@.len()
                        > 0 && accounts.path.segments@.last().arguments is Absent {
                        Some(accounts.path)
                    } else {
                        None
                    },
                    _ => None,
                }
            } else {
                None
            },
            _ => None,
        },
        _ => None,
    }
}

/// The first generic argument of a `Result`, where it is a type.
pub open spec fn value_in(ty: Type) -> Option<Type> {
    match ty {
        Type::Path(path) => if path.path.segments@.len() > 0
            && path.path.segments@.last().ident.text@ == "Result"@ {
            match path.path.segments@.last().arguments {
                PathArguments::AngleBracketed(angle) => if angle.args@.len() > 0
                    && angle.args@[0] is Type {
                    Some(angle.args@[0]->Type_0)
                } else {
                    None
                },
                _ => None,
            }
        } else {
            None
        },
        _ => None,
    }
}

/// A handler is accepted exactly where it takes `&mut Context<T>` first, for an accounts
/// struct without arguments, and returns nothing or a `Result<T>`. Its value is that `T`,
/// unless that is `()`.
pub proof fn lemma_handler_accepted(handler: HandlerFn)
    ensures
        handler_refusal(handler) is None <==> {
            &&& handler.inputs@.len() > 0
            &&& context_of(handler.inputs@[0]) is Some
            &&& handler.output is Some ==> value_in(handler.output->Some_0) is Some
        },
        handler_refusal(handler) is None ==> {
            &&& handler_accounts(handler.inputs@[0]) == Ok::<Path, FailureView>(
                context_of(handler.inputs@[0])->Some_0,
            )
            &&& returned(handler.output) == Ok::<Option<Type>, FailureView>(
                match handler.output {
                    None => None,
                    Some(ty) => {
                        let value = value_in(ty)->Some_0;
                        if value is Tuple && value->Tuple_0.elems@.len() == 0 {
                            None
                        } else {
                            Some(value)
                        }
                    },
                },
            )
        },
{
    if handler.inputs@.len() > 0 {
        if let FnArg::Typed(typed) = handler.inputs@[0] {
            if let Type::Reference(reference) = typed.ty {
                if let Type::Path(context) = *reference.elem {
                    if context.path.segments@.len() > 0 {
                        if let PathArguments::AngleBracketed(angle) =
                            context.path.segments@.last().arguments {
                            if angle.args@.len() == 1 {
                                match angle.args@[0] {
                                    GenericArgument::Type(Type::Path(_)) => {},
                                    _ => {},
                                }
                            }
                        }
                    }
                }
            }
        }
    }
}

/// Why a handler is refused: first its return type, then a missing context, then a
/// context that is not `&mut Context<T>`.
pub proof fn lemma_handler_refusals(handler: HandlerFn)
    ensures
        handler.output is Some && value_in(handler.output->Some_0) is None ==> handler_refusal(
            handler,
        ) == Some(
            diagnostic(
                type_span(handler.output->Some_0),
                "handler return type must be `Result<T>`"@,
            ),
        ),
        (handler.output is None || value_in(handler.output->Some_0) is Some) ==> {
            &&& handler.inputs@.len() == 0 ==> handler_refusal(handler) == Some(
                diagnostic(
                    handler.ident.span,
                    "handler must have a `ctx: &mut Context<T>` parameter"@,
                ),
            )
            &&& handler.inputs@.len() > 0 ==> match handler.inputs@[0] {
                FnArg::Receiver { span, .. } => handler_refusal(handler) == Some(
                    diagnostic(span, "first parameter must be `ctx: &mut Context<T>`"@),
                ),
                FnArg::Typed(typed) => match typed.ty {
                    Type::Reference(reference) => !reference.mutable ==> handler_refusal(handler)
                        == Some(
                        diagnostic(
                            reference.span,
                            "handler context must be mutable: use `ctx: &mut Context<T>`"@,
                        ),
                    ),
                    _ => only_one_in(typed.ty, "Context"@) is Some ==> handler_refusal(handler)
                        == Some(
                        diagnostic(
                            type_span(typed.ty),
                            "handler context must be passed by mutable reference: use `ctx: &mut Context<T>`"@,
                        ),
                    ),
                },
            }
        },
{
}

/// What stands for a handler that is refused: an error with the reason, and nothing that
/// calls the handler or is given to callers.
pub proof fn lemma_handler_refused(
    handler: HandlerFn,
    mod_name: Seq<char>,
    discrim: Option<Seq<u8>>,
    program_id: Seq<char>,
    idl: HandlerIdl,
    disc: Seq<char>,
    span: Span,
    message: Seq<char>,
)
    requires
        handler_refusal(handler) == Some(diagnostic(span, message)),
    ensures
        ({
            let out = handler_code(handler, mod_name, discrim, program_id, idl, disc);
            let code = out->Ok_0;
            &&& out is Ok
            &&& code.error == Some(diagnostic(span, message))
            &&& code.wrapper == "#[allow(non_snake_case)]\npub fn "@ + handler.ident.text@ + "() {\n    ::core::compile_error! { "@ + literal_of(message) + " }\n}"@
            &&& code.dispatch_arm == ""@
            &&& code.instruction_struct == ""@
            &&& code.cpi_wrapper == ""@
            &&& code.accounts_reexport == ""@
            &&& code.cpi_accounts_reexport == ""@
        }),
{
    lemma_error_wrapper_text(seq![handler.ident.text@, literal_of(message)]);
}

// ---------------------------------------------------------------------------
// Discriminators
// ---------------------------------------------------------------------------

/// A discriminator that nothing gives is the first eight bytes of the digest of the kind
/// of the item, a colon and its name.
pub proof fn lemma_hashed(namespace: Seq<char>, name: Seq<char>)
    ensures
        hashed(namespace, name).len() == 8,
        forall|i: int|
            0 <= i < 8 ==> #[trigger] hashed(namespace, name)[i] == sha256_of(
                namespace + ":"@ + name,
            )[i],
{
}

/// Whether an attribute is `#[discrim = ..]`.
pub open spec fn gives_bytes(attr: Attribute) -> bool {
    attr.path@ == "discrim"@ && attr.meta is NameValue
}

/// The first `#[discrim = ..]` counts, and no other: a number stands for its byte and an
/// array for the bytes of its elements in order. Without one there is no discriminator.
pub proof fn lemma_discrim_given(attrs: Seq<Attribute>, at: int)
    requires
        0 <= at <= attrs.len(),
        forall|i: int| 0 <= i < at ==> !gives_bytes(#[trigger] attrs[i]),
        at < attrs.len() ==> gives_bytes(attrs[at]),
    ensures
        at == attrs.len() ==> attr_discrim(attrs) == Ok::<Option<DiscrimView>, FailureView>(None),
        at < attrs.len() ==> {
            let value = attrs[at].meta->NameValue_value;
            match value.kind {
                ValueKind::Integer(digits) => attr_discrim(attrs) == (match byte_value(digits@) {
                    Some(byte) => Ok(Some(DiscrimView { bytes: seq![byte], span: value.span })),
                    None => Err(
                        diagnostic(
                            value.span,
                            "`#[discrim = N]` value must fit in a u8 (0..=255)"@,
                        ),
                    ),
                }),
                ValueKind::Array(elements) => {
                    &&& elements@.len() == 0 ==> attr_discrim(attrs) == Err::<
                        Option<DiscrimView>,
                        FailureView,
                    >(
                        diagnostic(
                            value.span,
                            "`#[discrim = [...]]` must contain at least one byte"@,
                        ),
                    )
                    &&& attr_discrim(attrs) matches Ok(found) ==> {
                        &&& found is Some
                        &&& found->Some_0.bytes.len() == elements@.len()
                        &&& forall|i: int|
                            0 <= i < elements@.len() ==> (#[trigger] elements@[i]).digits is Some
                                && byte_value(elements@[i].digits->Some_0@) == Some(
                                found->Some_0.bytes[i],
                            )
                    }
                },
                _ => attr_discrim(attrs) == Err::<Option<DiscrimView>, FailureView>(
                    diagnostic(
                        value.span,
                        "`#[discrim = ...]` value must be an integer literal or byte array literal"@,
                    ),
                ),
            }
        },
    decreases attrs.len(),
{
    if at > 0 {
        assert(!gives_bytes(attrs[0]));
        let rest = attrs.skip(1);
        assert forall|i: int| 0 <= i < at - 1 implies !gives_bytes(#[trigger] rest[i]) by {
            assert(rest[i] == attrs[i + 1]);
        }
        lemma_discrim_given(rest, at - 1);
    } else if attrs.len() > 0 {
        let value = attrs[0].meta->NameValue_value;
        if let ValueKind::Array(elements) = value.kind {
            let results = elements@.map_values(
                |element: crate::attrs::Element| crate::discriminator::element_byte(element),
            );
            crate::failure::lemma_collected_len(results);
            if attr_discrim(attrs) is Ok {
                assert forall|i: int| 0 <= i < elements@.len() implies (
                #[trigger] elements@[i]).digits is Some && byte_value(
                    elements@[i].digits->Some_0@,
                ) == Some(attr_discrim(attrs)->Ok_0->Some_0.bytes[i]) by {
                    assert(results[i] == crate::discriminator::element_byte(elements@[i]));
                }
            }
        }
    }
}

/// A list of numbers is a discriminator exactly where it has any and each is a byte, and
/// is then those bytes in order.
pub proof fn lemma_bytes_listed(values: Seq<Json>, span: Span)
    ensures
        array_discriminator(values, span) is Ok <==> values.len() > 0 && forall|i: int|
            0 <= i < values.len() ==> (#[trigger] values[i]) is Number && values[i]->Number_0
                <= 255,
        array_discriminator(values, span) matches Ok(bytes) ==> bytes.len() == values.len()
            && forall|i: int|
            0 <= i < values.len() ==> #[trigger] bytes[i] as int == values[i]->Number_0 as int,
        values.len() == 0 ==> array_discriminator(values, span) == Err::<Seq<u8>, FailureView>(
            diagnostic(span, "IDL discriminator must not be empty"@),
        ),
        values.len() > 0 && array_discriminator(values, span) is Err ==> array_discriminator(
            values,
            span,
        ) == Err::<Seq<u8>, FailureView>(
            diagnostic(span, "IDL discriminator values must be bytes"@),
        ),
{
    if array_discriminator(values, span) is Ok {
        assert forall|i: int| 0 <= i < values.len() implies (#[trigger] values[i]) is Number
            && values[i]->Number_0 <= 255 by {
            assert(json_byte(values[i]) is Some);
        }
        let bytes = array_discriminator(values, span)->Ok_0;
        assert forall|i: int| 0 <= i < values.len() implies #[trigger] bytes[i] as int
            == values[i]->Number_0 as int by {
            assert(json_byte(values[i]) is Some);
        }
    } else if values.len() > 0 {
        let i = choose|i: int| 0 <= i < values.len() && json_byte(#[trigger] values[i]) is None;
        assert(!(values[i] is Number && values[i]->Number_0 <= 255));
    }
}

/// Where one handler of a program that runs has a discriminator of its own and none is
/// conditional, all must: the first without one is pointed at.
pub proof fn lemma_all_or_none(
    handlers: Seq<&HandlerFn>,
    discrims: Seq<Option<DiscrimView>>,
    given: int,
    missing: int,
)
    requires
        discrims.len() == handlers.len(),
        0 <= given < discrims.len(),
        discrims[given] is Some,
        0 <= missing < discrims.len(),
        discrims[missing] is None,
        forall|i: int| 0 <= i < missing ==> (#[trigger] discrims[i]) is Some,
        forall|i: int|
            0 <= i < handlers.len() ==> conditions((#[trigger] handlers[i]).attrs@).len() == 0
                && !any_condition(handlers[i].attrs@),
    ensures
        discrims_check(handlers, discrims, ProgramMode::Executable) == Err::<(), FailureView>(
            diagnostic(
                handlers[missing].ident.span,
                "if any instruction in `#[program]` uses `#[discrim = N]`, all must"@,
            ),
        ),
{
    lemma_first_missing_at(discrims, missing);
    assert(any_given(discrims));
    assert(!any_gated(handlers)) by {
        if any_gated(handlers) {
            let i = choose|i: int|
                0 <= i < handlers.len() && crate::attrs::any_cfg((#[trigger] handlers[i]).attrs@);
            let attrs = handlers[i].attrs@;
            let k = choose|k: int| 0 <= k < attrs.len() && crate::attrs::is_cfg(#[trigger] attrs[k]);
            assert(attrs[k].path@ == "cfg"@);
        }
    }
}

/// Whether any attribute is a condition.
pub open spec fn any_condition(attrs: Seq<Attribute>) -> bool {
    exists|k: int| 0 <= k < attrs.len() && (#[trigger] attrs[k]).path@ == "cfg"@
}

proof fn lemma_first_missing_at(discrims: Seq<Option<DiscrimView>>, missing: int)
    requires
        0 <= missing < discrims.len(),
        discrims[missing] is None,
        forall|i: int| 0 <= i < missing ==> (#[trigger] discrims[i]) is Some,
    ensures
        first_missing(discrims) == missing,
    decreases discrims.len(),
{
    if missing > 0 {
        assert(discrims[0] is Some);
        assert forall|i: int| 0 <= i < missing - 1 implies (#[trigger] discrims.skip(1)[i]) is Some by {
            assert(discrims.skip(1)[i] == discrims[i + 1]);
        }
        lemma_first_missing_at(discrims.skip(1), missing - 1);
    }
}

// ---------------------------------------------------------------------------
// Names and values
// ---------------------------------------------------------------------------

/// A member of an object is the first with the key. Nothing else has members.
pub proof fn lemma_member_found(value: Json, key: Seq<char>)
    ensures
        !(value is Object) ==> member_of(value, key) is None,
        value is Object ==> {
            let members = value->Object_0@;
            &&& member_of(value, key) is None <==> forall|i: int|
                0 <= i < members.len() ==> (#[trigger] members[i]).key@ != key
            &&& member_of(value, key) is Some ==> exists|i: int|
                {
                    &&& 0 <= i < members.len()
                    &&& (#[trigger] members[i]).key@ == key
                    &&& member_of(value, key) == Some(members[i].value)
                    &&& forall|k: int| 0 <= k < i ==> (#[trigger] members[k]).key@ != key
                }
        },
{
    if value is Object {
        lemma_member_in(value->Object_0@, key);
    }
}

proof fn lemma_member_in(members: Seq<Member>, key: Seq<char>)
    ensures
        member(members, key) is None <==> forall|i: int|
            0 <= i < members.len() ==> (#[trigger] members[i]).key@ != key,
        member(members, key) is Some ==> exists|i: int|
            {
                &&& 0 <= i < members.len()
                &&& (#[trigger] members[i]).key@ == key
                &&& member(members, key) == Some(members[i].value)
                &&& forall|k: int| 0 <= k < i ==> (#[trigger] members[k]).key@ != key
            },
    decreases members.len(),
{
    if members.len() > 0 {
        let rest = members.skip(1);
        lemma_member_in(rest, key);
        if members[0].key@ != key {
            if member(rest, key) is Some {
                let i = choose|i: int|
                    {
                        &&& 0 <= i < rest.len()
                        &&& (#[trigger] rest[i]).key@ == key
                        &&& member(rest, key) == Some(rest[i].value)
                        &&& forall|k: int| 0 <= k < i ==> (#[trigger] rest[k]).key@ != key
                    };
                assert(members[i + 1] == rest[i]);
                assert forall|k: int| 0 <= k < i + 1 implies (#[trigger] members[k]).key@ != key by {
                    if k > 0 {
                        assert(members[k] == rest[k - 1]);
                    }
                }
            } else {
                assert forall|i: int| 0 <= i < members.len() implies (
                #[trigger] members[i]).key@ != key by {
                    if i > 0 {
                        assert(members[i] == rest[i - 1]);
                    }
                }
            }
        }
    }
}

/// An entry is found by its name; of several the last one counts.
pub proof fn lemma_entry_found(items: Seq<Json>, name: Seq<char>)
    ensures
        entry_named(items, name) is None <==> forall|i: int|
            0 <= i < items.len() ==> text_at(#[trigger] items[i], "name"@) != Some(name),
        entry_named(items, name) is Some ==> exists|i: int|
            {
                &&& 0 <= i < items.len()
                &&& text_at(#[trigger] items[i], "name"@) == Some(name)
                &&& entry_named(items, name) == Some(items[i])
                &&& forall|k: int|
                    i < k < items.len() ==> text_at(#[trigger] items[k], "name"@) != Some(name)
            },
    decreases items.len(),
{
    if items.len() > 0 {
        let before = items.drop_last();
        lemma_entry_found(before, name);
        if text_at(items.last(), "name"@) == Some(name) {
            assert(items[items.len() - 1] == items.last());
        } else if entry_named(before, name) is Some {
            let i = choose|i: int|
                {
                    &&& 0 <= i < before.len()
                    &&& text_at(#[trigger] before[i], "name"@) == Some(name)
                    &&& entry_named(before, name) == Some(before[i])
                    &&& forall|k: int|
                        i < k < before.len() ==> text_at(#[trigger] before[k], "name"@) != Some(
                            name,
                        )
                };
            assert(items[i] == before[i]);
            assert forall|k: int| i < k < items.len() implies text_at(
                #[trigger] items[k],
                "name"@,
            ) != Some(name) by {
                if k < before.len() {
                    assert(items[k] == before[k]);
                }
            }
        } else {
            assert forall|i: int| 0 <= i < items.len() implies text_at(
                #[trigger] items[i],
                "name"@,
            ) != Some(name) by {
                if i < before.len() {
                    assert(items[i] == before[i]);
                }
            }
        }
    }
}

/// The module beside a type lies on the way to the type: a way from the root of a crate
/// stays as it is, one from the module itself drops `self`, and any but a way from a root
/// first leaves as many modules as the code is deep in.
pub proof fn lemma_module_beside(path: Path, prefix: Seq<char>, depth: nat)
    requires
        helper_module(path, prefix, depth) is Ok,
        path.segments@.len() > 0,
    ensures
        ({
            let way = path.segments@.drop_last();
            let name = item_name(prefix + lowercase_of(path.segments@.last().ident.text@))->Ok_0;
            let out = helper_module(path, prefix, depth)->Ok_0;
            let from_self = way.len() > 0 && way[0].ident.text@ == "self"@;
            let from_crate = way.len() > 0 && way[0].ident.text@ == "crate"@;
            let rest = if from_self {
                way.skip(1)
            } else {
                way
            };
            let along = terminated(segment_texts(rest, None), "::"@) + name;
            &&& path.leading_colon || from_crate ==> out == along
            &&& !path.leading_colon && !from_crate ==> out == repeated("super::"@, depth) + along
        }),
{
    let way = path.segments@.drop_last();
    let rest = if way.len() > 0 && way[0].ident.text@ == "self"@ {
        way.skip(1)
    } else {
        way
    };
    let name = item_name(prefix + lowercase_of(path.segments@.last().ident.text@))->Ok_0;
    let out = helper_module(path, prefix, depth)->Ok_0;
    reveal_strlit("");
    let along = terminated(segment_texts(rest, None), "::"@) + name;
    if path.leading_colon || (way.len() > 0 && way[0].ident.text@ == "crate"@) {
        assert(out =~= along);
    } else {
        assert(out =~= repeated("super::"@, depth) + along);
    }
}

/// Whether a name is one of the numbers, or `bool`, which are called the same.
pub open spec fn is_plain_type(name: Seq<char>) -> bool {
    seq![
        "bool"@,
        "u8"@,
        "i8"@,
        "u16"@,
        "i16"@,
        "u32"@,
        "i32"@,
        "f32"@,
        "u64"@,
        "i64"@,
        "f64"@,
        "u128"@,
        "i128"@,
    ].contains(name)
}

/// A type that a description names is itself, or a list of bytes, a string or an address.
pub proof fn lemma_named_type(value: Json, span: Span)
    requires
        value is Text,
    ensures
        ({
            let name = value->Text_0@;
            let out = idl_type(value, span);
            &&& is_plain_type(name) ==> out == Ok::<Seq<char>, FailureView>(name)
            &&& name == "bytes"@ ==> out == Ok::<Seq<char>, FailureView>(
                "anchor_lang::__alloc::vec::Vec<u8>"@,
            )
            &&& name == "string"@ ==> out == Ok::<Seq<char>, FailureView>(
                "anchor_lang::__alloc::string::String"@,
            )
            &&& name == "pubkey"@ ==> out == Ok::<Seq<char>, FailureView>(
                "anchor_lang::Address"@,
            )
            &&& out is Ok <==> is_plain_type(name) || name == "bytes"@ || name == "string"@ || name
                == "pubkey"@
        }),
{
    let name = value->Text_0@;
    let plain = seq![
        "bool"@,
        "u8"@,
        "i8"@,
        "u16"@,
        "i16"@,
        "u32"@,
        "i32"@,
        "f32"@,
        "u64"@,
        "i64"@,
        "f64"@,
        "u128"@,
        "i128"@,
    ];
    reveal_strlit("bytes");
    reveal_strlit("string");
    reveal_strlit("pubkey");
    assert("bytes"@.len() == 5 && "bytes"@[0] == 'b');
    assert("string"@.len() == 6 && "pubkey"@.len() == 6);
    assert("string"@[0] == 's' && "pubkey"@[0] == 'p');
    assert forall|i: int| 0 <= i < 13 implies #[trigger] plain[i].len() <= 4 by {
        reveal_strlit("bool");
        reveal_strlit("u8");
        reveal_strlit("i8");
        reveal_strlit("u16");
        reveal_strlit("i16");
        reveal_strlit("u32");
        reveal_strlit("i32");
        reveal_strlit("f32");
        reveal_strlit("u64");
        reveal_strlit("i64");
        reveal_strlit("f64");
        reveal_strlit("u128");
        reveal_strlit("i128");
    }
    assert(plain[0] == "bool"@ && plain[1] == "u8"@ && plain[2] == "i8"@ && plain[3] == "u16"@);
    assert(plain[4] == "i16"@ && plain[5] == "u32"@ && plain[6] == "i32"@ && plain[7] == "f32"@);
    assert(plain[8] == "u64"@ && plain[9] == "i64"@ && plain[10] == "f64"@ && plain[11] == "u128"@);
    assert(plain[12] == "i128"@);
}

/// A list, an option or an array of some type is that of the type of its elements.
pub proof fn lemma_built_type(value: Json, span: Span)
    requires
        !(value is Text),
        member_of(value, "defined"@) is None,
        text_at(value, "generic"@) is None,
    ensures
        ({
            let out = idl_type(value, span);
            &&& member_of(value, "vec"@) matches Some(inner) ==> out == (match idl_type(
                inner,
                span,
            ) {
                Ok(ty) => Ok("anchor_lang::__alloc::vec::Vec<"@ + ty + ">"@),
                Err(failure) => Err(failure),
            })
            &&& member_of(value, "vec"@) is None ==> (member_of(value, "option"@) matches Some(inner)
                ==> out == (match idl_type(inner, span) {
                Ok(ty) => Ok("Option<"@ + ty + ">"@),
                Err(failure) => Err(failure),
            }))
            &&& member_of(value, "vec"@) is None && member_of(value, "option"@) is None ==> (
            array_at(value, "array"@) matches Some(array) ==> out == (if array.len() != 2 {
                Err(diagnostic(span, "IDL array type must have two elements"@))
            } else {
                match idl_type(array[0], span) {
                    Ok(ty) => match array_len(array[1], span) {
                        Ok(len) => Ok("["@ + ty + "; "@ + len + "]"@),
                        Err(failure) => Err(failure),
                    },
                    Err(failure) => Err(failure),
                }
            }))
        }),
{
}

/// The length of an array is its number, or the name of a generic parameter.
pub proof fn lemma_array_length(value: Json, span: Span)
    ensures
        value is Number ==> array_len(value, span) == Ok::<Seq<char>, FailureView>(
            decimal((value->Number_0 as usize) as nat) + "usize"@,
        ),
        value is Text ==> (array_len(value, span) is Ok <==> ident_reading(value->Text_0@) is Ok),
        value is Text && array_len(value, span) is Ok ==> array_len(value, span)->Ok_0
            == ident_reading(value->Text_0@)->Ok_0,
{
}

// ---------------------------------------------------------------------------
// Accounts and events
// ---------------------------------------------------------------------------

/// The failure of a field of an account that is copied byte by byte.
pub open spec fn pod_refused(field: Field, owner: Seq<char>) -> Seq<GatedFailureView> {
    match account_field_message(field.ty, field_name(field), owner) {
        Some(message) => seq![
            GatedFailureView {
                cfg: conditions(field.attrs@),
                failure: diagnostic(type_span(field.ty), message),
            },
        ],
        None => Seq::empty(),
    }
}

/// The failures of fields of an account that is copied byte by byte, in order.
pub open spec fn pod_refused_in(fields: Seq<Field>, owner: Seq<char>) -> Seq<GatedFailureView>
    decreases fields.len(),
{
    if fields.len() == 0 {
        Seq::empty()
    } else {
        pod_refused(fields[0], owner) + pod_refused_in(fields.skip(1), owner)
    }
}

proof fn lemma_pod_refused_more(fields: Seq<Field>, last: Field, owner: Seq<char>)
    ensures
        pod_refused_in(fields.push(last), owner) == pod_refused_in(fields, owner) + pod_refused(
            last,
            owner,
        ),
    decreases fields.len(),
{
    let more = fields.push(last);
    let end = pod_refused(last, owner);
    if fields.len() == 0 {
        assert(more.skip(1) =~= fields);
    } else {
        lemma_pod_refused_more(fields.skip(1), last, owner);
        assert(more.skip(1) =~= fields.skip(1).push(last));
    }
    assert(pod_refused_in(more, owner) =~= pod_refused_in(fields, owner) + end);
}

proof fn lemma_pod_refused_in(fields: Seq<Field>, owner: Seq<char>)
    ensures
        pod_failures(fields, owner) == pod_refused_in(fields, owner),
    decreases fields.len(),
{
    if fields.len() > 0 {
        let before = fields.drop_last();
        lemma_pod_refused_in(before, owner);
        lemma_pod_refused_more(before, fields.last(), owner);
        assert(before.push(fields.last()) =~= fields);
        lemma_conditions(fields.last().attrs@);
        assert(pod_failures(fields, owner) =~= pod_failures(before, owner) + pod_refused(
            fields.last(),
            owner,
        ));
    }
}

/// An account must be a struct. The failures of its fields, each under the conditions of
/// the field, are those of a copy byte by byte without a mode, and those of an encoding
/// with one.
pub proof fn lemma_account_refused(
    attr: Seq<Token>,
    input: DeriveInput,
    idl: AccountIdl,
    entry: Option<Seq<char>>,
)
    ensures
        attr.len() == 0 && !(input.data is Struct) ==> account_expansion(attr, input, idl, entry)
            == Err::<ExpansionView, FailureView>(
            diagnostic(input.ident.span, "`#[account]` only supports structs"@),
        ),
        attr.len() == 0 && input.data is Struct && idl.repr is Ok ==> {
            let out = account_expansion(attr, input, idl, entry);
            &&& out is Ok
            &&& out->Ok_0.gated == pod_refused_in(
                named_fields_of(input.data->Struct_0),
                input.ident.text@,
            )
        },
        attr.len() == 0 && input.data is Struct ==> (idl.repr matches Err(failure)
            ==> account_expansion(attr, input, idl, entry) == Err::<ExpansionView, FailureView>(
            failure@,
        )),
        attr.len() > 0 && account_expansion(attr, input, idl, entry) is Ok ==> account_expansion(
            attr,
            input,
            idl,
            entry,
        )->Ok_0.gated == field_failures(
            "`#[account(borsh)]`"@,
            ""@,
            fields_of(input.data->Struct_0),
        ),
{
    if input.data is Struct {
        lemma_pod_refused_in(named_fields_of(input.data->Struct_0), input.ident.text@);
    }
}

/// An event must be a struct. Its layout must be one that can be described where it is
/// copied byte by byte, and is of no account where it is encoded.
pub proof fn lemma_event_refused(
    attr: Seq<Token>,
    input: DeriveInput,
    idl: EventIdl,
    disc: Seq<char>,
)
    ensures
        event_mode(attr) is Ok && !(input.data is Struct) ==> event_expansion(
            attr,
            input,
            idl,
            disc,
        ) == Err::<ExpansionView, FailureView>(
            diagnostic(input.ident.span, "`#[event]` only supports structs"@),
        ),
        event_mode(attr) is Ok && attr.len() > 0 && input.data is Struct ==> (idl.repr matches Err(
            failure,
        ) ==> event_expansion(attr, input, idl, disc) == Err::<ExpansionView, FailureView>(
            failure@,
        )),
        attr.len() == 0 && input.data is Struct ==> (event_expansion(attr, input, idl, disc) is Ok
            <==> item_name(
            "__anchor_private_print_idl_event_"@ + lowercase_of(input.ident.text@),
        ) is Ok),
{
}

/// An accounts struct must be a struct with named fields, 255 at most.
pub proof fn lemma_accounts_refused(input: DeriveInput, readings: AccountsReadings)
    requires
        item_name(input.ident.text@ + "Bumps"@) is Ok,
        crate::field_attrs::only_program_id(input.attrs@, None) is Ok,
    ensures
        !(input.data is Struct) ==> accounts_refusal(input, readings) == Some(
            diagnostic(input.ident.span, "`Accounts` derive only supports structs"@),
        ),
        input.data is Struct && !(input.data->Struct_0 is Named) ==> accounts_refusal(
            input,
            readings,
        ) == Some(diagnostic(input.ident.span, "`Accounts` derive only supports named fields"@)),
        input.data is Struct && input.data->Struct_0 is Named
            && input.data->Struct_0->Named_0@.len() > 255 ==> accounts_refusal(input, readings)
            == Some(
            diagnostic(input.ident.span, "`Accounts` derive supports at most 255 fields"@),
        ),
        accounts_refusal(input, readings) is None ==> {
            &&& input.data is Struct
            &&& input.data->Struct_0 is Named
            &&& input.data->Struct_0->Named_0@.len() <= 255
            &&& readings.fields is Ok
            &&& readings.summaries is Ok
        },
{
}

// ---------------------------------------------------------------------------
// Programs
// ---------------------------------------------------------------------------

/// Whether an argument of `#[program]` is the word `interface`.
pub open spec fn says_interface(arg: ArgView) -> bool {
    arg.kind is Path && arg.name == Some("interface"@)
}

/// Whether an argument of `#[program]` gives the address.
pub open spec fn gives_id(arg: ArgView) -> bool {
    arg.kind is NameValue && arg.name == Some("program_id"@)
}

/// The arguments of `#[program]` are the word `interface` and one address at most. The
/// program is an interface exactly where that word stands among them, and its address is
/// the one given, or else that of the crate.
pub proof fn lemma_program_configured(
    args: Seq<ArgView>,
    mode: ProgramMode,
    program_id: Option<(Seq<char>, Span)>,
)
    requires
        config_from(args, mode, program_id) is Ok,
    ensures
        ({
            let config = config_from(args, mode, program_id)->Ok_0;
            &&& config.mode == ProgramMode::Interface <==> mode == ProgramMode::Interface
                || exists|i: int| 0 <= i < args.len() && says_interface(#[trigger] args[i])
            &&& forall|i: int|
                0 <= i < args.len() ==> says_interface(#[trigger] args[i]) || gives_id(args[i])
            &&& forall|i: int|
                0 <= i < args.len() && gives_id(#[trigger] args[i]) ==> program_id is None
                    && config.program_id == args[i].kind->NameValue_0
            &&& (forall|i: int| 0 <= i < args.len() ==> !gives_id(#[trigger] args[i]))
                ==> config.program_id == (match program_id {
                Some((expr, _)) => expr,
                None => "crate::ID"@,
            })
        }),
    decreases args.len(),
{
    if args.len() > 0 {
        let arg = args[0];
        let rest = args.skip(1);
        let (next_mode, next_id) = if says_interface(arg) {
            (ProgramMode::Interface, program_id)
        } else {
            (mode, Some((arg.kind->NameValue_0, arg.path_span)))
        };
        lemma_program_configured(rest, next_mode, next_id);
        let config = config_from(args, mode, program_id)->Ok_0;
        assert(config_from(rest, next_mode, next_id) == config_from(args, mode, program_id));
        assert forall|i: int| 0 <= i < args.len() implies says_interface(#[trigger] args[i])
            || gives_id(args[i]) by {
            if i > 0 {
                assert(args[i] == rest[i - 1]);
            }
        }
        assert forall|i: int| 0 <= i < args.len() && gives_id(#[trigger] args[i]) implies program_id
            is None && config.program_id == args[i].kind->NameValue_0 by {
            if i > 0 {
                assert(args[i] == rest[i - 1]);
                assert(gives_id(rest[i - 1]));
            } else {
                assert forall|k: int| 0 <= k < rest.len() implies !gives_id(#[trigger] rest[k]) by {
                    if gives_id(rest[k]) {
                        assert(next_id is None);
                    }
                }
            }
        }
        if forall|i: int| 0 <= i < args.len() ==> !gives_id(#[trigger] args[i]) {
            assert(!gives_id(args[0]));
            assert forall|k: int| 0 <= k < rest.len() implies !gives_id(#[trigger] rest[k]) by {
                assert(rest[k] == args[k + 1]);
            }
        }
        if exists|i: int| 0 <= i < rest.len() && says_interface(#[trigger] rest[i]) {
            let i = choose|i: int| 0 <= i < rest.len() && says_interface(#[trigger] rest[i]);
            assert(args[i + 1] == rest[i]);
        }
        if exists|i: int| 0 <= i < args.len() && says_interface(#[trigger] args[i]) {
            let i = choose|i: int| 0 <= i < args.len() && says_interface(#[trigger] args[i]);
            if i > 0 {
                assert(rest[i - 1] == args[i]);
            }
        }
    }
}

} // verus!
