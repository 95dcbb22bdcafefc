//! What attributes, names and values mean.

use crate::attrs::{token_end, tokens_text, Attribute, Meta, Token};
use crate::cpi_accounts::{cpi_accounts_code, field_reading, option_of, phantom_lifetime};
use crate::declared_program::{declared_program, discriminators_check};
use crate::failure::{diagnostic, FailureView, Span};
use crate::field_attrs::{
    field_metas, first_program_id, meta_options, nested_attr, only_program_id, only_signer,
    signer_in, with_meta_option, AccountMetaAttrs,
};
use crate::instruction_attrs::{declared_args, declared_list, declared_name, declared_type, IxArg};
use crate::items::{DeriveInput, Field};
use crate::json::{array_at, item_texts, json_text, member_of, member_texts, text_at, Json, Member};
use crate::modes::{account_words, event_mode, mode_of, EventMode};
use crate::names::snake_case;
use crate::nested_meta::{
    not_a_list, option_end, option_name, option_path, path_before, punct_at, unexpected, OptionPath,
};
use crate::outside::{expr_reading, ident_reading, json_quoted, meta_reading};
use crate::passages::{lemma_joined_parted, parted};
use crate::pod_fields::{account_field_message, event_field_message, type_ident};
use crate::program::{
    discrims_check, generated, given_discrims, handlers_in, program_code, refusals, GeneratedView,
    ProgramModule,
};
use crate::program_config::{
    arg_between, args_from, config_from, path_end_of, ArgKindView, ArgView, ConfigView,
    ProgramConfig, ProgramMode,
};
use crate::reading::source_text;
use crate::syntax::{type_span, Ident, Type};
use crate::text::{decimal, has_prefix};
use crate::type_parts::FieldReading;
use crate::wincode::{
    option_kind, skip_option_end, unsupported_attr, wincode_attr, wincode_failure,
    wincode_option_end, wincode_options, Found, UnsupportedWincodeAttrKind,
};
use vstd::prelude::*;

verus! {

// ---------------------------------------------------------------------------
// The program of accounts
// ---------------------------------------------------------------------------

/// Whether an attribute gives the program of accounts.
pub open spec fn gives_program(attr: Attribute) -> bool {
    attr.path@ == "accounts_program_id"@
}

/// The program that an attribute gives, in brackets or as a string.
pub open spec fn program_given(attr: Attribute) -> Seq<char> {
    match attr.meta {
        Meta::List { tokens, .. } => expr_reading(source_text(tokens@))->Ok_0,
        Meta::NameValue { value, .. } => expr_reading(value.kind->Text_0@)->Ok_0,
        Meta::Path => Seq::empty(),
    }
}

/// The program of accounts is the one that an attribute gives, or else that of the crate.
pub proof fn lemma_program_given(attrs: Seq<Attribute>, at: int)
    requires
        0 <= at <= attrs.len(),
        forall|i: int| 0 <= i < at ==> !gives_program(#[trigger] attrs[i]),
        at < attrs.len() ==> gives_program(attrs[at]),
    ensures
        at == attrs.len() ==> first_program_id(attrs) == Ok::<Seq<char>, FailureView>("crate::ID"@),
        at < attrs.len() && first_program_id(attrs) is Ok ==> first_program_id(attrs)->Ok_0
            == program_given(attrs[at]),
        at < attrs.len() && attrs[at].meta is Path ==> first_program_id(attrs) == Err::<
            Seq<char>,
            FailureView,
        >(
            diagnostic(
                attrs[at].span,
                "expected #[accounts_program_id(expr)] or #[accounts_program_id = \"expr\"]"@,
            ),
        ),
    decreases attrs.len(),
{
    if at > 0 {
        assert(!gives_program(attrs[0]));
        let rest = attrs.skip(1);
        assert forall|i: int| 0 <= i < at - 1 implies !gives_program(#[trigger] rest[i]) by {
            assert(rest[i] == attrs[i + 1]);
        }
        lemma_program_given(rest, at - 1);
    }
}

/// An accounts struct gives its program once at most: a second attribute is refused, and
/// the one that is there counts.
pub proof fn lemma_program_once(attrs: Seq<Attribute>, seen: Option<Seq<char>>)
    requires
        only_program_id(attrs, seen) is Ok,
    ensures
        forall|i: int, j: int|
            0 <= i < j < attrs.len() ==> !(gives_program(#[trigger] attrs[i]) && gives_program(
                #[trigger] attrs[j],
            )),
        forall|i: int|
            0 <= i < attrs.len() && gives_program(#[trigger] attrs[i]) ==> seen is None
                && only_program_id(attrs, seen)->Ok_0 == program_given(attrs[i]),
        (forall|i: int| 0 <= i < attrs.len() ==> !gives_program(#[trigger] attrs[i]))
            ==> only_program_id(attrs, seen)->Ok_0 == (match seen {
            Some(expr) => expr,
            None => "crate::ID"@,
        }),
    decreases attrs.len(),
{
    if attrs.len() > 0 {
        let rest = attrs.skip(1);
        let next = if gives_program(attrs[0]) {
            Some(program_given(attrs[0]))
        } else {
            seen
        };
        lemma_program_once(rest, next);
        assert(only_program_id(attrs, seen) == only_program_id(rest, next));
        assert forall|i: int| 0 <= i < attrs.len() && gives_program(#[trigger] attrs[i]) implies seen
            is None && only_program_id(attrs, seen)->Ok_0 == program_given(attrs[i]) by {
            if i > 0 {
                assert(rest[i - 1] == attrs[i]);
                assert(gives_program(rest[i - 1]));
            } else {
                assert forall|k: int| 0 <= k < rest.len() implies !gives_program(
                    #[trigger] rest[k],
                ) by {
                    if gives_program(rest[k]) {
                        assert(next is None);
                    }
                }
            }
        }
        assert forall|i: int, j: int| 0 <= i < j < attrs.len() implies !(gives_program(
            #[trigger] attrs[i],
        ) && gives_program(#[trigger] attrs[j])) by {
            assert(rest[j - 1] == attrs[j]);
            if i > 0 {
                assert(rest[i - 1] == attrs[i]);
            } else if gives_program(attrs[0]) && gives_program(attrs[j]) {
                assert(gives_program(rest[j - 1]));
                assert(next is None);
            }
        }
        if forall|i: int| 0 <= i < attrs.len() ==> !gives_program(#[trigger] attrs[i]) {
            assert(!gives_program(attrs[0]));
            assert forall|k: int| 0 <= k < rest.len() implies !gives_program(#[trigger] rest[k]) by {
                assert(rest[k] == attrs[k + 1]);
            }
        }
    }
}

// ---------------------------------------------------------------------------
// Accounts of a call
// ---------------------------------------------------------------------------

/// What a field of the accounts of a call may not combine.
pub proof fn lemma_field_refused(field: Field)
    ensures
        field_metas(field) is Ok && only_signer(field.attrs@, None) is Ok && nested_attr(
            field.attrs@,
            false,
        ) is Ok ==> {
            let skip = field_metas(field)->Ok_0.skip;
            let signer = only_signer(field.attrs@, None)->Ok_0;
            let nested = nested_attr(field.attrs@, false)->Ok_0;
            &&& skip && signer is Some ==> field_reading(field) == Err::<
                Option<crate::cpi_accounts::FieldReading>,
                FailureView,
            >(
                diagnostic(
                    field.span,
                    "#[account_meta(skip)] cannot be combined with #[signer]"@,
                ),
            )
            &&& skip && signer is None && nested ==> field_reading(field) == Err::<
                Option<crate::cpi_accounts::FieldReading>,
                FailureView,
            >(
                diagnostic(
                    field.span,
                    "#[account_meta(skip)] cannot be combined with #[nested]"@,
                ),
            )
            &&& skip && signer is None && !nested ==> field_reading(field) == Ok::<
                Option<crate::cpi_accounts::FieldReading>,
                FailureView,
            >(None)
            &&& !skip && nested && signer is Some ==> field_reading(field) == Err::<
                Option<crate::cpi_accounts::FieldReading>,
                FailureView,
            >(diagnostic(field.span, "#[nested] cannot be combined with #[signer]"@))
            &&& !skip && nested && signer is None && option_of(field.ty) is Some ==> field_reading(
                field,
            ) == Err::<Option<crate::cpi_accounts::FieldReading>, FailureView>(
                diagnostic(type_span(field.ty), "#[nested] fields cannot be wrapped in Option"@),
            )
            &&& !skip && !nested && signer is Some && phantom_lifetime(field.ty) is Some
                ==> field_reading(field) == Err::<
                Option<crate::cpi_accounts::FieldReading>,
                FailureView,
            >(diagnostic(field.span, "PhantomData fields cannot be combined with #[signer]"@))
        },
{
}

/// The accounts of a call are a struct with named fields, of which one at least is an
/// account.
pub proof fn lemma_call_refused(input: DeriveInput)
    ensures
        !(input.data is Struct) ==> cpi_accounts_code(input) == Err::<Seq<char>, FailureView>(
            diagnostic(input.span, "ToCpiAccounts can only be derived for structs"@),
        ),
        input.data is Struct && !(input.data->Struct_0 is Named) ==> cpi_accounts_code(input)
            == Err::<Seq<char>, FailureView>(
            diagnostic(
                input.span,
                "ToCpiAccounts can only be derived for structs with named fields"@,
            ),
        ),
        input.data is Struct && input.data->Struct_0 is Named
            && input.data->Struct_0->Named_0@.len() == 0 && first_program_id(input.attrs@) is Ok
            ==> cpi_accounts_code(input) == Err::<Seq<char>, FailureView>(
            diagnostic(
                input.span,
                "ToCpiAccounts requires at least one CpiHandle or CpiHandleMut field"@,
            ),
        ),
{
}

/// A signer and a nested struct are marked once at most.
pub proof fn lemma_marked_once(attrs: Seq<Attribute>, i: int, j: int)
    requires
        0 <= i < j < attrs.len(),
    ensures
        attrs[i].path@ == "signer"@ && attrs[j].path@ == "signer"@ ==> only_signer(attrs, None)
            is Err,
        attrs[i].path@ == "nested"@ && attrs[j].path@ == "nested"@ ==> nested_attr(attrs, false)
            is Err,
{
    lemma_signer_twice(attrs, None, i, j);
    lemma_nested_twice(attrs, false, i, j);
}

proof fn lemma_signer_seen(attrs: Seq<Attribute>, seen: Option<Seq<char>>, j: int)
    requires
        0 <= j < attrs.len(),
        seen is Some,
        attrs[j].path@ == "signer"@,
    ensures
        only_signer(attrs, seen) is Err,
    decreases attrs.len(),
{
    if j > 0 {
        assert(attrs.skip(1)[j - 1] == attrs[j]);
        lemma_signer_seen(attrs.skip(1), seen, j - 1);
    }
}

proof fn lemma_signer_twice(attrs: Seq<Attribute>, seen: Option<Seq<char>>, i: int, j: int)
    requires
        0 <= i < j < attrs.len(),
    ensures
        attrs[i].path@ == "signer"@ && attrs[j].path@ == "signer"@ ==> only_signer(attrs, seen)
            is Err,
    decreases attrs.len(),
{
    let rest = attrs.skip(1);
    assert(rest[j - 1] == attrs[j]);
    if attrs[i].path@ == "signer"@ && attrs[j].path@ == "signer"@ {
        if attrs[0].path@ == "signer"@ {
            if seen is None && signer_in(attrs[0]) is Ok {
                lemma_signer_seen(rest, Some(signer_in(attrs[0])->Ok_0), j - 1);
            }
        } else {
            assert(rest[i - 1] == attrs[i]);
            lemma_signer_twice(rest, seen, i - 1, j - 1);
        }
    }
}

proof fn lemma_nested_seen(attrs: Seq<Attribute>, j: int)
    requires
        0 <= j < attrs.len(),
        attrs[j].path@ == "nested"@,
    ensures
        nested_attr(attrs, true) is Err,
    decreases attrs.len(),
{
    if j > 0 {
        assert(attrs.skip(1)[j - 1] == attrs[j]);
        lemma_nested_seen(attrs.skip(1), j - 1);
    }
}

proof fn lemma_nested_twice(attrs: Seq<Attribute>, seen: bool, i: int, j: int)
    requires
        0 <= i < j < attrs.len(),
    ensures
        attrs[i].path@ == "nested"@ && attrs[j].path@ == "nested"@ ==> nested_attr(attrs, seen)
            is Err,
    decreases attrs.len(),
{
    let rest = attrs.skip(1);
    assert(rest[j - 1] == attrs[j]);
    if attrs[i].path@ == "nested"@ && attrs[j].path@ == "nested"@ {
        if attrs[0].path@ == "nested"@ {
            lemma_nested_seen(rest, j - 1);
        } else {
            assert(rest[i - 1] == attrs[i]);
            lemma_nested_twice(rest, seen, i - 1, j - 1);
        }
    }
}

// ---------------------------------------------------------------------------
// Arguments of an instruction
// ---------------------------------------------------------------------------

proof fn lemma_list_adds(tokens: Seq<Token>, pos: int, close: Span, args: Seq<IxArg>)
    requires
        declared_list(tokens, pos, close, args) is Ok,
    ensures
        ({
            let out = declared_list(tokens, pos, close, args)->Ok_0;
            &&& out.len() >= args.len()
            &&& out.take(args.len() as int) == args
            &&& forall|i: int|
                args.len() <= i < out.len() ==> !has_prefix(
                    (#[trigger] out[i]).name.text@,
                    "__"@,
                )
        }),
    decreases tokens.len() - pos,
{
    let out = declared_list(tokens, pos, close, args)->Ok_0;
    if 0 <= pos < tokens.len() {
        let name = declared_name(tokens, pos, close)->Ok_0;
        let (ty, end) = crate::instruction_attrs::declared_type(tokens, pos + 2, close)->Ok_0;
        let more = args.push(IxArg { name, ty });
        assert(!has_prefix(name.text@, "__"@));
        assert(more.take(args.len() as int) =~= args);
        if end < tokens.len() && end >= pos {
            lemma_list_adds(tokens, end + 1, close, more);
            assert(out.take(args.len() as int) =~= out.take(more.len() as int).take(
                args.len() as int,
            ));
            assert forall|i: int| args.len() <= i < out.len() implies !has_prefix(
                (#[trigger] out[i]).name.text@,
                "__"@,
            ) by {
                if i == args.len() {
                    assert(out.take(more.len() as int)[i] == more[i]);
                }
            }
        }
    } else {
        assert(out.take(args.len() as int) =~= args);
    }
}

/// The arguments that attributes declare add up in order, and none of their names is one
/// that generated code uses. Other attributes declare none.
pub proof fn lemma_args_add_up(attrs: Seq<Attribute>, args: Seq<IxArg>)
    requires
        declared_args(attrs, args) is Ok,
    ensures
        ({
            let out = declared_args(attrs, args)->Ok_0;
            &&& out.len() >= args.len()
            &&& out.take(args.len() as int) == args
            &&& forall|i: int|
                args.len() <= i < out.len() ==> !has_prefix(
                    (#[trigger] out[i]).name.text@,
                    "__"@,
                )
            &&& (forall|i: int|
                0 <= i < attrs.len() ==> (#[trigger] attrs[i]).path@ != "instruction"@)
                ==> out == args
        }),
    decreases attrs.len(),
{
    let out = declared_args(attrs, args)->Ok_0;
    if attrs.len() > 0 {
        let rest = attrs.skip(1);
        if attrs[0].path@ != "instruction"@ {
            lemma_args_add_up(rest, args);
            if forall|i: int|
                0 <= i < attrs.len() ==> (#[trigger] attrs[i]).path@ != "instruction"@ {
                assert forall|i: int| 0 <= i < rest.len() implies (#[trigger] rest[i]).path@
                    != "instruction"@ by {
                    assert(rest[i] == attrs[i + 1]);
                }
            }
        } else {
            assert(attrs[0].meta is List);
            let tokens = attrs[0].meta->List_tokens@;
            let close = attrs[0].meta->List_close;
            let more = declared_list(tokens, 0, close, args)->Ok_0;
            lemma_list_adds(tokens, 0, close, args);
            lemma_args_add_up(rest, more);
            assert(out.take(args.len() as int) =~= out.take(more.len() as int).take(
                args.len() as int,
            ));
            assert forall|i: int| args.len() <= i < out.len() implies !has_prefix(
                (#[trigger] out[i]).name.text@,
                "__"@,
            ) by {
                if i < more.len() {
                    assert(out.take(more.len() as int)[i] == more[i]);
                }
            }
        }
    } else {
        assert(out.take(args.len() as int) =~= args);
    }
}

// ---------------------------------------------------------------------------
// Encodings and modes
// ---------------------------------------------------------------------------

/// Options that change how a value is encoded are those with these names, and each is
/// refused with its own reason.
pub proof fn lemma_encoding_refused(
    surface: Seq<char>,
    attrs: Seq<Attribute>,
    tokens: Seq<Token>,
    path: OptionPath,
)
    ensures
        option_name(tokens, path) == Some("skip"@) ==> option_kind(tokens, path) == Some(
            UnsupportedWincodeAttrKind::Skip,
        ),
        option_name(tokens, path) == Some("with"@) ==> option_kind(tokens, path) == Some(
            UnsupportedWincodeAttrKind::With,
        ),
        option_name(tokens, path) == Some("tag_encoding"@) ==> option_kind(tokens, path) == Some(
            UnsupportedWincodeAttrKind::TagEncoding,
        ),
        option_kind(tokens, path) is Some ==> option_name(tokens, path) == Some("skip"@)
            || option_name(tokens, path) == Some("with"@) || option_name(tokens, path) == Some(
            "tag_encoding"@,
        ),
        (forall|i: int| 0 <= i < attrs.len() ==> (#[trigger] attrs[i]).path@ != "wincode"@)
            ==> wincode_failure(surface, attrs) is None,
        unsupported_attr(attrs) matches Ok(Some((kind, span))) ==> wincode_failure(surface, attrs)
            == Some(
            diagnostic(
                span,
                surface + (match kind {
                    UnsupportedWincodeAttrKind::Skip => " does not support `#[wincode(skip)]` fields because generated IDL would not match the serialized wire layout; remove the override or exclude this type from generated IDL"@,
                    UnsupportedWincodeAttrKind::With => " does not support `#[wincode(with = ...)]` fields because custom wincode codecs can change the serialized wire layout; remove the override or exclude this type from generated IDL"@,
                    UnsupportedWincodeAttrKind::TagEncoding => " does not support `#[wincode(tag_encoding = ...)]` because generated IDL assumes borsh's 1-byte enum discriminant; remove the override or exclude this type from generated IDL"@,
                }),
            ),
        ),
    decreases attrs.len(),
{
    reveal_strlit("skip");
    reveal_strlit("with");
    reveal_strlit("tag_encoding");
    assert("skip"@[0] == 's' && "with"@[0] == 'w' && "tag_encoding"@[0] == 't');
    if attrs.len() > 0 && attrs[0].path@ != "wincode"@ {
        lemma_encoding_refused(surface, attrs.skip(1), tokens, path);
        if forall|i: int| 0 <= i < attrs.len() ==> (#[trigger] attrs[i]).path@ != "wincode"@ {
            assert forall|i: int| 0 <= i < attrs.skip(1).len() implies (
            #[trigger] attrs.skip(1)[i]).path@ != "wincode"@ by {
                assert(attrs.skip(1)[i] == attrs[i + 1]);
            }
        }
    }
}

/// An account is encoded with the word `borsh`, an event copied with the word `bytemuck`,
/// and no other word is a mode.
pub proof fn lemma_modes(tokens: Seq<Token>)
    ensures
        tokens.len() == 0 ==> mode_of(tokens, account_words()) == Ok::<bool, FailureView>(false),
        tokens.len() == 0 ==> event_mode(tokens) == Ok::<EventMode, FailureView>(
            EventMode::Wincode,
        ),
        tokens.len() > 0 ==> (mode_of(tokens, account_words()) is Ok <==> (ident_reading(
            tokens_text(tokens),
        ) matches Ok(word) && word == "borsh"@)),
        tokens.len() > 0 ==> (event_mode(tokens) is Ok <==> (ident_reading(
            tokens_text(tokens),
        ) matches Ok(word) && word == "bytemuck"@)),
        tokens.len() > 0 && event_mode(tokens) is Ok ==> event_mode(tokens)->Ok_0
            == EventMode::Bytemuck,
        tokens.len() > 0 && mode_of(tokens, account_words()) is Ok ==> mode_of(
            tokens,
            account_words(),
        )->Ok_0,
{
}

/// What is no mode is pointed at: whether it is a word at all, and which word is accepted.
pub proof fn lemma_modes_refused(tokens: Seq<Token>)
    requires
        tokens.len() > 0,
    ensures
        ({
            let span = Span { start: tokens[0].span.start, end: token_end(tokens.last()) };
            let word = ident_reading(tokens_text(tokens));
            &&& word is Err ==> mode_of(tokens, account_words()) == Err::<bool, FailureView>(
                diagnostic(
                    span,
                    "expected `#[account]` or `#[account(borsh)]` — no other arguments are supported"@,
                ),
            )
            &&& word is Ok && word->Ok_0 != "borsh"@ ==> mode_of(tokens, account_words()) == Err::<
                bool,
                FailureView,
            >(diagnostic(span, "unknown `#[account]` mode — only `borsh` is accepted"@))
            &&& word is Err ==> event_mode(tokens) == Err::<EventMode, FailureView>(
                diagnostic(
                    span,
                    "expected `#[event]` or `#[event(bytemuck)]` — no other arguments are supported"@,
                ),
            )
            &&& word is Ok && word->Ok_0 != "bytemuck"@ ==> event_mode(tokens) == Err::<
                EventMode,
                FailureView,
            >(diagnostic(span, "unknown `#[event]` mode — only `bytemuck` is accepted"@))
        }),
{
}

/// A field of an account that is copied byte by byte is refused exactly where its type is
/// one of these; one of an event, where it is one of those and some more.
pub proof fn lemma_types_refused(ty: Type, field: Seq<char>, owner: Seq<char>)
    ensures
        ({
            let both = seq!["Vec"@, "String"@, "Option"@, "Box"@, "Rc"@, "Arc"@, "bool"@];
            let more = seq![
                "Cow"@,
                "Weak"@,
                "HashMap"@,
                "HashSet"@,
                "BTreeMap"@,
                "BTreeSet"@,
                "BinaryHeap"@,
                "LinkedList"@,
                "VecDeque"@,
            ];
            &&& account_field_message(ty, field, owner) is Some <==> (type_ident(ty) matches Some(
                name,
            ) && both.contains(name))
            &&& event_field_message(ty, field) is Some <==> (type_ident(ty) matches Some(name)
                && (both.contains(name) || more.contains(name)))
        }),
{
    let both = seq!["Vec"@, "String"@, "Option"@, "Box"@, "Rc"@, "Arc"@, "bool"@];
    assert(both[0] == "Vec"@ && both[1] == "String"@ && both[2] == "Option"@ && both[3] == "Box"@);
    assert(both[4] == "Rc"@ && both[5] == "Arc"@ && both[6] == "bool"@);
    let more = seq![
        "Cow"@,
        "Weak"@,
        "HashMap"@,
        "HashSet"@,
        "BTreeMap"@,
        "BTreeSet"@,
        "BinaryHeap"@,
        "LinkedList"@,
        "VecDeque"@,
    ];
    assert(more[0] == "Cow"@ && more[1] == "Weak"@ && more[2] == "HashMap"@ && more[3]
        == "HashSet"@);
    assert(more[4] == "BTreeMap"@ && more[5] == "BTreeSet"@ && more[6] == "BinaryHeap"@);
    assert(more[7] == "LinkedList"@ && more[8] == "VecDeque"@);
}

// ---------------------------------------------------------------------------
// Names and numbers
// ---------------------------------------------------------------------------

/// In snake case a capital becomes a small letter, with an underscore before it unless it
/// comes first; dashes and spaces become underscores; all else stays.
pub proof fn lemma_snake_grows(name: Seq<char>, ch: char)
    ensures
        snake_case(Seq::empty()) == Seq::<char>::empty(),
        ch == '-' || ch == ' ' ==> snake_case(name.push(ch)) == snake_case(name) + seq!['_'],
        'A' <= ch <= 'Z' && name.len() > 0 ==> snake_case(name.push(ch)) == snake_case(name)
            + seq!['_', ((ch as u32) + 32) as char],
        'A' <= ch <= 'Z' && name.len() == 0 ==> snake_case(name.push(ch)) == seq![
            ((ch as u32) + 32) as char,
        ],
        ch != '-' && ch != ' ' && !('A' <= ch <= 'Z') ==> snake_case(name.push(ch)) == snake_case(
            name,
        ).push(ch),
{
    let more = name.push(ch);
    assert(more.drop_last() =~= name);
    if name.len() == 0 {
        assert(snake_case(name) =~= Seq::<char>::empty());
    }
    if ch != '-' && ch != ' ' && !('A' <= ch <= 'Z') {
        assert(snake_case(more) =~= snake_case(name).push(ch));
    }
    if 'A' <= ch <= 'Z' && name.len() == 0 {
        assert(snake_case(more) =~= seq![((ch as u32) + 32) as char]);
    }
}

/// A number is written with its digits, the highest first and none in vain.
pub proof fn lemma_decimal_grows(n: nat, d: nat)
    requires
        d < 10,
    ensures
        decimal(d) == seq![((d + 48) as u32) as char],
        n > 0 ==> decimal(10 * n + d) == decimal(n).push(((d + 48) as u32) as char),
{
    if n > 0 {
        assert((10 * n + d) / 10 == n) by (nonlinear_arith)
            requires
                d < 10,
        ;
        assert((10 * n + d) % 10 == d) by (nonlinear_arith)
            requires
                d < 10,
        ;
    }
}

/// JSON is written without spaces: an array with its items and an object with its members,
/// all in order.
pub proof fn lemma_json_written(value: Json)
    ensures
        value is Null ==> json_text(value) == "null"@,
        value == Json::Bool(true) ==> json_text(value) == "true"@,
        value == Json::Bool(false) ==> json_text(value) == "false"@,
        value is Number ==> json_text(value) == decimal(value->Number_0 as nat),
        value is Text ==> json_text(value) == json_quoted(value->Text_0@),
        value is Array ==> json_text(value) == "["@ + parted(
            value->Array_0@.map_values(|item: Json| json_text(item)),
            ","@,
        ) + "]"@,
        value is Object ==> json_text(value) == "{"@ + parted(
            value->Object_0@.map_values(
                |member: Member| json_quoted(member.key@) + ":"@ + json_text(member.value),
            ),
            ","@,
        ) + "}"@,
{
    if value is Array {
        lemma_items_written(value->Array_0@);
        lemma_joined_parted(item_texts(value->Array_0@), ","@);
    }
    if value is Object {
        lemma_members_written(value->Object_0@);
        lemma_joined_parted(member_texts(value->Object_0@), ","@);
    }
}

proof fn lemma_items_written(items: Seq<Json>)
    ensures
        item_texts(items) == items.map_values(|item: Json| json_text(item)),
    decreases items.len(),
{
    let said = items.map_values(|item: Json| json_text(item));
    if items.len() > 0 {
        lemma_items_written(items.drop_last());
    }
    assert(item_texts(items) =~= said);
}

proof fn lemma_members_written(members: Seq<Member>)
    ensures
        member_texts(members) == members.map_values(
            |member: Member| json_quoted(member.key@) + ":"@ + json_text(member.value),
        ),
    decreases members.len(),
{
    let said = members.map_values(
        |member: Member| json_quoted(member.key@) + ":"@ + json_text(member.value),
    );
    if members.len() > 0 {
        lemma_members_written(members.drop_last());
    }
    assert(member_texts(members) =~= said);
}

// ---------------------------------------------------------------------------
// Failures of programs
// ---------------------------------------------------------------------------

proof fn lemma_refusal_listed(all: Seq<GeneratedView>, i: int)
    requires
        0 <= i < all.len(),
        all[i].code.error is Some,
    ensures
        refusals(all).contains(all[i].code.error->Some_0),
    decreases all.len(),
{
    let before = refusals(all.drop_last());
    if i < all.len() - 1 {
        let failure = all[i].code.error->Some_0;
        lemma_refusal_listed(all.drop_last(), i);
        let k = choose|k: int| 0 <= k < before.len() && before[k] == failure;
        assert(refusals(all)[k] == failure);
    } else {
        assert(refusals(all)[before.len() as int] == all[i].code.error->Some_0);
    }
}

/// A program without a body is refused, and so is one of whose handlers any is: then the
/// reasons of all refused handlers are given.
pub proof fn lemma_program_refused(
    module: ProgramModule,
    config: ProgramConfig,
    idl: Seq<crate::handler::HandlerIdl>,
    discs: Seq<Seq<char>>,
    event_authority: Option<Vec<u8>>,
    i: int,
)
    ensures
        ({
            let out = program_code(module, config, idl, discs, event_authority);
            let handlers = handlers_in(module.items->Some_0@);
            let discrims = given_discrims(handlers)->Ok_0;
            let made = generated(
                handlers,
                module.ident.text@,
                discrims,
                config.program_id@,
                idl,
                discs,
            );
            &&& module.items is None ==> out == Err::<Seq<char>, Seq<FailureView>>(
                seq![
                    diagnostic(
                        module.ident.span,
                        "`#[program]` module must have an inline body"@,
                    ),
                ],
            )
            &&& module.items is Some && given_discrims(handlers) is Ok && discrims_check(
                handlers,
                discrims,
                config.mode,
            ) is Ok && made is Ok && 0 <= i < made->Ok_0.len() && made->Ok_0[i].code.error is Some
                ==> out is Err && out->Err_0.contains(made->Ok_0[i].code.error->Some_0)
        }),
{
    let handlers = handlers_in(module.items->Some_0@);
    let discrims = given_discrims(handlers)->Ok_0;
    let made = generated(
        handlers,
        module.ident.text@,
        discrims,
        config.program_id@,
        idl,
        discs,
    );
    if made is Ok && 0 <= i < made->Ok_0.len() && made->Ok_0[i].code.error is Some {
        lemma_refusal_listed(made->Ok_0, i);
    }
}

/// A description must give the address of the program and its instructions, and its
/// discriminators must tell apart what they stand for.
pub proof fn lemma_description_refused(
    name: Ident,
    idl: Json,
    path: Seq<char>,
    readings: Seq<Vec<FieldReading>>,
)
    ensures
        ({
            let out = declared_program(name, idl, path, readings);
            let top = member_of(idl, "address"@);
            let among = match member_of(idl, "metadata"@) {
                Some(metadata) => text_at(metadata, "address"@),
                None => None,
            };
            let given = match top {
                Some(value) => value is Text,
                None => among is Some,
            };
            &&& !given ==> out == Err::<Seq<char>, FailureView>(
                diagnostic(name.span, "IDL is missing program address"@),
            )
            &&& given && array_at(idl, "instructions"@) is None ==> out == Err::<
                Seq<char>,
                FailureView,
            >(diagnostic(name.span, "IDL is missing instructions array"@))
            &&& given && array_at(idl, "instructions"@) is Some && discriminators_check(
                idl,
                name.span,
            ) is Err ==> out is Err
        }),
{
}

// ---------------------------------------------------------------------------
// Lists in attributes
// ---------------------------------------------------------------------------

/// Where a list of arguments goes on, it declares the argument that stands there: its name
/// is the word there, and its type is what is read behind the colon.
pub proof fn lemma_argument_declared(
    tokens: Seq<Token>,
    pos: int,
    close: Span,
    args: Seq<IxArg>,
)
    requires
        declared_list(tokens, pos, close, args) is Ok,
        0 <= pos < tokens.len(),
    ensures
        ({
            let out = declared_list(tokens, pos, close, args)->Ok_0;
            let next = out[args.len() as int];
            &&& out.len() > args.len()
            &&& tokens[pos].kind is Word
            &&& next.name.text@ == tokens[pos].kind->Word_0@
            &&& next.name.span == tokens[pos].span
            &&& Ok::<Type, FailureView>(next.ty) == (match declared_type(tokens, pos + 2, close) {
                Ok((ty, _)) => Ok(ty),
                Err(failure) => Err(failure),
            })
        }),
{
    let name = declared_name(tokens, pos, close)->Ok_0;
    let (ty, end) = declared_type(tokens, pos + 2, close)->Ok_0;
    let more = args.push(IxArg { name, ty });
    let out = declared_list(tokens, pos, close, args)->Ok_0;
    if end < tokens.len() && end >= pos {
        lemma_list_adds(tokens, end + 1, close, more);
        assert(out.take(more.len() as int)[args.len() as int] == more[args.len() as int]);
    }
}

proof fn lemma_metas_stay(tokens: Seq<Token>, pos: int, close: Span, so_far: AccountMetaAttrs)
    requires
        meta_options(tokens, pos, close, so_far) is Ok,
    ensures
        ({
            let now = meta_options(tokens, pos, close, so_far)->Ok_0;
            &&& so_far.skip ==> now.skip
            &&& so_far.duplicate_readonly ==> now.duplicate_readonly
        }),
    decreases tokens.len() - pos,
{
    let path = option_path(tokens, pos, close)->Ok_0;
    let now = with_meta_option(tokens, path, so_far)->Ok_0;
    if let Some(next) = option_end(tokens, path.next as int, close)->Ok_0 {
        if next > pos {
            lemma_metas_stay(tokens, next, close, now);
        }
    }
}

/// An option of `account_meta` that is set stays set: `skip` where a field says it, and
/// `duplicate_readonly` likewise.
pub proof fn lemma_metas_set(tokens: Seq<Token>, pos: int, close: Span, so_far: AccountMetaAttrs)
    requires
        meta_options(tokens, pos, close, so_far) is Ok,
    ensures
        ({
            let now = meta_options(tokens, pos, close, so_far)->Ok_0;
            let name = option_name(tokens, option_path(tokens, pos, close)->Ok_0);
            &&& so_far.skip ==> now.skip
            &&& so_far.duplicate_readonly ==> now.duplicate_readonly
            &&& name == Some("skip"@) ==> now.skip
            &&& name == Some("duplicate_readonly"@) ==> now.duplicate_readonly
            &&& name == Some("skip"@) || name == Some("duplicate_readonly"@)
        }),
{
    reveal_strlit("skip");
    reveal_strlit("duplicate_readonly");
    assert("skip"@.len() != "duplicate_readonly"@.len());
    lemma_metas_stay(tokens, pos, close, so_far);
    let path = option_path(tokens, pos, close)->Ok_0;
    let now = with_meta_option(tokens, path, so_far)->Ok_0;
    if let Some(next) = option_end(tokens, path.next as int, close)->Ok_0 {
        if next > pos {
            lemma_metas_stay(tokens, next, close, now);
        }
    }
}

/// An attribute whose options change how a value is encoded is found: an option of that
/// kind is never lost, and the first attribute with one counts.
pub proof fn lemma_override_found(tokens: Seq<Token>, pos: int, close: Span, found: Found)
    requires
        wincode_options(tokens, pos, close, found) is Ok,
    ensures
        ({
            let out = wincode_options(tokens, pos, close, found)->Ok_0;
            let path = option_path(tokens, pos, close)->Ok_0;
            &&& found is Some || option_kind(tokens, path) is Some ==> out is Some
        }),
    decreases tokens.len() - pos,
{
    let path = option_path(tokens, pos, close)->Ok_0;
    let end = wincode_option_end(tokens, path, close)->Ok_0;
    let now = match option_kind(tokens, path) {
        Some(kind) => Some((kind, crate::wincode::option_span(tokens, pos, path))),
        None => found,
    };
    if let Some(next) = option_end(tokens, end, close)->Ok_0 {
        if next > pos {
            lemma_override_found(tokens, next, close, now);
        }
    }
}

/// Attributes of other names are passed over in the search for options that change how a
/// value is encoded; the first `wincode` attribute that holds one decides.
pub proof fn lemma_override_first(attrs: Seq<Attribute>, at: int)
    requires
        0 <= at < attrs.len(),
        forall|i: int| 0 <= i < at ==> (#[trigger] attrs[i]).path@ != "wincode"@,
        attrs[at].path@ == "wincode"@,
    ensures
        wincode_attr(attrs[at]) != Ok::<Found, FailureView>(None) ==> unsupported_attr(attrs)
            == wincode_attr(attrs[at]),
        wincode_attr(attrs[at]) == Ok::<Found, FailureView>(None) ==> unsupported_attr(attrs)
            == unsupported_attr(attrs.skip(at + 1)),
    decreases attrs.len(),
{
    if at > 0 {
        assert(attrs[0].path@ != "wincode"@);
        let rest = attrs.skip(1);
        assert(rest[at - 1] == attrs[at]);
        assert forall|i: int| 0 <= i < at - 1 implies (#[trigger] rest[i]).path@ != "wincode"@ by {
            assert(rest[i] == attrs[i + 1]);
        }
        lemma_override_first(rest, at - 1);
        assert(rest.skip(at) =~= attrs.skip(at + 1));
    }
}

proof fn lemma_args_stay(tokens: Seq<Token>, pos: int, close: Span, args: Seq<ArgView>)
    requires
        args_from(tokens, pos, close, args) is Ok,
    ensures
        args_from(tokens, pos, close, args)->Ok_0.len() >= args.len(),
        args_from(tokens, pos, close, args)->Ok_0.take(args.len() as int) == args,
    decreases tokens.len() - pos,
{
    let out = args_from(tokens, pos, close, args)->Ok_0;
    if 0 <= pos < tokens.len() {
        let (path, rest) = meta_reading(source_text(tokens.skip(pos)))->Ok_0;
        let end = path_before(tokens, pos, rest.len()).next as int;
        let more = args.push(
            arg_between(tokens, pos, path_end_of(pos, end, path.len()), end),
        );
        assert(more.take(args.len() as int) =~= args);
        if end < tokens.len() && end > pos {
            lemma_args_stay(tokens, end + 1, close, more);
            assert(out.take(args.len() as int) =~= out.take(more.len() as int).take(
                args.len() as int,
            ));
        }
    } else {
        assert(out.take(args.len() as int) =~= args);
    }
}

/// Where the arguments of `#[program]` go on, the one that stands there is among them: a
/// word alone is called by that word.
pub proof fn lemma_program_argument(
    tokens: Seq<Token>,
    pos: int,
    close: Span,
    args: Seq<ArgView>,
)
    requires
        args_from(tokens, pos, close, args) is Ok,
        0 <= pos < tokens.len(),
    ensures
        ({
            let out = args_from(tokens, pos, close, args)->Ok_0;
            let next = out[args.len() as int];
            let (path, rest) = meta_reading(source_text(tokens.skip(pos)))->Ok_0;
            let end = path_before(tokens, pos, rest.len()).next as int;
            let path_end = path_end_of(pos, end, path.len());
            &&& out.len() > args.len()
            &&& out.take(args.len() as int) == args
            &&& path_end == pos + 1 && tokens[pos].kind is Word ==> next.name == Some(
                tokens[pos].kind->Word_0@,
            )
            &&& path_end != pos + 1 ==> next.name is None
            &&& path_end == end ==> next.kind is Path
            &&& path_end != end && punct_at(tokens, path_end, '=') ==> next.kind
                == ArgKindView::NameValue(tokens_text(tokens.subrange(path_end + 1, end)))
            &&& path_end != end && !punct_at(tokens, path_end, '=') ==> next.kind is List
        }),
{
    let out = args_from(tokens, pos, close, args)->Ok_0;
    let (path, rest) = meta_reading(source_text(tokens.skip(pos)))->Ok_0;
    let end = path_before(tokens, pos, rest.len()).next as int;
    let more = args.push(arg_between(tokens, pos, path_end_of(pos, end, path.len()), end));
    lemma_args_stay(tokens, pos, close, args);
    if end < tokens.len() && end > pos {
        lemma_args_stay(tokens, end + 1, close, more);
        assert(out.take(more.len() as int)[args.len() as int] == more[args.len() as int]);
    }
}

// ---------------------------------------------------------------------------
// Lists that cannot be read
// ---------------------------------------------------------------------------

/// An argument needs a colon behind its name and a comma behind its type, where the list
/// goes on; its name must not begin with two underscores.
pub proof fn lemma_arguments_refused(
    tokens: Seq<Token>,
    pos: int,
    close: Span,
    args: Seq<IxArg>,
)
    requires
        0 <= pos < tokens.len(),
        ident_reading(source_text(tokens.subrange(pos, pos + 1))) is Ok,
        tokens[pos].kind is Word,
    ensures
        has_prefix(tokens[pos].kind->Word_0@, "__"@) ==> declared_list(tokens, pos, close, args)
            == Err::<Seq<IxArg>, FailureView>(
            diagnostic(
                tokens[pos].span,
                "instruction argument names beginning with `__` are reserved for generated code"@,
            ),
        ),
        !has_prefix(tokens[pos].kind->Word_0@, "__"@) ==> {
            &&& !punct_at(tokens, pos + 1, ':') ==> declared_list(tokens, pos, close, args)
                == Err::<Seq<IxArg>, FailureView>(
                unexpected(tokens, pos + 1, close, "expected `:`"@),
            )
            &&& punct_at(tokens, pos + 1, ':') && declared_type(tokens, pos + 2, close) is Ok ==> {
                let end = declared_type(tokens, pos + 2, close)->Ok_0.1;
                end < tokens.len() && !punct_at(tokens, end, ',') ==> declared_list(
                    tokens,
                    pos,
                    close,
                    args,
                ) == Err::<Seq<IxArg>, FailureView>(
                    unexpected(tokens, end, close, "expected `,`"@),
                )
            }
        },
{
}

/// Options are parted by commas, of which one may stand at the end. A value to skip with
/// stands behind an equals sign.
pub proof fn lemma_options_refused(
    tokens: Seq<Token>,
    pos: int,
    close: Span,
    path: OptionPath,
)
    requires
        0 <= pos,
    ensures
        pos >= tokens.len() ==> option_end(tokens, pos, close) == Ok::<Option<int>, FailureView>(
            None,
        ),
        pos < tokens.len() && !punct_at(tokens, pos, ',') ==> option_end(tokens, pos, close)
            == Err::<Option<int>, FailureView>(
            unexpected(tokens, pos, close, "expected `,`"@),
        ),
        pos == tokens.len() - 1 && punct_at(tokens, pos, ',') ==> option_end(tokens, pos, close)
            == Ok::<Option<int>, FailureView>(None),
        pos < tokens.len() - 1 && punct_at(tokens, pos, ',') ==> option_end(tokens, pos, close)
            == Ok::<Option<int>, FailureView>(Some(pos + 1)),
        option_name(tokens, path) == Some("default_val"@) && !punct_at(
            tokens,
            path.next as int,
            '=',
        ) ==> skip_option_end(tokens, path, close) == Err::<int, FailureView>(
            unexpected(tokens, path.next as int, close, "expected `=`"@),
        ),
        option_name(tokens, path) != Some("default_val"@) ==> skip_option_end(tokens, path, close)
            == Ok::<int, FailureView>(path.next as int),
{
}

/// An attribute that should hold a list says so, as it is written.
pub proof fn lemma_not_a_list(attr: Attribute)
    ensures
        attr.meta is Path && !attr.inner ==> not_a_list(attr) == diagnostic(
            attr.path_span,
            "expected attribute arguments in parentheses: "@ + "#["@ + attr.path@ + "(...)]"@,
        ),
        attr.meta is Path && attr.inner ==> not_a_list(attr) == diagnostic(
            attr.path_span,
            "expected attribute arguments in parentheses: "@ + "#!["@ + attr.path@ + "(...)]"@,
        ),
        attr.meta is NameValue && !attr.inner ==> not_a_list(attr) == diagnostic(
            attr.meta->NameValue_eq,
            "expected parentheses: "@ + "#["@ + attr.path@ + "(...)]"@,
        ),
        attr.meta is NameValue && attr.inner ==> not_a_list(attr) == diagnostic(
            attr.meta->NameValue_eq,
            "expected parentheses: "@ + "#!["@ + attr.path@ + "(...)]"@,
        ),
{
}

/// An option of `account_meta` that is set twice, or that is unknown, is pointed at.
pub proof fn lemma_metas_refused(
    tokens: Seq<Token>,
    path: OptionPath,
    so_far: AccountMetaAttrs,
)
    requires
        0 <= path.word < tokens.len(),
        0 < path.next <= tokens.len(),
    ensures
        ({
            let span = Span {
                start: tokens[path.word as int].span.start,
                end: tokens[path.next - 1].span.end,
            };
            let name = option_name(tokens, path);
            let out = with_meta_option(tokens, path, so_far);
            &&& name == Some("skip"@) && so_far.skip ==> out == Err::<
                AccountMetaAttrs,
                FailureView,
            >(diagnostic(span, "duplicate account_meta skip"@))
            &&& name == Some("duplicate_readonly"@) && so_far.duplicate_readonly ==> out == Err::<
                AccountMetaAttrs,
                FailureView,
            >(diagnostic(span, "duplicate account_meta duplicate_readonly"@))
            &&& name != Some("skip"@) && name != Some("duplicate_readonly"@) ==> out == Err::<
                AccountMetaAttrs,
                FailureView,
            >(diagnostic(span, "unsupported account_meta option"@))
        }),
{
    reveal_strlit("skip");
    reveal_strlit("duplicate_readonly");
    assert("skip"@.len() != "duplicate_readonly"@.len());
}

/// The arguments of `#[program]` other than `interface` and one `program_id` are refused,
/// and so is an address for a program that runs.
pub proof fn lemma_program_arguments_refused(
    args: Seq<ArgView>,
    mode: ProgramMode,
    program_id: Option<(Seq<char>, Span)>,
)
    ensures
        args.len() == 0 && mode == ProgramMode::Executable && program_id is Some ==> config_from(
            args,
            mode,
            program_id,
        ) == Err::<ConfigView, FailureView>(
            diagnostic(
                program_id->Some_0.1,
                "`program_id` is only supported with `#[program(interface, ...)]`"@,
            ),
        ),
        args.len() > 0 && args[0].kind is NameValue && args[0].name == Some("program_id"@)
            && program_id is Some ==> config_from(args, mode, program_id) == Err::<
            ConfigView,
            FailureView,
        >(diagnostic(args[0].path_span, "duplicate `program_id`"@)),
        args.len() > 0 && !(args[0].kind is NameValue && args[0].name == Some("program_id"@)) && !(
        args[0].kind is Path && args[0].name == Some("interface"@)) ==> config_from(
            args,
            mode,
            program_id,
        ) == Err::<ConfigView, FailureView>(
            diagnostic(
                args[0].span,
                "unsupported `#[program]` argument; expected `interface` or `program_id = <expr>`"@,
            ),
        ),
{
}

} // verus!
