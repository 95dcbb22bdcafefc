//! The `program` macro.

use crate::attrs::{any_cfg, cfg_attrs, cfg_text, has_cfg_attrs};
use crate::discriminator::{
    attr_discrim, clash_check, copy_bytes, default_instruction_discriminator, discrim_option_view,
    handler_discriminator, lemma_one_match, may_write, parse_discrim_attr,
    validate_instruction_discriminator_prefixes, write_disc, writes_any, DiscrimAttr, DiscrimView,
    NamedView,
};
use crate::failure::{
    codes_view, collected, diagnostic, failures_view, lemma_collected_len, lemma_collected_prefix,
    lemma_stepped_prefix, new_diagnostic, stepped, unit_view, Failure, FailureView,
};
use crate::handler::{
    byte_literals, described_handler, discriminator_bytes, given_bytes, handler_code,
    print_byte_literals, HandlerCodeView, HandlerCodegen, HandlerIdl,
};
use crate::handler_fn::{handler_text, print_handler, HandlerFn};
use crate::names::snake_case;
use crate::outside::{literal_of, string_literal};
use crate::program_config::{ProgramConfig, ProgramMode};
use crate::syntax::Ident;
use crate::template::{fill1, fill11, fill2, fill3, fill5, fill6, fill7, filled};
use crate::text::{
    concat_all, concat_strings, decimal, decimal_text, has_prefix, map_texts, same_text, texts,
};
use vstd::prelude::*;

verus! {

// ---------------------------------------------------------------------------
// Event authority
// ---------------------------------------------------------------------------

/// Compares the event authority with an address that is known.
pub const KNOWN_AUTHORITY_CHECK: &'static str = r#"const __EXPECTED_EVENT_AUTHORITY: anchor_lang::Address =
    anchor_lang::Address::new_from_array([@a]);
if !anchor_lang::address_eq(
    __event_authority.address(),
    &__EXPECTED_EVENT_AUTHORITY,
) {
    return anchor_lang::Error::from(
        anchor_lang::ErrorCode::ConstraintSeeds,
    ).into();
}"#;

/// Compares the event authority with the address that the program finds.
pub const FOUND_AUTHORITY_CHECK: &'static str = r#"let (__expected_event_authority, _) =
    anchor_lang::find_program_address(
        &[b"__event_authority"],
        __program_id,
    );
if !anchor_lang::address_eq(
    __event_authority.address(),
    &__expected_event_authority,
) {
    return anchor_lang::Error::from(
        anchor_lang::ErrorCode::ConstraintSeeds,
    ).into();
}"#;

/// The statements that check the event authority.
pub open spec fn authority_check(address: Option<Vec<u8>>) -> Seq<char> {
    match address {
        Some(bytes) => filled(KNOWN_AUTHORITY_CHECK@, seq![byte_literals(bytes@)]),
        None => FOUND_AUTHORITY_CHECK@,
    }
}

/// Writes the statements that check the event authority, whose address may be known.
pub fn event_authority_dispatch_check(precomputed_event_authority: &Option<Vec<u8>>) -> (out:
    String)
    ensures
        out@ == authority_check(*precomputed_event_authority),
{
    match precomputed_event_authority {
        Some(bytes) => fill1(KNOWN_AUTHORITY_CHECK, print_byte_literals(bytes).as_str()),
        None => FOUND_AUTHORITY_CHECK.to_owned(),
    }
}

// ---------------------------------------------------------------------------
// Items
// ---------------------------------------------------------------------------

/// A program module; `items` is absent where the module has no inline body.
pub struct ProgramModule {
    pub vis: String,
    pub ident: Ident,
    pub items: Option<Vec<ModItem>>,
}

/// An item of a module.
pub enum ModItem {
    Fn(HandlerFn),
    /// Any other item, as it is written.
    Other(String),
}

/// The handlers among items: the public functions.
pub open spec fn handlers_in<'a>(items: Seq<ModItem>) -> Seq<&'a HandlerFn>
    decreases items.len(),
{
    if items.len() == 0 {
        Seq::empty()
    } else {
        let before = handlers_in(items.drop_last());
        match items.last() {
            ModItem::Fn(func) => if func.public {
                before.push(&func)
            } else {
                before
            },
            ModItem::Other(_) => before,
        }
    }
}

/// The items that are no handlers, as text.
pub open spec fn others_in(items: Seq<ModItem>) -> Seq<char>
    decreases items.len(),
{
    if items.len() == 0 {
        Seq::empty()
    } else {
        let before = others_in(items.drop_last());
        match items.last() {
            ModItem::Fn(func) => if func.public {
                before
            } else {
                before + func.tokens@ + "\n"@
            },
            ModItem::Other(tokens) => before + tokens@ + "\n"@,
        }
    }
}

/// The handlers among items.
pub fn find_handlers<'a>(items: &'a Vec<ModItem>) -> (out: Vec<&'a HandlerFn>)
    ensures
        out@ == handlers_in(items@),
{
    let mut out: Vec<&'a HandlerFn> = Vec::new();
    for i in 0..items.len()
        invariant
            out@ == handlers_in(items@.take(i as int)),
    {
        assert(items@.take(i + 1).drop_last() == items@.take(i as int));
        if let ModItem::Fn(func) = &items[i] {
            if func.public {
                out.push(func);
            }
        }
    }
    assert(items@.take(items@.len() as int) == items@);
    out
}

fn print_others(items: &Vec<ModItem>) -> (out: String)
    ensures
        out@ == others_in(items@),
{
    let mut out = String::new();
    for i in 0..items.len()
        invariant
            out@ == others_in(items@.take(i as int)),
    {
        assert(items@.take(i + 1).drop_last() == items@.take(i as int));
        match &items[i] {
            ModItem::Fn(func) => {
                if !func.public {
                    out.append(func.tokens.as_str());
                    out.append("\n");
                }
            },
            ModItem::Other(tokens) => {
                out.append(tokens.as_str());
                out.append("\n");
            },
        }
    }
    assert(items@.take(items@.len() as int) == items@);
    out
}

// ---------------------------------------------------------------------------
// Discriminators
// ---------------------------------------------------------------------------

/// The discriminators that the attributes of handlers give, or the first failure.
pub open spec fn given_discrims(handlers: Seq<&HandlerFn>) -> Result<
    Seq<Option<DiscrimView>>,
    FailureView,
> {
    collected(handlers.map_values(|handler: &HandlerFn| attr_discrim(handler.attrs@)))
}

/// The discriminators of a list, as sequences.
pub open spec fn discrims_view(discrims: Seq<Option<DiscrimAttr>>) -> Seq<Option<DiscrimView>> {
    discrims.map_values(|discrim: Option<DiscrimAttr>| discrim_option_view(discrim))
}

/// Whether one of the handlers is conditional.
pub open spec fn any_gated(handlers: Seq<&HandlerFn>) -> bool {
    exists|i: int| 0 <= i < handlers.len() && any_cfg((#[trigger] handlers[i]).attrs@)
}

/// The first place without a discriminator; the length where each has one.
pub open spec fn first_missing(discrims: Seq<Option<DiscrimView>>) -> int
    decreases discrims.len(),
{
    if discrims.len() == 0 || discrims[0] is None {
        0
    } else {
        1 + first_missing(discrims.skip(1))
    }
}

/// Whether one of the handlers has a discriminator from an attribute.
pub open spec fn any_given(discrims: Seq<Option<DiscrimView>>) -> bool {
    exists|i: int| 0 <= i < discrims.len() && (#[trigger] discrims[i]) is Some
}

/// Why all handlers need a discriminator.
pub const ALL_OR_NONE: &'static str =
    "if any instruction in `#[program]` uses `#[discrim = N]`, all must";

/// Why a discriminator of several bytes is refused.
pub const ONE_BYTE_ONLY: &'static str = "executable `#[program]` custom discriminators must be one byte; use `#[program(interface, ...)]` for arbitrary IDL discriminator bytes";

/// Whether a discriminator before the given place begins with the same byte.
pub open spec fn byte_taken(discrims: Seq<Option<DiscrimView>>, place: int) -> bool {
    exists|k: int|
        0 <= k < place && (#[trigger] discrims[k]) is Some && discrims[k]->Some_0.bytes[0]
            == discrims[place]->Some_0.bytes[0]
}

/// The check of the discriminator at a place of an executable program.
pub open spec fn byte_check(
    handlers: Seq<&HandlerFn>,
    discrims: Seq<Option<DiscrimView>>,
    gated: bool,
    place: int,
) -> Result<(), FailureView> {
    match discrims[place] {
        None => Ok(()),
        Some(discrim) => if discrim.bytes.len() != 1 {
            Err(diagnostic(discrim.span, ONE_BYTE_ONLY@))
        } else if !gated && byte_taken(discrims, place) {
            Err(
                diagnostic(
                    discrim.span,
                    "duplicate `#[discrim = "@ + decimal(discrim.bytes[0] as nat)
                        + "]` on instruction `"@ + handlers[place].ident.text@ + "`"@,
                ),
            )
        } else {
            Ok(())
        },
    }
}

/// The first discriminator of an executable program that is refused, among the first
/// `n`.
pub open spec fn byte_checks(
    handlers: Seq<&HandlerFn>,
    discrims: Seq<Option<DiscrimView>>,
    gated: bool,
    n: int,
) -> Result<(), FailureView> {
    stepped((), n, |_done: (), i: int| byte_check(handlers, discrims, gated, i))
}

/// The handlers with their discriminators.
pub open spec fn named_handlers(
    handlers: Seq<&HandlerFn>,
    discrims: Seq<Option<DiscrimView>>,
) -> Seq<NamedView> {
    Seq::new(
        handlers.len(),
        |i: int|
            NamedView {
                name: handlers[i].ident.text@,
                bytes: handler_discriminator(handlers[i].ident.text@, discrims[i]),
                span: handlers[i].ident.span,
            },
    )
}

/// The check of the discriminators of a program. In an executable one, attributes
/// give one byte each, to all handlers or none, and no byte twice; in an interface, no
/// discriminator begins with another. Conditional handlers need not all be there, so
/// they are not held against each other.
pub open spec fn discrims_check(
    handlers: Seq<&HandlerFn>,
    discrims: Seq<Option<DiscrimView>>,
    mode: ProgramMode,
) -> Result<(), FailureView> {
    let gated = any_gated(handlers);
    if mode == ProgramMode::Executable && any_given(discrims) && first_missing(discrims)
        < discrims.len() && !gated {
        Err(diagnostic(handlers[first_missing(discrims)].ident.span, ALL_OR_NONE@))
    } else if mode == ProgramMode::Executable && any_given(discrims) {
        byte_checks(handlers, discrims, gated, discrims.len() as int)
    } else if mode == ProgramMode::Interface && !gated {
        clash_check("instructions"@, named_handlers(handlers, discrims), None)
    } else {
        Ok(())
    }
}

fn read_discrims(handlers: &Vec<&HandlerFn>) -> (out: Result<Vec<Option<DiscrimAttr>>, Failure>)
    ensures
        match out {
            Ok(discrims) => given_discrims(handlers@) == Ok::<
                Seq<Option<DiscrimView>>,
                FailureView,
            >(discrims_view(discrims@)) && discrims@.len() == handlers@.len(),
            Err(failure) => given_discrims(handlers@) == Err::<
                Seq<Option<DiscrimView>>,
                FailureView,
            >(failure@),
        },
{
    let mut out: Vec<Option<DiscrimAttr>> = Vec::new();
    let ghost results = handlers@.map_values(
        |handler: &HandlerFn| attr_discrim(handler.attrs@),
    );
    assert(discrims_view(out@) == Seq::<Option<DiscrimView>>::empty());
    for i in 0..handlers.len()
        invariant
            out@.len() == i,
            results == handlers@.map_values(|handler: &HandlerFn| attr_discrim(handler.attrs@)),
            collected(results.take(i as int)) == Ok::<Seq<Option<DiscrimView>>, FailureView>(
                discrims_view(out@),
            ),
    {
        assert(results.take(i + 1).drop_last() == results.take(i as int));
        match parse_discrim_attr(&handlers[i].attrs) {
            Ok(discrim) => {
                let ghost before = discrims_view(out@);
                out.push(discrim);
                assert(discrims_view(out@) == before.push(discrim_option_view(discrim)));
            },
            Err(failure) => {
                proof {
                    lemma_collected_prefix(results, i + 1);
                }
                return Err(failure);
            },
        }
    }
    assert(results.take(handlers@.len() as int) == results);
    Ok(out)
}

fn is_gated(handlers: &Vec<&HandlerFn>) -> (gated: bool)
    ensures
        gated == any_gated(handlers@),
{
    for i in 0..handlers.len()
        invariant
            forall|k: int| 0 <= k < i ==> !any_cfg((#[trigger] handlers@[k]).attrs@),
    {
        if has_cfg_attrs(&handlers[i].attrs) {
            assert(any_cfg(handlers@[i as int].attrs@));
            return true;
        }
    }
    false
}

fn find_missing(discrims: &Vec<Option<DiscrimAttr>>) -> (place: usize)
    ensures
        place == first_missing(discrims_view(discrims@)),
        place <= discrims@.len(),
{
    let ghost views = discrims_view(discrims@);
    let mut i: usize = 0;
    assert(views.skip(0) == views);
    while i < discrims.len()
        invariant
            views == discrims_view(discrims@),
            i <= discrims@.len(),
            first_missing(views) == i + first_missing(views.skip(i as int)),
        decreases discrims@.len() - i,
    {
        assert(views.skip(i as int).skip(1) == views.skip(i + 1));
        if discrims[i].is_none() {
            return i;
        }
        i = i + 1;
    }
    i
}

fn has_given(discrims: &Vec<Option<DiscrimAttr>>) -> (found: bool)
    ensures
        found == any_given(discrims_view(discrims@)),
{
    for i in 0..discrims.len()
        invariant
            forall|k: int| 0 <= k < i ==> (#[trigger] discrims@[k]) is None,
    {
        if discrims[i].is_some() {
            assert(discrims_view(discrims@)[i as int] is Some);
            return true;
        }
    }
    assert forall|k: int| 0 <= k < discrims@.len() implies (
    #[trigger] discrims_view(discrims@)[k]) is None by {
        assert(discrims@[k] is None);
    }
    false
}

fn is_byte_taken(discrims: &Vec<Option<DiscrimAttr>>, place: usize, byte: u8) -> (taken: bool)
    requires
        place < discrims@.len(),
        forall|k: int|
            0 <= k < place ==> ((#[trigger] discrims@[k]) is Some ==> discrims@[k]->Some_0.bytes@.len()
                == 1),
        discrims@[place as int] is Some,
        discrims@[place as int]->Some_0.bytes@[0] == byte,
    ensures
        taken == byte_taken(discrims_view(discrims@), place as int),
{
    let ghost views = discrims_view(discrims@);
    for k in 0..place
        invariant
            place < discrims@.len(),
            views == discrims_view(discrims@),
            views[place as int]->Some_0.bytes[0] == byte,
            forall|k: int|
                0 <= k < place ==> ((#[trigger] discrims@[k]) is Some
                    ==> discrims@[k]->Some_0.bytes@.len() == 1),
            forall|j: int|
                0 <= j < k ==> !((#[trigger] views[j]) is Some && views[j]->Some_0.bytes[0]
                    == byte),
    {
        assert(views[k as int] == discrim_option_view(discrims@[k as int]));
        if let Some(discrim) = &discrims[k] {
            if discrim.bytes[0] == byte {
                return true;
            }
        }
    }
    false
}

fn check_bytes(handlers: &Vec<&HandlerFn>, discrims: &Vec<Option<DiscrimAttr>>, gated: bool) -> (
out: Result<(), Failure>)
    requires
        handlers@.len() == discrims@.len(),
    ensures
        unit_view(out) == byte_checks(
            handlers@,
            discrims_view(discrims@),
            gated,
            discrims@.len() as int,
        ),
{
    let ghost views = discrims_view(discrims@);
    for i in 0..discrims.len()
        invariant
            handlers@.len() == discrims@.len(),
            views == discrims_view(discrims@),
            byte_checks(handlers@, views, gated, i as int) is Ok,
            forall|k: int|
                0 <= k < i ==> ((#[trigger] discrims@[k]) is Some ==> discrims@[k]->Some_0.bytes@.len()
                    == 1),
    {
        assert(views[i as int] == discrim_option_view(discrims@[i as int]));
        if let Some(discrim) = &discrims[i] {
            if discrim.bytes.len() != 1 {
                proof {
                    lemma_stepped_prefix(
                        (),
                        i + 1,
                        discrims@.len() as int,
                        |_done: (), i: int| byte_check(handlers@, views, gated, i),
                    );
                }
                return Err(new_diagnostic(discrim.span, ONE_BYTE_ONLY.to_owned()));
            }
            let byte: u8 = discrim.bytes[0];
            if !gated && is_byte_taken(discrims, i, byte) {
                proof {
                    lemma_stepped_prefix(
                        (),
                        i + 1,
                        discrims@.len() as int,
                        |_done: (), i: int| byte_check(handlers@, views, gated, i),
                    );
                }
                return Err(
                    new_diagnostic(
                        discrim.span,
                        "duplicate `#[discrim = ".to_owned().concat(
                            decimal_text(byte as u64).as_str(),
                        ).concat("]` on instruction `").concat(
                            handlers[i].ident.text.as_str(),
                        ).concat("`"),
                    ),
                );
            }
        }
    }
    Ok(())
}

fn check_discrims(
    handlers: &Vec<&HandlerFn>,
    discrims: &Vec<Option<DiscrimAttr>>,
    mode: ProgramMode,
) -> (out: Result<(), Failure>)
    requires
        handlers@.len() == discrims@.len(),
    ensures
        unit_view(out) == discrims_check(handlers@, discrims_view(discrims@), mode),
{
    let gated = is_gated(handlers);
    let given = has_given(discrims);
    let missing = find_missing(discrims);
    if mode == ProgramMode::Executable && given && missing < discrims.len() && !gated {
        return Err(new_diagnostic(handlers[missing].ident.span, ALL_OR_NONE.to_owned()));
    }
    if mode == ProgramMode::Executable && given {
        return check_bytes(handlers, discrims, gated);
    }
    if mode == ProgramMode::Interface && !gated {
        let mut idents: Vec<Ident> = Vec::new();
        for i in 0..handlers.len()
            invariant
                idents@.len() == i,
                forall|k: int| 0 <= k < i ==> (#[trigger] idents@[k]) == handlers@[k].ident,
        {
            idents.push(
                Ident { text: handlers[i].ident.text.clone(), span: handlers[i].ident.span },
            );
        }
        assert(crate::discriminator::handler_discriminators(idents@, discrims@) == named_handlers(
            handlers@,
            discrims_view(discrims@),
        ));
        return validate_instruction_discriminator_prefixes(&idents, discrims);
    }
    Ok(())
}

// ---------------------------------------------------------------------------
// What is generated for all handlers
// ---------------------------------------------------------------------------

/// What is generated for a handler, with the attributes under which it exists.
pub struct Generated {
    pub cfg: String,
    pub code: HandlerCodegen,
}

/// What is generated for a handler, as sequences of characters.
pub struct GeneratedView {
    pub cfg: Seq<char>,
    pub code: HandlerCodeView,
}

impl View for Generated {
    type V = GeneratedView;

    open spec fn view(&self) -> GeneratedView {
        GeneratedView { cfg: self.cfg@, code: self.code@ }
    }
}

/// What is generated for the handlers, as sequences of characters.
pub open spec fn all_view(all: Seq<Generated>) -> Seq<GeneratedView> {
    all.map_values(|one: Generated| one@)
}

/// What is generated for the handler at a place.
pub open spec fn generated_at(
    handlers: Seq<&HandlerFn>,
    mod_name: Seq<char>,
    discrims: Seq<Option<DiscrimView>>,
    program_id: Seq<char>,
    idl: Seq<HandlerIdl>,
    discs: Seq<Seq<char>>,
    i: int,
) -> Result<GeneratedView, FailureView> {
    let bytes = match discrims[i] {
        Some(discrim) => Some(discrim.bytes),
        None => None,
    };
    match handler_code(*handlers[i], mod_name, bytes, program_id, idl[i], discs[i]) {
        Err(failure) => Err(failure),
        Ok(code) => Ok(GeneratedView { cfg: cfg_text(handlers[i].attrs@), code }),
    }
}

/// What is generated for the handlers, or the first failure.
pub open spec fn generated(
    handlers: Seq<&HandlerFn>,
    mod_name: Seq<char>,
    discrims: Seq<Option<DiscrimView>>,
    program_id: Seq<char>,
    idl: Seq<HandlerIdl>,
    discs: Seq<Seq<char>>,
) -> Result<Seq<GeneratedView>, FailureView> {
    collected(
        Seq::new(
            handlers.len(),
            |i: int| generated_at(handlers, mod_name, discrims, program_id, idl, discs, i),
        ),
    )
}

fn generate(
    handlers: &Vec<&HandlerFn>,
    mod_name: &str,
    discrims: &Vec<Option<DiscrimAttr>>,
    program_id: &str,
    idl: &Vec<HandlerIdl>,
    discs: &Vec<String>,
) -> (out: Result<Vec<Generated>, Failure>)
    requires
        handlers@.len() == discrims@.len(),
        handlers@.len() == idl@.len(),
        handlers@.len() == discs@.len(),
    ensures
        (match out {
            Ok(all) => Ok::<Seq<GeneratedView>, FailureView>(all_view(all@)),
            Err(failure) => Err(failure@),
        }) == generated(
            handlers@,
            mod_name@,
            discrims_view(discrims@),
            program_id@,
            idl@,
            texts(discs@),
        ),
{
    let mut out: Vec<Generated> = Vec::new();
    let ghost views = discrims_view(discrims@);
    let ghost results = Seq::new(
        handlers@.len(),
        |i: int| generated_at(handlers@, mod_name@, views, program_id@, idl@, texts(discs@), i),
    );
    assert(all_view(out@) == Seq::<GeneratedView>::empty());
    for i in 0..handlers.len()
        invariant
            handlers@.len() == discrims@.len(),
            handlers@.len() == idl@.len(),
            handlers@.len() == discs@.len(),
            views == discrims_view(discrims@),
            results == Seq::new(
                handlers@.len(),
                |i: int| generated_at(handlers@, mod_name@, views, program_id@, idl@, texts(discs@), i),
            ),
            collected(results.take(i as int)) == Ok::<Seq<GeneratedView>, FailureView>(
                all_view(out@),
            ),
    {
        assert(results.take(i + 1).drop_last() == results.take(i as int));
        assert(views[i as int] == discrim_option_view(discrims@[i as int]));
        let bytes = match &discrims[i] {
            Some(discrim) => Some(copy_bytes(&discrim.bytes)),
            None => None,
        };
        assert(given_bytes(bytes) == (match views[i as int] {
            Some(discrim) => Some(discrim.bytes),
            None => None,
        }));
        assert(results[i as int] == generated_at(
            handlers@,
            mod_name@,
            views,
            program_id@,
            idl@,
            texts(discs@),
            i as int,
        ));
        match described_handler(
            handlers[i],
            mod_name,
            &bytes,
            program_id,
            &idl[i],
            discs[i].as_str(),
        ) {
            Ok(code) => {
                let ghost before = all_view(out@);
                let one = Generated { cfg: cfg_attrs(&handlers[i].attrs), code };
                out.push(one);
                assert(all_view(out@) == before.push(one@));
            },
            Err(failure) => {
                proof {
                    lemma_collected_prefix(results, i + 1);
                }
                return Err(failure);
            },
        }
    }
    assert(results.take(handlers@.len() as int) == results);
    Ok(out)
}

/// The failures of the handlers that were refused.
pub open spec fn refusals(all: Seq<GeneratedView>) -> Seq<FailureView>
    decreases all.len(),
{
    if all.len() == 0 {
        Seq::empty()
    } else {
        match all.last().code.error {
            Some(failure) => refusals(all.drop_last()).push(failure),
            None => refusals(all.drop_last()),
        }
    }
}

/// The failures among results.
pub open spec fn failed(results: Seq<Result<Seq<char>, FailureView>>) -> Seq<FailureView>
    decreases results.len(),
{
    if results.len() == 0 {
        Seq::empty()
    } else {
        match results.last() {
            Err(failure) => failed(results.drop_last()).push(failure),
            Ok(_) => failed(results.drop_last()),
        }
    }
}

/// The texts among results, one after the other.
pub open spec fn succeeded(results: Seq<Result<Seq<char>, FailureView>>) -> Seq<char>
    decreases results.len(),
{
    if results.len() == 0 {
        Seq::empty()
    } else {
        match results.last() {
            Err(_) => succeeded(results.drop_last()),
            Ok(text) => succeeded(results.drop_last()) + text,
        }
    }
}

/// The handlers as they are written out, or the failures.
pub open spec fn handler_texts(handlers: Seq<&HandlerFn>) -> Seq<Result<Seq<char>, FailureView>> {
    handlers.map_values(|handler: &HandlerFn| handler_text(*handler))
}

fn split_refusals(all: &mut Vec<Generated>) -> (out: Vec<Failure>)
    ensures
        failures_view(out@) == refusals(all_view(old(all)@)),
        out@.len() == 0 ==> *final(all) == *old(all),
{
    let mut out: Vec<Failure> = Vec::new();
    let ghost views = all_view(all@);
    let mut any = false;
    for i in 0..all.len()
        invariant
            views == all_view(all@),
            *all == *old(all),
            any == (refusals(views.take(i as int)).len() > 0),
    {
        assert(views.take(i + 1).drop_last() == views.take(i as int));
        if all[i].code.error.is_some() {
            any = true;
        }
    }
    assert(views.take(views.len() as int) == views);
    if !any {
        assert(failures_view(out@) == refusals(views));
        return out;
    }
    let mut rest: Vec<Generated> = Vec::new();
    std::mem::swap(&mut rest, all);
    assert(failures_view(out@) == refusals(views.take(0)));
    for one in it: rest
        invariant
            views == all_view(it.seq()),
            failures_view(out@) == refusals(views.take(it.index())),
    {
        assert(views.take(it.index() + 1).drop_last() == views.take(it.index()));
        assert(views[it.index()] == one@);
        let ghost before = failures_view(out@);
        if let Some(failure) = one.code.error {
            out.push(failure);
            assert(failures_view(out@) == before.push(failure@));
        }
    }
    assert(views.take(views.len() as int) == views);
    out
}

fn print_handlers(handlers: &Vec<&HandlerFn>) -> (out: (String, Vec<Failure>))
    ensures
        out.0@ == succeeded(handler_texts(handlers@)),
        failures_view(out.1@) == failed(handler_texts(handlers@)),
{
    let mut text = String::new();
    let mut failures: Vec<Failure> = Vec::new();
    let ghost results = handler_texts(handlers@);
    assert(failures_view(failures@) == failed(results.take(0)));
    for i in 0..handlers.len()
        invariant
            results == handler_texts(handlers@),
            text@ == succeeded(results.take(i as int)),
            failures_view(failures@) == failed(results.take(i as int)),
    {
        assert(results.take(i + 1).drop_last() == results.take(i as int));
        match print_handler(handlers[i]) {
            Ok(handler) => {
                text.append(handler.as_str());
            },
            Err(failure) => {
                let ghost before = failures_view(failures@);
                failures.push(failure);
                assert(failures_view(failures@) == before.push(failure@));
            },
        }
    }
    assert(results.take(handlers@.len() as int) == results);
    (text, failures)
}

// ---------------------------------------------------------------------------
// Sections
// ---------------------------------------------------------------------------

/// Whether a handler before the given place has the same accounts struct.
pub open spec fn accounts_seen(all: Seq<GeneratedView>, place: int) -> bool {
    exists|k: int|
        0 <= k < place && (#[trigger] all[k]).code.accounts_type_name
            == all[place].code.accounts_type_name
}

/// One text per accounts struct: that of the first handler with it.
pub open spec fn once_per_accounts(all: Seq<GeneratedView>, cpi: bool, n: int) -> Seq<char>
    decreases n,
{
    if n <= 0 {
        Seq::empty()
    } else {
        let before = once_per_accounts(all, cpi, n - 1);
        if accounts_seen(all, n - 1) {
            before
        } else if cpi {
            before + all[n - 1].code.cpi_accounts_reexport + "\n"@
        } else {
            before + all[n - 1].code.accounts_reexport + "\n"@
        }
    }
}

fn is_accounts_seen(all: &Vec<Generated>, place: usize) -> (seen: bool)
    requires
        place < all@.len(),
    ensures
        seen == accounts_seen(all_view(all@), place as int),
{
    let ghost views = all_view(all@);
    for k in 0..place
        invariant
            place < all@.len(),
            views == all_view(all@),
            forall|j: int|
                0 <= j < k ==> (#[trigger] views[j]).code.accounts_type_name
                    != views[place as int].code.accounts_type_name,
    {
        if same_text(
            all[k].code.accounts_type_name.as_str(),
            all[place].code.accounts_type_name.as_str(),
        ) {
            assert(views[k as int].code.accounts_type_name
                == views[place as int].code.accounts_type_name);
            return true;
        }
    }
    false
}

fn print_once_per_accounts(all: &Vec<Generated>, cpi: bool) -> (out: String)
    ensures
        out@ == once_per_accounts(all_view(all@), cpi, all@.len() as int),
{
    let mut out = String::new();
    for i in 0..all.len()
        invariant
            out@ == once_per_accounts(all_view(all@), cpi, i as int),
    {
        if !is_accounts_seen(all, i) {
            if cpi {
                out.append(all[i].code.cpi_accounts_reexport.as_str());
            } else {
                out.append(all[i].code.accounts_reexport.as_str());
            }
            out.append("\n");
        }
    }
    out
}

/// Adds an instruction to the interface description.
pub const IDL_ENTRY: &'static str = r#"@a
instructions.push(
    format!(
        "{{\"name\":\"{}\"{},\"discriminator\":{},\"accounts\":{},\"args\":{}{} }}",
        @b,
        @c,
        @d,
        @e::__idl_accounts(),
        @f,
        @g,
    )
);"#;

/// Registers what the accounts of an instruction depend on.
pub const IDL_ACCOUNTS: &'static str = r#"@a
@b::__idl_register_deps(
    &mut accounts_entries,
    &mut types_entries,
);"#;

/// Registers what a type depends on.
pub const IDL_TYPE: &'static str = r#"<@a as anchor_lang::IdlAccountType>::__register_idl_deps(
    &mut accounts_entries,
    &mut types_entries,
);"#;

/// Registers what the arguments and the value of an instruction depend on.
pub const IDL_TYPES: &'static str = r#"@a
{
    @b
    @c
}"#;

/// Answers an event that the program sends to itself.
pub const EVENT_CPI_DISPATCH: &'static str = r#"if __ix_data_len >= 8 {
    let __event_disc: u64 = u64::from_le_bytes(
        *(__ix_data_ptr as *const [u8; 8])
    );
    if __event_disc == anchor_lang::event::EVENT_IX_TAG {
        if __num < 1 {
            return anchor_lang::Error::from(
                anchor_lang::ErrorCode::AccountNotEnoughKeys,
            ).into();
        }
        let mut __cursor = anchor_lang::AccountCursor::new(__input, __lookup);
        let __event_authority = __cursor.next();
        if !__event_authority.is_signer() {
            return anchor_lang::Error::from(
                anchor_lang::ErrorCode::ConstraintSigner,
            ).into();
        }
        @a
        return 0;
    }
}"#;

/// What clients and other programs use.
pub const CLIENT_INTERFACE: &'static str = r#"/// Client-side instruction structs for off-chain use.
pub mod instruction {
    extern crate alloc;
    use super::*;
    use anchor_lang::Discriminator as _;
    @a
}

/// Client-side accounts structs (re-exports) for off-chain use.
pub mod accounts {
    @b
    @c
}

/// CPI module — gated on the `cpi` feature for normal programs and
/// emitted unconditionally for interface modules.
/// `accounts::*` re-exports the auto-generated CPI accounts structs
/// (one per `#[derive(Accounts)]` Accounts struct, emitted as
/// `__cpi_accounts_<lowercase>` at this same scope). The free
/// functions wrap each instruction handler: pack args into the
/// matching `instruction::<Camel>` struct, serialize, and dispatch
/// through `CpiContext::invoke`.
@d
pub mod cpi {
    extern crate alloc;
    use super::*;
    use anchor_lang::InstructionData as _;

    pub struct Return<T> {
        program: anchor_lang::Address,
        phantom: core::marker::PhantomData<T>,
    }

    impl<T> Return<T>
    where
        T: for<'de> anchor_lang::wincode::SchemaRead<
            'de,
            anchor_lang::BorshConfig,
            Dst = T,
        >,
    {
        pub fn get(&self) -> T {
            let __return_data =
                anchor_lang::pinocchio::cpi::get_return_data().unwrap();
            assert!(
                anchor_lang::address_eq(__return_data.program_id(), &self.program),
                "return data program id mismatch"
            );
            anchor_lang::wincode::config::deserialize(
                __return_data.as_slice(),
                anchor_lang::BORSH_CONFIG,
            )
                .unwrap()
        }
    }

    pub mod accounts {
        @e
    }

    @f
}"#;

/// A program that is only called.
pub const INTERFACE_PROGRAM: &'static str = r#"@a mod @b {
    @c
    @d
}

@e"#;

/// A program that is run.
pub const EXECUTABLE_PROGRAM: &'static str = r#"@a mod @b {
    @c
    @d
}

#[cfg(not(feature = "no-entrypoint"))]
anchor_lang::pinocchio::default_allocator!();
#[cfg(not(feature = "no-entrypoint"))]
anchor_lang::pinocchio::default_panic_handler!();

/// Matches Solana's transaction-wide account cap (u8 index space).
/// The lookup array holds `[AccountView; 256]` = ~2 KiB of frame
/// used for duplicate-account resolution during cursor walks.
const __ANCHOR_MAX_ACCOUNTS: usize = 256;

/// Core dispatch: program-id check, discriminator parse, account
/// cursor setup, handler dispatch. Exported as the `entrypoint`
/// symbol unless `no-entrypoint` is active. Custom entrypoints
/// can call this directly via its Rust path.
///
/// The BPF loader passes:
///   r1 = MM_INPUT_START (first byte of the serialized parameter region)
///   r2 = VM address of the instruction data bytes (SIMD-0321)
///
/// The `[r2 - 8 .. r2]` slot holds the `u64` ix_data length and the
/// 32 bytes at `[r2 + len .. +32]` hold the program_id, per agave's
/// aligned serialization layout (see `solana-program-runtime
/// ::serialization::serialize_parameters_aligned`).
#[cfg_attr(
    all(target_os = "solana", not(feature = "no-entrypoint")),
    export_name = "entrypoint"
)]
#[cfg_attr(all(target_os = "solana", feature = "no-entrypoint"), no_mangle)]
pub unsafe extern "C" fn __anchor_dispatch(
    __input: *mut u8,
    __ix_data_ptr: *const u8,
) -> u64 {
    let mut __lookup: [::core::mem::MaybeUninit<anchor_lang::AccountView>;
        __ANCHOR_MAX_ACCOUNTS] =
        [const { ::core::mem::MaybeUninit::uninit() }; __ANCHOR_MAX_ACCOUNTS];

    __anchor_dispatch_internal(
        __input,
        __ix_data_ptr,
        __lookup.as_mut_ptr() as *mut anchor_lang::AccountView,
    )
}

#[inline(never)]
unsafe fn __anchor_dispatch_internal(
    __input: *mut u8,
    __ix_data_ptr: *const u8,
    __lookup: *mut anchor_lang::AccountView,
) -> u64 {
    let __ix_data_len = *(__ix_data_ptr.sub(8) as *const u64) as usize;
    let __program_id: &anchor_lang::Address =
        &*(__ix_data_ptr.add(__ix_data_len) as *const anchor_lang::Address);

    if let Err(__e) = anchor_lang::check_program_id(__program_id, &crate::ID) {
        return __e.into();
    }

    let __num = *(__input as *const u64) as usize;
    @e

    let mut __cursor = anchor_lang::AccountCursor::new(__input, __lookup);

    @f
    anchor_lang::Error::from(
        anchor_lang::ErrorCode::InstructionFallbackNotFound,
    ).into()
}

mod __handlers {
    use super::*;
    use anchor_lang::TryAccounts as _;
    @g
}

@h

#[cfg(all(test, feature = "idl-build"))]
mod __anchor_private_idl {
    use super::*;

    #[test]
    fn __anchor_private_print_idl_address() {
        println!("--- IDL begin address ---");
        let addr = crate::ID;
        println!("{}", anchor_lang::Address::from(addr));
        println!("--- IDL end address ---");
    }

    #[test]
    fn __anchor_private_print_idl_program() {
        let mut instructions = Vec::new();
        @i

        let mut accounts_entries: Vec<&'static str> = Vec::new();
        let mut types_entries: Vec<&'static str> = Vec::new();
        @j
        @k
        accounts_entries.sort();
        accounts_entries.dedup();
        types_entries.sort();
        types_entries.dedup();

        let crate_name = env!("CARGO_CRATE_NAME").replace('-', "_");
        let description = option_env!("CARGO_PKG_DESCRIPTION")
            .filter(|s| !s.is_empty());
        let repository = option_env!("CARGO_PKG_REPOSITORY")
            .filter(|s| !s.is_empty());
        let mut metadata_extras = anchor_lang::__alloc::string::String::new();
        if let Some(d) = description {
            let escaped = d.replace('\\', "\\\\").replace('"', "\\\"");
            metadata_extras.push_str(&anchor_lang::__alloc::format!(
                ",\"description\":\"{}\"",
                escaped,
            ));
        }
        if let Some(r) = repository {
            let escaped = r.replace('\\', "\\\\").replace('"', "\\\"");
            metadata_extras.push_str(&anchor_lang::__alloc::format!(
                ",\"repository\":\"{}\"",
                escaped,
            ));
        }
        let idl = format!(
            "{{\"address\":\"\",\"metadata\":{{\"name\":\"{}\",\"version\":\"0.1.0\",\"spec\":\"0.1.0\"{}}},\"instructions\":[{}],\"accounts\":[{}],\"types\":[{}]}}",
            crate_name,
            metadata_extras,
            instructions.join(","),
            accounts_entries.join(","),
            types_entries.join(","),
        );
        println!("--- IDL begin program ---");
        println!("{}", idl);
        println!("--- IDL end program ---");
    }
}"#;

/// The statement that adds an instruction to the interface description.
pub open spec fn idl_entry(one: GeneratedView) -> Seq<char> {
    filled(
        IDL_ENTRY@,
        seq![
            one.cfg,
            literal_of(one.code.idl_name),
            literal_of(one.code.idl_docs_json),
            literal_of(one.code.idl_disc),
            one.code.idl_accounts_type,
            one.code.idl_args,
            one.code.idl_returns_json,
        ],
    ) + "\n"@
}

fn print_idl_entry(one: &Generated) -> (out: String)
    ensures
        out@ == idl_entry(one@),
{
    fill7(
        IDL_ENTRY,
        one.cfg.as_str(),
        string_literal(one.code.idl_name.as_str()).as_str(),
        string_literal(one.code.idl_docs_json.as_str()).as_str(),
        string_literal(one.code.idl_disc.as_str()).as_str(),
        one.code.idl_accounts_type.as_str(),
        one.code.idl_args.as_str(),
        one.code.idl_returns_json.as_str(),
    ).concat("\n")
}

/// The statement that registers what the accounts of an instruction depend on.
pub open spec fn idl_accounts(one: GeneratedView) -> Seq<char> {
    filled(IDL_ACCOUNTS@, seq![one.cfg, one.code.idl_accounts_type]) + "\n"@
}

fn print_idl_accounts(one: &Generated) -> (out: String)
    ensures
        out@ == idl_accounts(one@),
{
    fill2(IDL_ACCOUNTS, one.cfg.as_str(), one.code.idl_accounts_type.as_str()).concat("\n")
}

/// The statement that registers what the value of an instruction depends on.
pub open spec fn return_register(ty: Option<Seq<char>>) -> Seq<char> {
    match ty {
        Some(ty) => filled(IDL_TYPE@, seq![ty]),
        None => ""@,
    }
}

/// The statements that register what the arguments and the value of an instruction
/// depend on.
pub open spec fn idl_types(one: GeneratedView) -> Seq<char> {
    filled(
        IDL_TYPES@,
        seq![
            one.cfg,
            concat_all(
                one.code.arg_types.map_values(|ty: Seq<char>| filled(IDL_TYPE@, seq![ty])),
            ),
            return_register(one.code.return_type),
        ],
    ) + "\n"@
}

fn print_idl_types(one: &Generated) -> (out: String)
    ensures
        out@ == idl_types(one@),
{
    let arg_types = map_texts(
        &one.code.arg_types,
        |ty: &String| -> (s: String)
            ensures
                s@ == filled(IDL_TYPE@, seq![ty@])
            { fill1(IDL_TYPE, ty.as_str()) },
        Ghost(|ty: String| filled(IDL_TYPE@, seq![ty@])),
    );
    assert(texts(one.code.arg_types@).map_values(|ty: Seq<char>| filled(IDL_TYPE@, seq![ty]))
        == one.code.arg_types@.map_values(|ty: String| filled(IDL_TYPE@, seq![ty@])));
    let value = match &one.code.return_type {
        Some(ty) => fill1(IDL_TYPE, ty.as_str()),
        None => "".to_owned(),
    };
    fill3(
        IDL_TYPES,
        one.cfg.as_str(),
        concat_strings(&arg_types).as_str(),
        value.as_str(),
    ).concat("\n")
}

/// The statement that calls a handler.
pub open spec fn section_dispatch_arm(one: GeneratedView) -> Seq<char> {
    one.code.dispatch_arm + "\n"@
}

fn print_dispatch_arm(one: &Generated) -> (out: String)
    ensures
        out@ == section_dispatch_arm(one@),
{
    one.code.dispatch_arm.clone().concat("\n")
}

/// The wrapper of a handler.
pub open spec fn section_wrapper(one: GeneratedView) -> Seq<char> {
    one.code.wrapper + "\n"@
}

fn print_wrapper(one: &Generated) -> (out: String)
    ensures
        out@ == section_wrapper(one@),
{
    one.code.wrapper.clone().concat("\n")
}

/// The struct by which a client writes an instruction.
pub open spec fn section_instruction_struct(one: GeneratedView) -> Seq<char> {
    one.code.instruction_struct + "\n"@
}

fn print_instruction_struct(one: &Generated) -> (out: String)
    ensures
        out@ == section_instruction_struct(one@),
{
    one.code.instruction_struct.clone().concat("\n")
}

/// The function by which another program calls a handler.
pub open spec fn section_cpi_wrapper(one: GeneratedView) -> Seq<char> {
    one.code.cpi_wrapper + "\n"@
}

fn print_cpi_wrapper(one: &Generated) -> (out: String)
    ensures
        out@ == section_cpi_wrapper(one@),
{
    one.code.cpi_wrapper.clone().concat("\n")
}

/// A section of the program: one text per handler, one after the other.
pub open spec fn section(all: Seq<GeneratedView>, text: spec_fn(GeneratedView) -> Seq<char>) -> Seq<
    char,
> {
    concat_all(all.map_values(text))
}

fn print_section<F: Fn(&Generated) -> String>(
    all: &Vec<Generated>,
    f: F,
    Ghost(text): Ghost<spec_fn(GeneratedView) -> Seq<char>>,
) -> (out: String)
    requires
        forall|i: int| 0 <= i < all@.len() ==> #[trigger] f.requires((&all@[i],)),
        forall|i: int, s: String|
            0 <= i < all@.len() && #[trigger] f.ensures((&all@[i],), s) ==> s@ == text(all@[i]@),
    ensures
        out@ == section(all_view(all@), text),
{
    let parts = map_texts(all, f, Ghost(|one: Generated| text(one@)));
    assert(all_view(all@).map_values(text) == all@.map_values(|one: Generated| text(one@)));
    concat_strings(&parts)
}

/// What clients and other programs use.
pub open spec fn client_interface(all: Seq<GeneratedView>, mode: ProgramMode) -> Seq<char> {
    filled(
        CLIENT_INTERFACE@,
        seq![
            section(all, |one: GeneratedView| section_instruction_struct(one)),
            if mode == ProgramMode::Interface { "pub use super::*;"@ } else { ""@ },
            once_per_accounts(all, false, all.len() as int),
            if mode == ProgramMode::Interface { ""@ } else { "#[cfg(feature = \"cpi\")]"@ },
            once_per_accounts(all, true, all.len() as int),
            section(all, |one: GeneratedView| section_cpi_wrapper(one)),
        ],
    )
}

fn print_client_interface(all: &Vec<Generated>, mode: ProgramMode) -> (out: String)
    ensures
        out@ == client_interface(all_view(all@), mode),
{
    let interface = mode == ProgramMode::Interface;
    let structs = print_section(
        all,
        |one: &Generated| -> (s: String)
            ensures
                s@ == section_instruction_struct(one@)
            { print_instruction_struct(one) },
        Ghost(|one: GeneratedView| section_instruction_struct(one)),
    );
    let wrappers = print_section(
        all,
        |one: &Generated| -> (s: String)
            ensures
                s@ == section_cpi_wrapper(one@)
            { print_cpi_wrapper(one) },
        Ghost(|one: GeneratedView| section_cpi_wrapper(one)),
    );
    fill6(
        CLIENT_INTERFACE,
        structs.as_str(),
        if interface { "pub use super::*;" } else { "" },
        print_once_per_accounts(all, false).as_str(),
        if interface { "" } else { "#[cfg(feature = \"cpi\")]" },
        print_once_per_accounts(all, true).as_str(),
        wrappers.as_str(),
    )
}

/// The whole program, once its handlers were accepted.
pub open spec fn assembled(
    module: ProgramModule,
    config: ProgramConfig,
    all: Seq<GeneratedView>,
    event_authority: Option<Vec<u8>>,
) -> Seq<char> {
    let items = module.items->Some_0@;
    let handlers = succeeded(handler_texts(handlers_in(items)));
    let client = client_interface(all, config.mode);
    if config.mode == ProgramMode::Interface {
        filled(
            INTERFACE_PROGRAM@,
            seq![module.vis@, module.ident.text@, others_in(items), handlers, client],
        )
    } else {
        filled(
            EXECUTABLE_PROGRAM@,
            seq![
                module.vis@,
                module.ident.text@,
                others_in(items),
                handlers,
                filled(EVENT_CPI_DISPATCH@, seq![authority_check(event_authority)]),
                section(all, |one: GeneratedView| section_dispatch_arm(one)),
                section(all, |one: GeneratedView| section_wrapper(one)),
                client,
                section(all, |one: GeneratedView| idl_entry(one)),
                section(all, |one: GeneratedView| idl_accounts(one)),
                section(all, |one: GeneratedView| idl_types(one)),
            ],
        )
    }
}

/// Why a module without a body is refused.
pub const NO_INLINE_BODY: &'static str = "`#[program]` module must have an inline body";

/// What the `program` macro makes of a module, or all failures of its first check
/// that fails. `discs` are the discriminators of the handlers as JSON.
pub open spec fn program_code(
    module: ProgramModule,
    config: ProgramConfig,
    idl: Seq<HandlerIdl>,
    discs: Seq<Seq<char>>,
    event_authority: Option<Vec<u8>>,
) -> Result<Seq<char>, Seq<FailureView>> {
    match module.items {
        None => Err(seq![diagnostic(module.ident.span, NO_INLINE_BODY@)]),
        Some(items) => {
            let handlers = handlers_in(items@);
            match given_discrims(handlers) {
                Err(failure) => Err(seq![failure]),
                Ok(discrims) => match discrims_check(handlers, discrims, config.mode) {
                    Err(failure) => Err(seq![failure]),
                    Ok(_) => match generated(
                        handlers,
                        module.ident.text@,
                        discrims,
                        config.program_id@,
                        idl,
                        discs,
                    ) {
                        Err(failure) => Err(seq![failure]),
                        Ok(all) => if refusals(all).len() > 0 {
                            Err(refusals(all))
                        } else if failed(handler_texts(handlers)).len() > 0 {
                            Err(failed(handler_texts(handlers)))
                        } else {
                            Ok(assembled(module, config, all, event_authority))
                        },
                    },
                },
            }
        },
    }
}

fn one_failure(failure: Failure) -> (out: Vec<Failure>)
    ensures
        failures_view(out@) == seq![failure@],
{
    let out = vec![failure];
    assert(failures_view(out@) == seq![failure@]);
    out
}

fn assemble(
    module: &ProgramModule,
    items: &Vec<ModItem>,
    config: &ProgramConfig,
    all: &Vec<Generated>,
    handlers: &str,
    event_authority: &Option<Vec<u8>>,
) -> (out: String)
    requires
        module.items == Some(*items),
        handlers@ == succeeded(handler_texts(handlers_in(items@))),
    ensures
        out@ == assembled(*module, *config, all_view(all@), *event_authority),
{
    let client = print_client_interface(all, config.mode);
    let others = print_others(items);
    if config.mode == ProgramMode::Interface {
        return fill5(
            INTERFACE_PROGRAM,
            module.vis.as_str(),
            module.ident.text.as_str(),
            others.as_str(),
            handlers,
            client.as_str(),
        );
    }
    let event_cpi_dispatch = fill1(
        EVENT_CPI_DISPATCH,
        event_authority_dispatch_check(event_authority).as_str(),
    );
    let dispatch_arms = print_section(
        all,
        |one: &Generated| -> (s: String)
            ensures
                s@ == section_dispatch_arm(one@)
            { print_dispatch_arm(one) },
        Ghost(|one: GeneratedView| section_dispatch_arm(one)),
    );
    let wrappers = print_section(
        all,
        |one: &Generated| -> (s: String)
            ensures
                s@ == section_wrapper(one@)
            { print_wrapper(one) },
        Ghost(|one: GeneratedView| section_wrapper(one)),
    );
    let entries = print_section(
        all,
        |one: &Generated| -> (s: String)
            ensures
                s@ == idl_entry(one@)
            { print_idl_entry(one) },
        Ghost(|one: GeneratedView| idl_entry(one)),
    );
    let accounts = print_section(
        all,
        |one: &Generated| -> (s: String)
            ensures
                s@ == idl_accounts(one@)
            { print_idl_accounts(one) },
        Ghost(|one: GeneratedView| idl_accounts(one)),
    );
    let types = print_section(
        all,
        |one: &Generated| -> (s: String)
            ensures
                s@ == idl_types(one@)
            { print_idl_types(one) },
        Ghost(|one: GeneratedView| idl_types(one)),
    );
    fill11(
        EXECUTABLE_PROGRAM,
        module.vis.as_str(),
        module.ident.text.as_str(),
        others.as_str(),
        handlers,
        event_cpi_dispatch.as_str(),
        dispatch_arms.as_str(),
        wrappers.as_str(),
        client.as_str(),
        entries.as_str(),
        accounts.as_str(),
        types.as_str(),
    )
}

/// The bytes that the instruction data of the handler at a place begins with.
pub open spec fn written_bytes(
    handlers: Seq<&HandlerFn>,
    discrims: Seq<Option<DiscrimView>>,
    i: int,
) -> Seq<u8> {
    discriminator_bytes(
        handlers[i].ident.text@,
        match discrims[i] {
            Some(discrim) => Some(discrim.bytes),
            None => None,
        },
    )
}

/// Whether texts are what the function may write for the discriminators of the handlers
/// of a module, each for the bytes that its handler is dispatched on.
pub open spec fn discs_written<W: Fn(&Vec<u8>) -> String>(
    disc_json: W,
    module: ProgramModule,
    discs: Seq<Seq<char>>,
) -> bool {
    module.items matches Some(items) ==> {
        let handlers = handlers_in(items@);
        &&& discs.len() == handlers.len()
        &&& given_discrims(handlers) matches Ok(discrims) ==> forall|i: int|
            0 <= i < discs.len() ==> may_write(
                disc_json,
                written_bytes(handlers, discrims, i),
                #[trigger] discs[i],
            )
    }
}

fn write_discs<W: Fn(&Vec<u8>) -> String>(module: &ProgramModule, disc_json: &W) -> (discs: Vec<
    String,
>)
    requires
        writes_any(*disc_json),
    ensures
        discs_written(*disc_json, *module, texts(discs@)),
{
    let mut discs: Vec<String> = Vec::new();
    let items = match &module.items {
        Some(items) => items,
        None => return discs,
    };
    let handlers = find_handlers(items);
    let discrims = match read_discrims(&handlers) {
        Ok(discrims) => discrims,
        Err(_) => {
            for i in 0..handlers.len()
                invariant
                    discs@.len() == i,
            {
                discs.push(String::new());
            }
            return discs;
        },
    };
    let ghost views = discrims_view(discrims@);
    for i in 0..handlers.len()
        invariant
            writes_any(*disc_json),
            views == discrims_view(discrims@),
            handlers@.len() == discrims@.len(),
            discs@.len() == i,
            forall|j: int|
                0 <= j < i ==> may_write(
                    *disc_json,
                    written_bytes(handlers@, views, j),
                    #[trigger] discs@[j]@,
                ),
    {
        assert(views[i as int] == discrim_option_view(discrims@[i as int]));
        let bytes = match &discrims[i] {
            Some(discrim) => copy_bytes(&discrim.bytes),
            None => default_instruction_discriminator(handlers[i].ident.text.as_str()),
        };
        assert(bytes@ == written_bytes(handlers@, views, i as int));
        discs.push(write_disc(disc_json, &bytes));
    }
    assert forall|i: int| 0 <= i < texts(discs@).len() implies may_write(
        *disc_json,
        written_bytes(handlers@, views, i),
        #[trigger] texts(discs@)[i],
    ) by {
        assert(texts(discs@)[i] == discs@[i]@);
    }
    discs
}

/// Expands the `program` macro. `idl` says for each handler what the interface
/// description holds, `disc_json` writes a discriminator as JSON: it is given the bytes
/// that the code holds, and `event_authority` is the address of the event authority
/// where it is known.
pub fn impl_program<W: Fn(&Vec<u8>) -> String>(
    module: &ProgramModule,
    config: &ProgramConfig,
    idl: &Vec<HandlerIdl>,
    disc_json: &W,
    event_authority: &Option<Vec<u8>>,
) -> (out: Result<String, Vec<Failure>>)
    requires
        module.items matches Some(items) ==> idl@.len() == handlers_in(items@).len(),
        writes_any(*disc_json),
    ensures
        exists|discs: Seq<Seq<char>>| #[trigger]
            discs_written(*disc_json, *module, discs) && codes_view(out) == program_code(
                *module,
                *config,
                idl@,
                discs,
                *event_authority,
            ),
{
    let discs = write_discs(module, disc_json);
    described_program(module, config, idl, &discs, event_authority)
}

/// Expands the `program` macro, given the discriminators of the handlers as JSON.
pub fn described_program(
    module: &ProgramModule,
    config: &ProgramConfig,
    idl: &Vec<HandlerIdl>,
    discs: &Vec<String>,
    event_authority: &Option<Vec<u8>>,
) -> (out: Result<String, Vec<Failure>>)
    requires
        module.items matches Some(items) ==> idl@.len() == handlers_in(items@).len() && discs@.len()
            == handlers_in(items@).len(),
    ensures
        codes_view(out) == program_code(*module, *config, idl@, texts(discs@), *event_authority),
{
    let items = match &module.items {
        Some(items) => items,
        None => {
            return Err(
                one_failure(new_diagnostic(module.ident.span, NO_INLINE_BODY.to_owned())),
            );
        },
    };
    let handlers = find_handlers(items);
    let discrims = match read_discrims(&handlers) {
        Ok(discrims) => discrims,
        Err(failure) => return Err(one_failure(failure)),
    };
    if let Err(failure) = check_discrims(&handlers, &discrims, config.mode) {
        return Err(one_failure(failure));
    }
    let mut all = match generate(
        &handlers,
        module.ident.text.as_str(),
        &discrims,
        config.program_id.as_str(),
        idl,
        discs,
    ) {
        Ok(all) => all,
        Err(failure) => return Err(one_failure(failure)),
    };
    let refused = split_refusals(&mut all);
    assert(failures_view(refused@).len() == refused@.len());
    if refused.len() > 0 {
        return Err(refused);
    }
    let (text, failures) = print_handlers(&handlers);
    assert(failures_view(failures@).len() == failures@.len());
    if failures.len() > 0 {
        return Err(failures);
    }
    Ok(assemble(module, items, config, &all, text.as_str(), event_authority))
}

// ---------------------------------------------------------------------------
// Laws
// ---------------------------------------------------------------------------

proof fn lemma_byte_checks(
    handlers: Seq<&HandlerFn>,
    discrims: Seq<Option<DiscrimView>>,
    gated: bool,
    n: int,
    i: int,
)
    requires
        byte_checks(handlers, discrims, gated, n) is Ok,
        0 <= i < n,
    ensures
        byte_check(handlers, discrims, gated, i) is Ok,
    decreases n,
{
    assert(byte_checks(handlers, discrims, gated, n - 1) is Ok);
    if i < n - 1 {
        lemma_byte_checks(handlers, discrims, gated, n - 1, i);
    }
}

proof fn lemma_first_missing(discrims: Seq<Option<DiscrimView>>)
    ensures
        0 <= first_missing(discrims) <= discrims.len(),
        forall|i: int| 0 <= i < first_missing(discrims) ==> (#[trigger] discrims[i]) is Some,
    decreases discrims.len(),
{
    if discrims.len() > 0 && discrims[0] is Some {
        lemma_first_missing(discrims.skip(1));
        assert forall|i: int| 0 <= i < first_missing(discrims) implies (#[trigger] discrims[i]) is Some by {
            if i > 0 {
                assert(discrims.skip(1)[i - 1] == discrims[i]);
            }
        }
    }
}

/// In an executable program without conditional handlers, where attributes give
/// discriminators, each handler has one: a byte of its own.
pub proof fn lemma_executable_bytes(
    module: ProgramModule,
    config: ProgramConfig,
    idl: Seq<HandlerIdl>,
    discs: Seq<Seq<char>>,
    event_authority: Option<Vec<u8>>,
    i: int,
    j: int,
)
    requires
        program_code(module, config, idl, discs, event_authority) is Ok,
        config.mode == ProgramMode::Executable,
        !any_gated(handlers_in(module.items->Some_0@)),
        any_given(given_discrims(handlers_in(module.items->Some_0@))->Ok_0),
        0 <= i < j < handlers_in(module.items->Some_0@).len(),
    ensures
        ({
            let discrims = given_discrims(handlers_in(module.items->Some_0@))->Ok_0;
            &&& discrims[i] is Some
            &&& discrims[j] is Some
            &&& discrims[i]->Some_0.bytes.len() == 1
            &&& discrims[j]->Some_0.bytes.len() == 1
            &&& discrims[i]->Some_0.bytes != discrims[j]->Some_0.bytes
        }),
{
    let handlers = handlers_in(module.items->Some_0@);
    lemma_collected_len(
        handlers.map_values(|handler: &HandlerFn| attr_discrim(handler.attrs@)),
    );
    let discrims = given_discrims(handlers)->Ok_0;
    lemma_first_missing(discrims);
    assert(first_missing(discrims) == discrims.len());
    let n = discrims.len() as int;
    assert(discrims[i] is Some);
    assert(discrims[j] is Some);
    lemma_byte_checks(handlers, discrims, false, n, i);
    lemma_byte_checks(handlers, discrims, false, n, j);
    assert(!byte_taken(discrims, j));
}

/// Whether an attribute gives the handler at a place its discriminator, or its name is
/// in snake case.
pub open spec fn plainly_named(
    handlers: Seq<&HandlerFn>,
    discrims: Seq<Option<DiscrimView>>,
    i: int,
) -> bool {
    discrims[i] is Some || snake_case(handlers[i].ident.text@) == handlers[i].ident.text@
}

/// In an interface without conditional handlers, instruction data begins with what one
/// handler name at most writes. Names are in snake case, where no attribute gives the
/// discriminator.
pub proof fn lemma_interface_told_apart(
    module: ProgramModule,
    config: ProgramConfig,
    idl: Seq<HandlerIdl>,
    discs: Seq<Seq<char>>,
    event_authority: Option<Vec<u8>>,
    data: Seq<u8>,
    i: int,
    j: int,
)
    requires
        program_code(module, config, idl, discs, event_authority) is Ok,
        config.mode == ProgramMode::Interface,
        !any_gated(handlers_in(module.items->Some_0@)),
        0 <= i < handlers_in(module.items->Some_0@).len(),
        0 <= j < handlers_in(module.items->Some_0@).len(),
        ({
            let handlers = handlers_in(module.items->Some_0@);
            let discrims = given_discrims(handlers)->Ok_0;
            &&& plainly_named(handlers, discrims, i)
            &&& plainly_named(handlers, discrims, j)
            &&& has_prefix(data, written_bytes(handlers, discrims, i))
            &&& has_prefix(data, written_bytes(handlers, discrims, j))
        }),
    ensures
        handlers_in(module.items->Some_0@)[i].ident.text@ == handlers_in(
            module.items->Some_0@,
        )[j].ident.text@,
{
    let handlers = handlers_in(module.items->Some_0@);
    let named = named_handlers(handlers, given_discrims(handlers)->Ok_0);
    lemma_one_match(named, data, i, j);
}

/// An interface does nothing when it is called: what is made of it does not depend on
/// the event authority that a dispatcher checks.
pub proof fn lemma_interface_without_dispatch(
    module: ProgramModule,
    config: ProgramConfig,
    idl: Seq<HandlerIdl>,
    discs: Seq<Seq<char>>,
    event_authority: Option<Vec<u8>>,
    other: Option<Vec<u8>>,
)
    requires
        config.mode == ProgramMode::Interface,
    ensures
        program_code(module, config, idl, discs, event_authority) == program_code(
            module,
            config,
            idl,
            discs,
            other,
        ),
{
}

/// The accounts struct of every handler is exported for the first handler with it, and
/// for that one alone.
pub proof fn lemma_accounts_once(all: Seq<GeneratedView>, i: int) -> (k: int)
    requires
        0 <= i < all.len(),
    ensures
        0 <= k <= i,
        all[k].code.accounts_type_name == all[i].code.accounts_type_name,
        !accounts_seen(all, k),
        forall|j: int|
            0 <= j < all.len() && j != k && (#[trigger] all[j]).code.accounts_type_name
                == all[i].code.accounts_type_name ==> accounts_seen(all, j),
    decreases i,
{
    if accounts_seen(all, i) {
        let before = choose|before: int|
            0 <= before < i && (#[trigger] all[before]).code.accounts_type_name
                == all[i].code.accounts_type_name;
        lemma_accounts_once(all, before)
    } else {
        assert forall|j: int|
            0 <= j < all.len() && j != i && (#[trigger] all[j]).code.accounts_type_name
                == all[i].code.accounts_type_name implies accounts_seen(all, j) by {
            if j < i {
                assert(accounts_seen(all, i));
            } else {
                assert(all[i].code.accounts_type_name == all[j].code.accounts_type_name);
            }
        }
        i
    }
}

} // verus!
