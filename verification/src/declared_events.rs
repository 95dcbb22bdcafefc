//! Events of an interface description.

use crate::discriminator::{array_discriminator, parse_discriminator_array};
use crate::failure::{
    at_call_site, call_site, code_view, collected, diagnostic, lemma_collected_prefix,
    new_diagnostic, Failure, FailureView,
};
use crate::handler::{byte_literals, print_byte_literals};
use crate::json::{array_at, elements, json_str, json_text, required_text, Json};
use crate::names::{item_name, new_ident, to_type_name, type_case};
use crate::template::{fill1, fill2, fill3, filled};
use crate::text::{map_texts, terminate_strings, terminated, texts};
use crate::type_defs::{entry_named, find_entry};
use crate::type_parts::{declare_type_serialization, serialization_of};
use vstd::prelude::*;

verus! {

/// How an event whose bytes are its value is logged.
pub const EVENT_DATA_POD: &'static str = r#"impl anchor_lang::Event for @a {
    fn data(&self) -> anchor_lang::__alloc::vec::Vec<u8> {
        let disc = <Self as anchor_lang::Discriminator>::DISCRIMINATOR;
        let payload = anchor_lang::bytemuck::bytes_of(self);
        let mut data =
            anchor_lang::__alloc::vec::Vec::with_capacity(disc.len() + payload.len());
        data.extend_from_slice(disc);
        data.extend_from_slice(payload);
        data
    }
}"#;

/// How a serialised event is logged.
pub const EVENT_DATA_BORSH: &'static str = r#"impl anchor_lang::Event for @a {
    fn data(&self) -> anchor_lang::__alloc::vec::Vec<u8> {
        let disc = <Self as anchor_lang::Discriminator>::DISCRIMINATOR;
        let mut data =
            anchor_lang::__alloc::vec::Vec::with_capacity(disc.len() + 256);
        data.extend_from_slice(disc);
        anchor_lang::wincode::config::serialize_into(
            &mut data,
            self,
            anchor_lang::BORSH_CONFIG,
        )
        .expect("declared event serialization cannot fail for derived AnchorSerialize types");
        data
    }
}"#;

/// What an event is told apart by, and how it is logged.
pub const EVENT_IMPLS: &'static str = r#"impl anchor_lang::Discriminator for @a {
    const DISCRIMINATOR: &'static [u8] = &[@b];
}

@c"#;

/// How an event whose bytes are its value is read.
pub const PARSE_POD: &'static str = r#"let payload = &value[<super::events::@a as anchor_lang::Discriminator>::DISCRIMINATOR.len()..];
let expected = core::mem::size_of::<super::events::@a>();
if payload.len() != expected {
    return Err(anchor_lang::Error::InvalidInstructionData);
}
return Ok(Self::@a(
    anchor_lang::bytemuck::pod_read_unaligned(payload)
));"#;

/// How a serialised event is read.
pub const PARSE_BORSH: &'static str = r#"let mut payload = &value[<super::events::@a as anchor_lang::Discriminator>::DISCRIMINATOR.len()..];
let decoded =
    <super::events::@a as anchor_lang::wincode::SchemaRead<
        '_,
        anchor_lang::BorshConfig,
    >>::get(&mut payload)
    .map_err(|_| anchor_lang::Error::InvalidInstructionData)?;
if !payload.is_empty() {
    return Err(anchor_lang::Error::InvalidInstructionData);
}
return Ok(Self::@a(decoded));"#;

/// Reads an event where its discriminator comes first.
pub const PARSE_BRANCH: &'static str = r#"if value.starts_with(
    <super::events::@a as anchor_lang::Discriminator>::DISCRIMINATOR,
) {
    @b
}"#;

/// The type that holds any event, and how it is read.
pub const PARSERS: &'static str = r#"pub mod parsers {
    use super::*;

    pub enum Event {
        @a
    }

    impl Event {
        pub fn parse(data: &[u8]) -> anchor_lang::Result<Self> {
            Self::try_from(data)
        }
    }

    impl core::convert::TryFrom<&[u8]> for Event {
        type Error = anchor_lang::Error;

        fn try_from(value: &[u8]) -> anchor_lang::Result<Self> {
            @b
            Err(anchor_lang::Error::InvalidArgument)
        }
    }
}"#;

/// The events of a program.
pub const EVENTS: &'static str = r#"pub mod events {
    use super::*;

    @a
}

@b

@c"#;


/// What stands for the events of a program without any.
pub const NO_EVENTS: &'static str = r#"pub mod events {
    use super::*;
}"#;

/// An event: the name of its type, its discriminator, and whether its bytes are its
/// value.
pub struct DeclaredEvent {
    pub ident: String,
    pub bytes: Vec<u8>,
    pub pod: bool,
}

/// An event, as sequences.
pub struct EventView {
    pub ident: Seq<char>,
    pub bytes: Seq<u8>,
    pub pod: bool,
}

impl View for DeclaredEvent {
    type V = EventView;

    open spec fn view(&self) -> EventView {
        EventView { ident: self.ident@, bytes: self.bytes@, pod: self.pod }
    }
}

/// Events, as sequences.
pub open spec fn events_view(events: Seq<DeclaredEvent>) -> Seq<EventView> {
    events.map_values(|event: DeclaredEvent| event@)
}

/// The discriminator of an event, which must have one.
pub open spec fn event_bytes(event: Json, name: Seq<char>) -> Result<Seq<u8>, FailureView> {
    match array_at(event, "discriminator"@) {
        Some(values) => array_discriminator(values, call_site()),
        None => Err(
            diagnostic(
                call_site(),
                "event `"@ + name + "` is missing discriminator in `"@ + json_text(event) + "`"@,
            ),
        ),
    }
}

/// An event that an entry describes. There must be a type of its name.
pub open spec fn declared_event(event: Json, types: Seq<Json>) -> Result<EventView, FailureView> {
    match required_text(event, "name"@, call_site()) {
        Err(failure) => Err(failure),
        Ok(name) => match item_name(type_case(name)) {
            Err(failure) => Err(failure),
            Ok(ident) => match event_bytes(event, name) {
                Err(failure) => Err(failure),
                Ok(bytes) => match entry_named(types, name) {
                    None => Err(
                        diagnostic(
                            call_site(),
                            "event `"@ + name + "` is missing matching type definition"@,
                        ),
                    ),
                    Some(ty_def) => match serialization_of(ty_def, call_site()) {
                        Err(failure) => Err(failure),
                        Ok(serialization) => Ok(
                            EventView { ident, bytes, pod: !(serialization is Borsh) },
                        ),
                    },
                },
            },
        },
    }
}

/// The import of an event.
pub open spec fn event_reexport(event: EventView) -> Seq<char> {
    "pub use super::"@ + event.ident + ";"@
}

/// What an event is told apart by, and how it is logged.
pub open spec fn event_impls(event: EventView) -> Seq<char> {
    filled(
        EVENT_IMPLS@,
        seq![
            event.ident,
            byte_literals(event.bytes),
            filled(
                if event.pod {
                    EVENT_DATA_POD@
                } else {
                    EVENT_DATA_BORSH@
                },
                seq![event.ident],
            ),
        ],
    )
}

/// The variant for an event.
pub open spec fn event_variant(event: EventView) -> Seq<char> {
    event.ident + "(super::events::"@ + event.ident + "),"@
}

/// How an event is read.
pub open spec fn event_branch(event: EventView) -> Seq<char> {
    filled(
        PARSE_BRANCH@,
        seq![
            event.ident,
            filled(
                if event.pod {
                    PARSE_POD@
                } else {
                    PARSE_BORSH@
                },
                seq![event.ident],
            ),
        ],
    )
}

/// The type that holds any event; nothing where there are none.
pub open spec fn parsers_text(events: Seq<EventView>) -> Seq<char> {
    if events.len() == 0 {
        ""@
    } else {
        filled(
            PARSERS@,
            seq![
                terminated(events.map_values(|event: EventView| event_variant(event)), "\n"@),
                terminated(events.map_values(|event: EventView| event_branch(event)), "\n"@),
            ],
        )
    }
}

/// Events as items.
pub open spec fn events_text(events: Seq<EventView>) -> Seq<char> {
    filled(
        EVENTS@,
        seq![
            terminated(events.map_values(|event: EventView| event_reexport(event)), "\n"@),
            terminated(events.map_values(|event: EventView| event_impls(event)), "\n"@),
            parsers_text(events),
        ],
    )
}

/// The events of an interface description as items.
pub open spec fn declared_events(idl: Json) -> Result<Seq<char>, FailureView> {
    match array_at(idl, "events"@) {
        None => Ok(NO_EVENTS@),
        Some(list) => match collected(
            list.map_values(|event: Json| declared_event(event, elements(idl, "types"@))),
        ) {
            Err(failure) => Err(failure),
            Ok(events) => Ok(events_text(events)),
        },
    }
}

/// The event or the failure, as sequences.
pub open spec fn event_view(result: Result<DeclaredEvent, Failure>) -> Result<
    EventView,
    FailureView,
> {
    match result {
        Ok(event) => Ok(event@),
        Err(failure) => Err(failure@),
    }
}

fn read_event(event: &Json, types: &Vec<Json>) -> (out: Result<DeclaredEvent, Failure>)
    ensures
        event_view(out) == declared_event(*event, types@),
{
    let span = at_call_site();
    let name = match json_str(event, "name", span) {
        Err(failure) => return Err(failure),
        Ok(name) => name,
    };
    let ident = match new_ident(to_type_name(name)) {
        Err(failure) => return Err(failure),
        Ok(ident) => ident,
    };
    let bytes = match event.array_at("discriminator") {
        Some(values) => match parse_discriminator_array(values, span) {
            Err(failure) => return Err(failure),
            Ok(bytes) => bytes,
        },
        None => {
            let shown = event.to_text();
            return Err(
                new_diagnostic(
                    span,
                    "event `".to_owned().concat(name).concat(
                        "` is missing discriminator in `",
                    ).concat(shown.as_str()).concat("`"),
                ),
            );
        },
    };
    let ty_def = match find_entry(types, name) {
        None => return Err(
            new_diagnostic(
                span,
                "event `".to_owned().concat(name).concat(
                    "` is missing matching type definition",
                ),
            ),
        ),
        Some(ty_def) => ty_def,
    };
    match declare_type_serialization(ty_def, span) {
        Err(failure) => Err(failure),
        Ok(serialization) => Ok(DeclaredEvent { ident, bytes, pod: serialization.is_bytemuck() }),
    }
}

fn print_reexport(event: &DeclaredEvent) -> (out: String)
    ensures
        out@ == event_reexport(event@),
{
    "pub use super::".to_owned().concat(event.ident.as_str()).concat(";")
}

fn print_impls(event: &DeclaredEvent) -> (out: String)
    ensures
        out@ == event_impls(event@),
{
    let template = if event.pod {
        EVENT_DATA_POD
    } else {
        EVENT_DATA_BORSH
    };
    fill3(
        EVENT_IMPLS,
        event.ident.as_str(),
        print_byte_literals(&event.bytes).as_str(),
        fill1(template, event.ident.as_str()).as_str(),
    )
}

fn print_variant(event: &DeclaredEvent) -> (out: String)
    ensures
        out@ == event_variant(event@),
{
    event.ident.clone().concat("(super::events::").concat(event.ident.as_str()).concat("),")
}

fn print_branch(event: &DeclaredEvent) -> (out: String)
    ensures
        out@ == event_branch(event@),
{
    let template = if event.pod {
        PARSE_POD
    } else {
        PARSE_BORSH
    };
    fill2(
        PARSE_BRANCH,
        event.ident.as_str(),
        fill1(template, event.ident.as_str()).as_str(),
    )
}

fn print_parsers(events: &Vec<DeclaredEvent>) -> (out: String)
    ensures
        out@ == parsers_text(events_view(events@)),
{
    if events.len() == 0 {
        return "".to_owned();
    }
    let variants = map_texts(
        events,
        |event: &DeclaredEvent| -> (s: String)
            ensures
                s@ == event_variant(event@)
            { print_variant(event) },
        Ghost(|event: DeclaredEvent| event_variant(event@)),
    );
    assert(texts(variants@) =~= events_view(events@).map_values(
        |event: EventView| event_variant(event),
    ));
    let branches = map_texts(
        events,
        |event: &DeclaredEvent| -> (s: String)
            ensures
                s@ == event_branch(event@)
            { print_branch(event) },
        Ghost(|event: DeclaredEvent| event_branch(event@)),
    );
    assert(texts(branches@) =~= events_view(events@).map_values(
        |event: EventView| event_branch(event),
    ));
    fill2(
        PARSERS,
        terminate_strings(&variants, "\n").as_str(),
        terminate_strings(&branches, "\n").as_str(),
    )
}

fn print_events(events: &Vec<DeclaredEvent>) -> (out: String)
    ensures
        out@ == events_text(events_view(events@)),
{
    let reexports = map_texts(
        events,
        |event: &DeclaredEvent| -> (s: String)
            ensures
                s@ == event_reexport(event@)
            { print_reexport(event) },
        Ghost(|event: DeclaredEvent| event_reexport(event@)),
    );
    assert(texts(reexports@) =~= events_view(events@).map_values(
        |event: EventView| event_reexport(event),
    ));
    let impls = map_texts(
        events,
        |event: &DeclaredEvent| -> (s: String)
            ensures
                s@ == event_impls(event@)
            { print_impls(event) },
        Ghost(|event: DeclaredEvent| event_impls(event@)),
    );
    assert(texts(impls@) =~= events_view(events@).map_values(
        |event: EventView| event_impls(event),
    ));
    fill3(
        EVENTS,
        terminate_strings(&reexports, "\n").as_str(),
        terminate_strings(&impls, "\n").as_str(),
        print_parsers(events).as_str(),
    )
}

/// Writes the events of an interface description.
pub fn gen_declare_program_events(idl: &Json) -> (out: Result<String, Failure>)
    ensures
        code_view(out) == declared_events(*idl),
{
    let list = match idl.array_at("events") {
        None => return Ok(NO_EVENTS.to_owned()),
        Some(list) => list,
    };
    let none: Vec<Json> = Vec::new();
    let types = idl.array_or("types", &none);
    let ghost results = list@.map_values(
        |event: Json| declared_event(event, elements(*idl, "types"@)),
    );
    let mut events: Vec<DeclaredEvent> = Vec::new();
    assert(events_view(events@) == Seq::<EventView>::empty());
    for i in 0..list.len()
        invariant
            array_at(*idl, "events"@) == Some(list@),
            types@ == elements(*idl, "types"@),
            results == list@.map_values(
                |event: Json| declared_event(event, elements(*idl, "types"@)),
            ),
            collected(results.take(i as int)) == Ok::<Seq<EventView>, FailureView>(
                events_view(events@),
            ),
    {
        assert(results.take(i + 1).drop_last() == results.take(i as int));
        match read_event(&list[i], types) {
            Ok(event) => {
                let ghost before = events_view(events@);
                events.push(event);
                assert(events_view(events@) == before.push(event@));
            },
            Err(failure) => {
                proof {
                    lemma_collected_prefix(results, i + 1);
                }
                return Err(failure);
            },
        }
    }
    assert(results.take(list@.len() as int) == results);
    Ok(print_events(&events))
}

} // verus!
