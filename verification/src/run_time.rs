//! What single statements of the generated code do when they run, and what follows for
//! the data and the accounts that pass through them.

use crate::accounts::{
    accepted_accounts, all_prepared, client_field, client_meta_step, client_module, client_signer,
    derive_stmts, each, finder_text, full_meta_step, picked, required_binding, required_field,
    resolved_struct, scope_of, AccountsReadings, PreparedView, CLIENT_META, CLIENT_META_NESTED,
    CLIENT_META_OPTIONAL, CLIENT_MODULE, RESOLVED_STRUCT,
};
use crate::attrs::{attrs_text, Token};
use crate::cpi_accounts::{
    cpi_accounts_code, cpi_impl, field_accounts, field_reading, is_writable, scanned, CpiFieldKind,
    CpiFieldView,
};
use crate::declared_events::{
    declared_event, declared_events, event_branch, event_impls, event_reexport, event_variant,
    parsers_text, EventView, EVENTS, PARSERS,
};
use crate::event::{
    discriminator_impl, event_expansion, event_header, field_diagnostics, EventIdl,
    BYTEMUCK_EVENT, IDL_EVENT_PRINT, IDL_EVENT_TYPE, WINCODE_EVENT,
};
use crate::failure::{collected, lemma_collected_len};
use crate::field_attrs::{first_program_id, only_program_id};
use crate::handler::{
    accepted_code, discriminator_bytes, dispatch_on, instruction_struct_text, le_word,
    HandlerIdl, HandlerParts,
};
use crate::instruction_attrs::declared_args;
use crate::items::{field_name, DeriveInput, Field};
use crate::json::{elements, Json};
use crate::modes::{event_mode, EventMode};
use crate::names::{camel_case, item_name};
use crate::outside::{literal_of, lowercase_of};
use crate::pod_fields::{dep_walkers, fields_of, pod_asserts, size_steps};
use crate::template::{filled, hole_part, lemma_filled_part, says, says_at};
use crate::text::{concat_all, flag, has_prefix, terminated};
use vstd::prelude::*;

verus! {

/// A text says what a part of it says.
pub proof fn lemma_says_within(text: Seq<char>, words: Seq<char>, part: Seq<char>)
    requires
        says(text, words),
        says(words, part),
    ensures
        says(text, part),
{
    let at = choose|at: int| says_at(text, words, at);
    let inner = choose|at: int| says_at(words, part, at);
    assert(text.subrange(at, at + words.len()).subrange(inner, inner + part.len())
        =~= text.subrange(at + inner, at + inner + part.len()));
    assert(says_at(text, part, at + inner));
}

// ---------------------------------------------------------------------------
// Instructions
// ---------------------------------------------------------------------------

/// What the statement of `dispatch_on` hands to the handler of instruction data: what
/// follows the discriminator, or nothing where the statement does not call the handler.
/// One byte is compared as it is, eight bytes as the number that they write.
pub open spec fn dispatched(bytes: Seq<u8>, data: Seq<u8>) -> Option<Seq<u8>> {
    if bytes.len() == 1 && data.len() >= 1 && data[0] == bytes[0] {
        Some(data.skip(1))
    } else if bytes.len() == 8 && data.len() >= 8 && le_word(data.take(8)) == le_word(bytes) {
        Some(data.skip(8))
    } else {
        None
    }
}

proof fn lemma_low_byte(a: int, high_a: int, b: int, high_b: int)
    requires
        0 <= a < 0x100,
        0 <= b < 0x100,
        a + 0x100 * high_a == b + 0x100 * high_b,
    ensures
        a == b,
        high_a == high_b,
{
}

/// Eight bytes are told by the number that they write.
pub proof fn lemma_le_word(a: Seq<u8>, b: Seq<u8>)
    requires
        a.len() == 8,
        b.len() == 8,
        le_word(a) == le_word(b),
    ensures
        a == b,
{
    let a7 = a[7] as int;
    let b7 = b[7] as int;
    let a6 = a[6] + 0x100 * a7;
    let b6 = b[6] + 0x100 * b7;
    let a5 = a[5] + 0x100 * a6;
    let b5 = b[5] + 0x100 * b6;
    let a4 = a[4] + 0x100 * a5;
    let b4 = b[4] + 0x100 * b5;
    let a3 = a[3] + 0x100 * a4;
    let b3 = b[3] + 0x100 * b4;
    let a2 = a[2] + 0x100 * a3;
    let b2 = b[2] + 0x100 * b3;
    let a1 = a[1] + 0x100 * a2;
    let b1 = b[1] + 0x100 * b2;
    assert(a[0] + 0x100 * a1 == b[0] + 0x100 * b1);
    lemma_low_byte(a[0] as int, a1, b[0] as int, b1);
    lemma_low_byte(a[1] as int, a2, b[1] as int, b2);
    lemma_low_byte(a[2] as int, a3, b[2] as int, b3);
    lemma_low_byte(a[3] as int, a4, b[3] as int, b4);
    lemma_low_byte(a[4] as int, a5, b[4] as int, b5);
    lemma_low_byte(a[5] as int, a6, b[5] as int, b6);
    lemma_low_byte(a[6] as int, a7, b[6] as int, b7);
    assert(a =~= b);
}

/// A handler is called exactly on the data that begins with its discriminator, and is
/// handed what follows it.
pub proof fn lemma_dispatched(bytes: Seq<u8>, data: Seq<u8>)
    requires
        bytes.len() == 1 || bytes.len() == 8,
    ensures
        dispatched(bytes, data) == (if has_prefix(data, bytes) {
            Some(data.skip(bytes.len() as int))
        } else {
            None
        }),
{
    if bytes.len() == 1 && data.len() >= 1 && data[0] == bytes[0] {
        assert(data.take(1) =~= bytes);
    }
    if bytes.len() == 1 && has_prefix(data, bytes) {
        assert(data.take(1)[0] == data[0]);
    }
    if bytes.len() == 8 && data.len() >= 8 && le_word(data.take(8)) == le_word(bytes) {
        lemma_le_word(data.take(8), bytes);
    }
}

/// What a client writes for an instruction is dispatched to the handler of that
/// instruction, which gets exactly the arguments as they were written; and no data is
/// that does not begin with the discriminator. The struct of the client and the test of
/// the dispatcher are written from the same bytes, and the interface description holds
/// the text that was made for the handler.
pub proof fn lemma_instruction_round_trip(
    parts: HandlerParts,
    idl: HandlerIdl,
    disc: Seq<char>,
    args: Seq<u8>,
    data: Seq<u8>,
)
    requires
        accepted_code(parts, idl, disc) is Ok,
        parts.discrim matches Some(bytes) ==> bytes.len() == 1 || bytes.len() == 8,
    ensures
        ({
            let bytes = discriminator_bytes(parts.name, parts.discrim);
            let code = accepted_code(parts, idl, disc)->Ok_0;
            &&& code.idl_disc == disc
            &&& code.dispatch_arm == dispatch_on(parts.cfg, parts.name, bytes)
            &&& code.instruction_struct == instruction_struct_text(
                parts,
                item_name(camel_case(parts.name))->Ok_0,
            )
            &&& dispatched(bytes, bytes + args) == Some(args)
            &&& dispatched(bytes, data) is Some <==> has_prefix(data, bytes)
        }),
{
    let bytes = discriminator_bytes(parts.name, parts.discrim);
    lemma_dispatched(bytes, bytes + args);
    lemma_dispatched(bytes, data);
    assert((bytes + args).take(bytes.len() as int) =~= bytes);
    assert((bytes + args).skip(bytes.len() as int) =~= args);
}

// ---------------------------------------------------------------------------
// Events
// ---------------------------------------------------------------------------

proof fn lemma_discriminator_holes()
    ensures
        0 <= 60 < WINCODE_EVENT@.len() - 1 && WINCODE_EVENT@[60] == '@' && WINCODE_EVENT@[61] == 'e',
        0 <= 628 < BYTEMUCK_EVENT@.len() - 1 && BYTEMUCK_EVENT@[628] == '@' && BYTEMUCK_EVENT@[629]
            == 'h',
{
    assert(0 <= 60 < WINCODE_EVENT@.len() - 1 && WINCODE_EVENT@[60] == '@' && WINCODE_EVENT@[61]
        == 'e') by {
        reveal_strlit(r#"#[derive(anchor_lang::AnchorSerialize)]
@a
@b struct @c @d

@e

impl anchor_lang::Event for @c {
    fn data(&self) -> anchor_lang::__alloc::vec::Vec<u8> {
        let disc = <Self as anchor_lang::Discriminator>::DISCRIMINATOR;
        let mut buf = anchor_lang::__alloc::vec::Vec::with_capacity(
            disc.len() + 256,
        );
        buf.extend_from_slice(disc);
        anchor_lang::wincode::config::serialize_into(
            &mut buf,
            self,
            anchor_lang::BORSH_CONFIG,
        )
            .expect("`#[event]` wincode serialization cannot fail for \
                     derived AnchorSerialize types");
        buf
    }
}

@f

@g"#);
    }
    assert(0 <= 628 < BYTEMUCK_EVENT@.len() - 1 && BYTEMUCK_EVENT@[628] == '@'
        && BYTEMUCK_EVENT@[629] == 'h') by {
        reveal_strlit(r#"#[repr(C)]
#[derive(::core::clone::Clone, ::core::marker::Copy)]
@a
@b struct @c @d

@e

@f

const _: () = {
    let mut __size = 0usize;
    @g
    ::core::assert!(
        ::core::mem::size_of::<@c>() == __size,
        "`#[event]` struct has `repr(C)` alignment padding — \
         reorder fields from largest to smallest alignment (u128/u64 \
         first, then u32, then u16, then u8/bool), or drop the \
         `bytemuck` flag and use the default `#[event]` (wincode) \
         for arbitrary layouts"
    );
};

unsafe impl anchor_lang::bytemuck::Pod for @c {}
unsafe impl anchor_lang::bytemuck::Zeroable for @c {}

@h

impl anchor_lang::Event for @c {
    fn data(&self) -> anchor_lang::__alloc::vec::Vec<u8> {
        const SIZE: usize = ::core::mem::size_of::<@c>();
        let disc = <Self as anchor_lang::Discriminator>::DISCRIMINATOR;
        let mut buf = anchor_lang::__alloc::vec::Vec::with_capacity(
            disc.len() + SIZE,
        );
        buf.extend_from_slice(disc);
        let start = buf.len();
        buf.resize(start + SIZE, 0);
        unsafe {
            ::core::ptr::copy_nonoverlapping(
                self as *const Self as *const u8,
                buf.as_mut_ptr().add(start),
                SIZE,
            );
        }
        buf
    }
}

@i

@j"#);
    }
}

/// An event has the same discriminator in both modes: the code for it holds the same
/// implementation, with the first eight bytes of the digest of its name.
pub proof fn lemma_event_modes_alike(
    attr: Seq<Token>,
    input: DeriveInput,
    idl: EventIdl,
    disc: Seq<char>,
)
    requires
        event_expansion(attr, input, idl, disc) is Ok,
    ensures
        says(event_expansion(attr, input, idl, disc)->Ok_0.code, discriminator_impl(input.ident.text@)),
{
    let code = event_expansion(attr, input, idl, disc)->Ok_0.code;
    let name = input.ident.text@;
    let all = fields_of(input.data->Struct_0);
    let test_name = item_name(
        "__anchor_private_print_idl_event_"@ + lowercase_of(input.ident.text@),
    )->Ok_0;
    let idl_type = filled(IDL_EVENT_TYPE@, seq![name, idl.type_def@, dep_walkers(all)]);
    let print = filled(
        IDL_EVENT_PRINT@,
        seq![test_name, name, literal_of(event_header(name, disc))],
    );
    lemma_discriminator_holes();
    match event_mode(attr)->Ok_0 {
        EventMode::Wincode => {
            let parts = seq![
                attrs_text(input.attrs@),
                input.vis@,
                name,
                input.fields_text@,
                discriminator_impl(name),
                idl_type,
                print,
            ];
            assert(code == filled(WINCODE_EVENT@, parts));
            lemma_filled_part(WINCODE_EVENT@, parts, 60);
            assert(hole_part('e', parts) == parts[4]);
        },
        EventMode::Bytemuck => {
            let parts = seq![
                attrs_text(input.attrs@),
                input.vis@,
                name,
                input.fields_text@,
                field_diagnostics(all),
                pod_asserts(all),
                size_steps(all, "::core"@),
                discriminator_impl(name),
                idl_type,
                print,
            ];
            assert(code == filled(BYTEMUCK_EVENT@, parts));
            lemma_filled_part(BYTEMUCK_EVENT@, parts, 628);
            assert(hole_part('h', parts) == parts[7]);
        },
    }
}

/// What `data` gives of an event. Without a flag the payload is appended to the
/// discriminator; under `bytemuck` the buffer is first filled up with zeros, over which
/// the bytes of the struct are copied.
pub open spec fn event_data(mode: EventMode, bytes: Seq<u8>, payload: Seq<u8>) -> Seq<u8> {
    match mode {
        EventMode::Wincode => bytes + payload,
        EventMode::Bytemuck => {
            let start = bytes.len() as int;
            let resized = bytes + Seq::new(payload.len(), |i: int| 0u8);
            Seq::new(
                resized.len(),
                |i: int|
                    if start <= i < start + payload.len() {
                        payload[i - start]
                    } else {
                        resized[i]
                    },
            )
        },
    }
}

/// In both modes the data of an event is its discriminator and then the payload.
pub proof fn lemma_event_data(mode: EventMode, bytes: Seq<u8>, payload: Seq<u8>)
    ensures
        event_data(mode, bytes, payload) == bytes + payload,
{
    assert(event_data(mode, bytes, payload) =~= bytes + payload);
}

proof fn lemma_parsers_hole()
    ensures
        0 <= 50 < EVENTS@.len() - 1 && EVENTS@[50] == '@' && EVENTS@[51] == 'c',
{
    reveal_strlit(r#"pub mod events {
    use super::*;

    @a
}

@b

@c"#);
}

proof fn lemma_branches_hole()
    ensures
        0 <= 378 < PARSERS@.len() - 1 && PARSERS@[378] == '@' && PARSERS@[379] == 'b',
{
    reveal_strlit(r#"pub mod parsers {
    use super::*;

    pub enum Event {
        @a
    }

    impl Event {
        pub fn parse(data: &[u8]) -> anchor_lang::Result<Self> {
            Self::try_from(data)
        }
    }

    impl core::convert::TryFrom<&[u8]> for Event {
        type Error = anchor_lang::Error;

        fn try_from(value: &[u8]) -> anchor_lang::Result<Self> {
            @b
            Err(anchor_lang::Error::InvalidArgument)
        }
    }
}"#);
}

/// The code for the events of a program holds one branch for each event, in their order.
pub proof fn lemma_branches_written(idl: Json)
    requires
        declared_events(idl) is Ok,
        elements(idl, "events"@).len() > 0,
    ensures
        ({
            let events = collected(
                elements(idl, "events"@).map_values(
                    |event: Json| declared_event(event, elements(idl, "types"@)),
                ),
            )->Ok_0;
            &&& events.len() == elements(idl, "events"@).len()
            &&& says(
                declared_events(idl)->Ok_0,
                terminated(events.map_values(|event: EventView| event_branch(event)), "\n"@),
            )
        }),
{
    let results = elements(idl, "events"@).map_values(
        |event: Json| declared_event(event, elements(idl, "types"@)),
    );
    let events = collected(results)->Ok_0;
    lemma_collected_len(results);
    let code = declared_events(idl)->Ok_0;
    let branches = terminated(events.map_values(|event: EventView| event_branch(event)), "\n"@);
    let parts = seq![
        terminated(events.map_values(|event: EventView| event_reexport(event)), "\n"@),
        terminated(events.map_values(|event: EventView| event_impls(event)), "\n"@),
        parsers_text(events),
    ];
    lemma_parsers_hole();
    lemma_filled_part(EVENTS@, parts, 50);
    assert(hole_part('c', parts) == parts[2]);
    assert(code == filled(EVENTS@, parts));
    let inner = seq![
        terminated(events.map_values(|event: EventView| event_variant(event)), "\n"@),
        branches,
    ];
    lemma_branches_hole();
    lemma_filled_part(PARSERS@, inner, 378);
    assert(hole_part('b', inner) == inner[1]);
    lemma_says_within(code, parsers_text(events), branches);
}

/// Which of the branches that `parsers_text` writes is taken for data: the first whose
/// discriminator the data begins with.
pub open spec fn branch_taken(events: Seq<EventView>, data: Seq<u8>) -> Option<int>
    decreases events.len(),
{
    if events.len() == 0 {
        None
    } else {
        match branch_taken(events.drop_last(), data) {
            Some(found) => Some(found),
            None => if has_prefix(data, events.last().bytes) {
                Some(events.len() - 1)
            } else {
                None
            },
        }
    }
}

/// No branch is taken exactly for the data that begins with the discriminator of no
/// event; else it is one whose discriminator the data begins with.
pub proof fn lemma_branch_taken(events: Seq<EventView>, data: Seq<u8>)
    ensures
        match branch_taken(events, data) {
            Some(found) => 0 <= found < events.len() && has_prefix(data, events[found].bytes),
            None => forall|i: int|
                0 <= i < events.len() ==> !has_prefix(data, (#[trigger] events[i]).bytes),
        },
    decreases events.len(),
{
    if events.len() > 0 {
        let rest = events.drop_last();
        lemma_branch_taken(rest, data);
        match branch_taken(rest, data) {
            Some(found) => {
                assert(rest[found] == events[found]);
            },
            None => {
                assert forall|i: int|
                    0 <= i < events.len() && branch_taken(events, data) is None implies !has_prefix(
                    data,
                    (#[trigger] events[i]).bytes,
                ) by {
                    if i < rest.len() {
                        assert(rest[i] == events[i]);
                    }
                }
            },
        }
    }
}

/// Where the discriminator of no event begins with that of another, what an event is
/// logged as is read by the branch of that event.
pub proof fn lemma_event_read_back(events: Seq<EventView>, i: int, payload: Seq<u8>)
    requires
        0 <= i < events.len(),
        forall|a: int, b: int|
            0 <= a < events.len() && 0 <= b < events.len() && a != b ==> !has_prefix(
                (#[trigger] events[a]).bytes,
                (#[trigger] events[b]).bytes,
            ),
    ensures
        branch_taken(events, events[i].bytes + payload) == Some(i),
{
    let data = events[i].bytes + payload;
    lemma_branch_taken(events, data);
    assert(data.take(events[i].bytes.len() as int) =~= events[i].bytes);
    assert(has_prefix(data, events[i].bytes));
    let found = branch_taken(events, data)->Some_0;
    if found != i {
        let own = events[i].bytes;
        let other = events[found].bytes;
        if own.len() <= other.len() {
            assert(other.take(own.len() as int) =~= data.take(own.len() as int));
            assert(has_prefix(other, own));
        } else {
            assert(own.take(other.len() as int) =~= data.take(other.len() as int));
            assert(has_prefix(own, other));
        }
    }
}

/// What `parse` makes of data.
pub enum Parsed<V> {
    Event(int, V),
    InvalidInstructionData,
    InvalidArgument,
}

/// What `parse` makes of data. `read` is what the reader of an event makes of a payload,
/// with the number of bytes that it takes; `size` is how many bytes an event is whose
/// bytes are its value.
pub open spec fn parsed<V>(
    events: Seq<EventView>,
    size: spec_fn(int) -> nat,
    read: spec_fn(int, Seq<u8>) -> Option<(V, nat)>,
    data: Seq<u8>,
) -> Parsed<V> {
    match branch_taken(events, data) {
        None => Parsed::InvalidArgument,
        Some(i) => {
            let payload = data.skip(events[i].bytes.len() as int);
            if events[i].pod && payload.len() != size(i) {
                Parsed::InvalidInstructionData
            } else {
                match read(i, payload) {
                    None => Parsed::InvalidInstructionData,
                    Some((value, taken)) => if !events[i].pod && taken < payload.len() {
                        Parsed::InvalidInstructionData
                    } else {
                        Parsed::Event(i, value)
                    },
                }
            }
        },
    }
}

/// Where the discriminator of no event begins with that of another, and a payload is
/// read back as the value that it was written for, by a reader that takes no byte behind
/// it: the data of an event is parsed as that event, with one more byte it is refused as
/// invalid data, and data is refused as an invalid argument exactly where it begins with
/// the discriminator of no event.
pub proof fn lemma_event_parsed<V>(
    events: Seq<EventView>,
    size: spec_fn(int) -> nat,
    read: spec_fn(int, Seq<u8>) -> Option<(V, nat)>,
    i: int,
    payload: Seq<u8>,
    value: V,
    more: u8,
    data: Seq<u8>,
)
    requires
        0 <= i < events.len(),
        forall|a: int, b: int|
            0 <= a < events.len() && 0 <= b < events.len() && a != b ==> !has_prefix(
                (#[trigger] events[a]).bytes,
                (#[trigger] events[b]).bytes,
            ),
        read(i, payload) == Some((value, payload.len())),
        if events[i].pod {
            payload.len() == size(i)
        } else {
            read(i, payload.push(more)) == Some((value, payload.len()))
        },
    ensures
        parsed(events, size, read, events[i].bytes + payload) == Parsed::Event(i, value),
        parsed(events, size, read, (events[i].bytes + payload).push(more))
            == Parsed::<V>::InvalidInstructionData,
        parsed(events, size, read, data) == Parsed::<V>::InvalidArgument <==> forall|j: int|
            0 <= j < events.len() ==> !has_prefix(data, (#[trigger] events[j]).bytes),
{
    let bytes = events[i].bytes;
    lemma_event_read_back(events, i, payload);
    lemma_event_read_back(events, i, payload.push(more));
    assert((bytes + payload).push(more) =~= bytes + payload.push(more));
    assert((bytes + payload).skip(bytes.len() as int) =~= payload);
    assert((bytes + payload.push(more)).skip(bytes.len() as int) =~= payload.push(more));
    lemma_branch_taken(events, data);
}

// ---------------------------------------------------------------------------
// Accounts of a call
// ---------------------------------------------------------------------------

/// The accounts that a field stands for.
pub open spec fn accounts_of(field: Field) -> Seq<CpiFieldView> {
    match field_reading(field) {
        Ok(Some(reading)) => field_accounts(field_name(field), reading),
        _ => Seq::empty(),
    }
}

/// The accounts that fields stand for, in their order.
pub open spec fn accounts_of_all(fields: Seq<Field>) -> Seq<CpiFieldView>
    decreases fields.len(),
{
    if fields.len() == 0 {
        Seq::empty()
    } else {
        accounts_of(fields[0]) + accounts_of_all(fields.skip(1))
    }
}

/// The statements for metas, handles and flags are written for the accounts that the
/// fields stand for, in order. A field that is left out and one that is `PhantomData`
/// stands for none.
pub proof fn lemma_scanned_accounts(
    fields: Seq<Field>,
    lifetime: Option<Seq<char>>,
    accounts: Seq<CpiFieldView>,
)
    requires
        scanned(fields, lifetime, accounts) is Ok,
    ensures
        scanned(fields, lifetime, accounts)->Ok_0.1 == accounts + accounts_of_all(fields),
        forall|i: int|
            0 <= i < accounts_of_all(fields).len() ==> (#[trigger] accounts_of_all(fields)[i]).kind
                != CpiFieldKind::Phantom,
    decreases fields.len(),
{
    if fields.len() > 0 {
        let own = accounts_of(fields[0]);
        let lifetime = match field_reading(fields[0]) {
            Ok(Some(reading)) => Some(reading.lifetime),
            _ => lifetime,
        };
        assert(accounts + Seq::<CpiFieldView>::empty() =~= accounts);
        lemma_scanned_accounts(fields.skip(1), lifetime, accounts + own);
        assert(accounts + own + accounts_of_all(fields.skip(1)) =~= accounts + accounts_of_all(
            fields,
        ));
        assert forall|i: int| 0 <= i < accounts_of_all(fields).len() implies (
        #[trigger] accounts_of_all(fields)[i]).kind != CpiFieldKind::Phantom by {
            if i >= own.len() {
                let rest = accounts_of_all(fields.skip(1));
                assert(rest[i - own.len()].kind != CpiFieldKind::Phantom);
            }
        }
    } else {
        assert(accounts + Seq::<CpiFieldView>::empty() =~= accounts);
    }
}

/// The code for a struct lists metas, handles and flags by one statement each for every
/// account that its fields stand for, in order.
pub proof fn lemma_call_statements(input: DeriveInput)
    requires
        cpi_accounts_code(input) is Ok,
    ensures
        ({
            let fields = input.data->Struct_0->Named_0@;
            cpi_accounts_code(input)->Ok_0 == cpi_impl(
                input,
                scanned(fields, None, Seq::empty())->Ok_0.0->Some_0,
                accounts_of_all(fields),
                first_program_id(input.attrs@)->Ok_0,
            )
        }),
{
    let fields = input.data->Struct_0->Named_0@;
    lemma_scanned_accounts(fields, None, Seq::empty());
    assert(Seq::<CpiFieldView>::empty() + accounts_of_all(fields) =~= accounts_of_all(fields));
}

/// An account as the runtime is told of it.
pub struct AccountMeta {
    pub address: int,
    pub writable: bool,
    pub signer: bool,
}

/// What a field holds when the statements for it run. Whether an account signs is what
/// the condition for it gives then.
pub enum Held {
    Account { address: int, signer: bool },
    Absent,
    /// Nested accounts, with what their own metas, handles and flags are.
    Inner { metas: Seq<AccountMeta>, handles: Seq<int>, flags: Seq<bool> },
}

/// Whether a field of a kind can hold this.
pub open spec fn can_hold(kind: CpiFieldKind, held: Held) -> bool {
    match held {
        Held::Account { .. } => kind != CpiFieldKind::Nested && kind != CpiFieldKind::Phantom,
        Held::Absent => kind == CpiFieldKind::OptionalReadonly || kind
            == CpiFieldKind::OptionalWritable,
        Held::Inner { .. } => kind == CpiFieldKind::Nested,
    }
}

/// What the statement of `meta_step` adds.
pub open spec fn metas_added(kind: CpiFieldKind, held: Held, program: int) -> Seq<AccountMeta> {
    match held {
        Held::Account { address, signer } => seq![
            AccountMeta { address, writable: is_writable(kind), signer },
        ],
        Held::Absent => seq![AccountMeta { address: program, writable: false, signer: false }],
        Held::Inner { metas, .. } => metas,
    }
}

/// What the statement of `handle_step` adds.
pub open spec fn handles_added(held: Held) -> Seq<int> {
    match held {
        Held::Account { address, .. } => seq![address],
        Held::Absent => Seq::empty(),
        Held::Inner { handles, .. } => handles,
    }
}

/// What the statement of `flag_step` adds.
pub open spec fn flags_added(held: Held) -> Seq<bool> {
    match held {
        Held::Account { .. } => seq![false],
        Held::Absent => seq![true],
        Held::Inner { flags, .. } => flags,
    }
}

/// The metas of the fields.
pub open spec fn all_metas(fields: Seq<CpiFieldView>, held: Seq<Held>, program: int) -> Seq<
    AccountMeta,
>
    decreases fields.len(),
{
    if fields.len() == 0 {
        Seq::empty()
    } else {
        all_metas(fields.drop_last(), held.drop_last(), program) + metas_added(
            fields.last().kind,
            held.last(),
            program,
        )
    }
}

/// The handles of the fields.
pub open spec fn all_handles(held: Seq<Held>) -> Seq<int>
    decreases held.len(),
{
    if held.len() == 0 {
        Seq::empty()
    } else {
        all_handles(held.drop_last()) + handles_added(held.last())
    }
}

/// The flags of the fields.
pub open spec fn all_flags(held: Seq<Held>) -> Seq<bool>
    decreases held.len(),
{
    if held.len() == 0 {
        Seq::empty()
    } else {
        all_flags(held.drop_last()) + flags_added(held.last())
    }
}

/// The addresses of the metas whose flag is not set, in order.
pub open spec fn unflagged(metas: Seq<AccountMeta>, flags: Seq<bool>) -> Seq<int>
    decreases metas.len(),
{
    if metas.len() == 0 || flags.len() == 0 {
        Seq::empty()
    } else if flags.last() {
        unflagged(metas.drop_last(), flags.drop_last())
    } else {
        unflagged(metas.drop_last(), flags.drop_last()).push(metas.last().address)
    }
}

/// Whether metas, handles and flags belong together: there is a flag for each meta, the
/// handles are those of the metas whose flag is not set, in order, and where a flag is
/// set the meta is the program, neither written nor a signer.
pub open spec fn belong_together(
    metas: Seq<AccountMeta>,
    handles: Seq<int>,
    flags: Seq<bool>,
    program: int,
) -> bool {
    &&& metas.len() == flags.len()
    &&& handles == unflagged(metas, flags)
    &&& forall|i: int|
        0 <= i < metas.len() && #[trigger] flags[i] ==> metas[i] == (AccountMeta {
            address: program,
            writable: false,
            signer: false,
        })
}

proof fn lemma_unflagged_joined(
    metas: Seq<AccountMeta>,
    flags: Seq<bool>,
    more_metas: Seq<AccountMeta>,
    more_flags: Seq<bool>,
)
    requires
        metas.len() == flags.len(),
        more_metas.len() == more_flags.len(),
    ensures
        unflagged(metas + more_metas, flags + more_flags) == unflagged(metas, flags) + unflagged(
            more_metas,
            more_flags,
        ),
    decreases more_metas.len(),
{
    if more_metas.len() == 0 {
        assert(metas + more_metas =~= metas);
        assert(flags + more_flags =~= flags);
        assert(unflagged(metas, flags) + unflagged(more_metas, more_flags) =~= unflagged(
            metas,
            flags,
        ));
    } else {
        assert((metas + more_metas).drop_last() =~= metas + more_metas.drop_last());
        assert((flags + more_flags).drop_last() =~= flags + more_flags.drop_last());
        lemma_unflagged_joined(metas, flags, more_metas.drop_last(), more_flags.drop_last());
        assert(unflagged(metas + more_metas, flags + more_flags) =~= unflagged(metas, flags)
            + unflagged(more_metas, more_flags));
    }
}

/// The metas, the handles and the flags of an accounts struct belong together, where
/// those of the accounts nested in it do.
pub proof fn lemma_call_accounts(fields: Seq<CpiFieldView>, held: Seq<Held>, program: int)
    requires
        fields.len() == held.len(),
        forall|i: int| 0 <= i < held.len() ==> can_hold(fields[i].kind, #[trigger] held[i]),
        forall|i: int|
            0 <= i < held.len() ==> (#[trigger] held[i] matches Held::Inner { metas, handles, flags }
                ==> belong_together(metas, handles, flags, program)),
    ensures
        belong_together(
            all_metas(fields, held, program),
            all_handles(held),
            all_flags(held),
            program,
        ),
    decreases fields.len(),
{
    if fields.len() > 0 {
        let rest = held.drop_last();
        assert forall|i: int| 0 <= i < rest.len() implies can_hold(
            fields.drop_last()[i].kind,
            #[trigger] rest[i],
        ) && (rest[i] matches Held::Inner { metas, handles, flags } ==> belong_together(
            metas,
            handles,
            flags,
            program,
        )) by {
            assert(rest[i] == held[i]);
        }
        lemma_call_accounts(fields.drop_last(), rest, program);
        let last = held[held.len() - 1];
        assert(last == held.last());
        let metas = metas_added(fields.last().kind, last, program);
        let flags = flags_added(last);
        if last !is Inner {
            let none = unflagged(metas.drop_last(), flags.drop_last());
            assert(metas.drop_last() =~= Seq::<AccountMeta>::empty());
            assert(none =~= Seq::<int>::empty());
            assert(handles_added(last) =~= unflagged(metas, flags));
        }
        let first_metas = all_metas(fields.drop_last(), rest, program);
        let first_flags = all_flags(rest);
        lemma_unflagged_joined(first_metas, first_flags, metas, flags);
        let whole_metas = first_metas + metas;
        let whole_flags = first_flags + flags;
        assert forall|i: int| 0 <= i < whole_metas.len() && #[trigger] whole_flags[i] implies whole_metas[i]
            == (AccountMeta { address: program, writable: false, signer: false }) by {
            if i < first_metas.len() {
                assert(first_flags[i]);
            } else {
                assert(flags[i - first_metas.len()]);
            }
        }
    }
}

// ---------------------------------------------------------------------------
// Accounts of a client
// ---------------------------------------------------------------------------

/// The statement that adds the metas of what is found at `place`, for a field.
pub open spec fn meta_statement(p: PreparedView, place: Seq<char>) -> Seq<char> {
    if p.client is Some {
        filled(CLIENT_META_NESTED@, seq![place])
    } else if p.field.is_optional {
        filled(
            CLIENT_META_OPTIONAL@,
            seq![place, flag(p.field.idl_writable), client_signer(p.field), p.program_id],
        )
    } else {
        filled(CLIENT_META@, seq![place, flag(p.field.idl_writable), client_signer(p.field)])
    }
}

/// Whether a field can hold this.
pub open spec fn can_list(p: PreparedView, held: Held) -> bool {
    match held {
        Held::Account { .. } => p.client is None,
        Held::Absent => p.client is None && p.field.is_optional,
        Held::Inner { .. } => p.client is Some,
    }
}

/// What the statement of `meta_statement` adds.
pub open spec fn metas_listed(p: PreparedView, held: Held, program: int) -> Seq<AccountMeta> {
    match held {
        Held::Account { address, signer } => seq![
            AccountMeta { address, writable: p.field.idl_writable, signer },
        ],
        Held::Absent => seq![AccountMeta { address: program, writable: false, signer: false }],
        Held::Inner { metas, .. } => metas,
    }
}

/// The metas that a client lists for the fields.
pub open spec fn client_metas(all: Seq<PreparedView>, held: Seq<Held>, program: int) -> Seq<
    AccountMeta,
>
    decreases all.len(),
{
    if all.len() == 0 {
        Seq::empty()
    } else {
        client_metas(all.drop_last(), held.drop_last(), program) + metas_listed(
            all.last(),
            held.last(),
            program,
        )
    }
}

/// A client lists the metas in the order of the fields: behind those of the fields before
/// it stand the metas of a field, which are one for an account that is not nested. That
/// of an absent account is the program, neither written nor a signer.
pub proof fn lemma_client_metas(
    all: Seq<PreparedView>,
    held: Seq<Held>,
    program: int,
    i: int,
)
    requires
        all.len() == held.len(),
        0 <= i < all.len(),
        forall|j: int| 0 <= j < all.len() ==> can_list(all[j], #[trigger] held[j]),
    ensures
        ({
            let before = client_metas(all.take(i), held.take(i), program);
            let own = metas_listed(all[i], held[i], program);
            &&& has_prefix(client_metas(all, held, program), before + own)
            &&& all[i].client is None ==> own.len() == 1
            &&& held[i] is Absent ==> own == seq![
                AccountMeta { address: program, writable: false, signer: false },
            ]
        }),
    decreases all.len(),
{
    let before = client_metas(all.take(i), held.take(i), program);
    let own = metas_listed(all[i], held[i], program);
    let listed = client_metas(all, held, program);
    assert(can_list(all[i], held[i]));
    if i == all.len() - 1 {
        assert(all.take(i) =~= all.drop_last());
        assert(held.take(i) =~= held.drop_last());
        assert(listed.take(listed.len() as int) =~= listed);
    } else {
        let rest = all.drop_last();
        let held_rest = held.drop_last();
        assert forall|j: int| 0 <= j < rest.len() implies can_list(
            rest[j],
            #[trigger] held_rest[j],
        ) by {
            assert(can_list(all[j], held[j]));
        }
        lemma_client_metas(rest, held_rest, program, i);
        assert(rest.take(i) =~= all.take(i));
        assert(held_rest.take(i) =~= held.take(i));
        let inner = client_metas(rest, held_rest, program);
        let count = (before + own).len() as int;
        assert(listed.take(count) =~= inner.take(count));
    }
}

/// The struct with all accounts and the struct with those that a client must give list
/// the metas of a field by one statement, which they run on the field itself and on the
/// variable of its name.
pub proof fn lemma_metas_alike(p: PreparedView)
    ensures
        client_meta_step(p) == meta_statement(p, p.field.name.text@),
        full_meta_step(p) == meta_statement(
            p,
            if p.client is Some {
                "&self."@ + p.field.name.text@
            } else {
                "self."@ + p.field.name.text@
            },
        ),
{
}

proof fn lemma_full_metas_hole()
    ensures
        0 <= 312 < CLIENT_MODULE@.len() - 1 && CLIENT_MODULE@[312] == '@' && CLIENT_MODULE@[313] == 'd',
{
    reveal_strlit(r#"pub mod @a {
    extern crate alloc;
    use super::*;
    pub struct @b {
        @c
    }
    impl anchor_lang::ToAccountMetas for @b {
        fn to_account_metas(&self, _is_signer: Option<bool>) -> alloc::vec::Vec<anchor_lang::AccountMeta> {
            let mut __metas = alloc::vec::Vec::new();
            @d
            __metas
        }
    }
    @e
    impl @b {
        @f
    }
}
"#);
}

proof fn lemma_resolved_hole()
    ensures
        0 <= 355 < CLIENT_MODULE@.len() - 1 && CLIENT_MODULE@[355] == '@' && CLIENT_MODULE@[356] == 'e',
{
    reveal_strlit(r#"pub mod @a {
    extern crate alloc;
    use super::*;
    pub struct @b {
        @c
    }
    impl anchor_lang::ToAccountMetas for @b {
        fn to_account_metas(&self, _is_signer: Option<bool>) -> alloc::vec::Vec<anchor_lang::AccountMeta> {
            let mut __metas = alloc::vec::Vec::new();
            @d
            __metas
        }
    }
    @e
    impl @b {
        @f
    }
}
"#);
}

proof fn lemma_client_metas_hole()
    ensures
        0 <= 251 < RESOLVED_STRUCT@.len() - 1 && RESOLVED_STRUCT@[251] == '@' && RESOLVED_STRUCT@[252] == 'e',
{
    reveal_strlit(r#"pub struct @a {
    @b
}
impl anchor_lang::ToAccountMetas for @a {
    fn to_account_metas(&self, _is_signer: Option<bool>) -> alloc::vec::Vec<anchor_lang::AccountMeta> {
        @c
        @d
        let mut __metas = alloc::vec::Vec::new();
        @e
        __metas
    }
}"#);
}

/// The code for an accounts struct lists the metas for clients by one statement for every
/// field, in order, once from the struct with all accounts and once from the struct with
/// those that a client must give.
pub proof fn lemma_client_statements(input: DeriveInput, readings: AccountsReadings)
    requires
        accepted_accounts(input, readings) is Ok,
    ensures
        ({
            let fields = readings.fields->Ok_0@;
            let args = declared_args(input.attrs@, Seq::empty())->Ok_0;
            let program_id = only_program_id(input.attrs@, None)->Ok_0;
            let scope = scope_of(input.data->Struct_0->Named_0@, args, program_id);
            let all = all_prepared(fields, scope)->Ok_0;
            let code = accepted_accounts(input, readings)->Ok_0;
            &&& says(code, terminated(each(all, |p: PreparedView| full_meta_step(p)), "\n"@))
            &&& says(code, terminated(each(all, |p: PreparedView| client_meta_step(p)), "\n"@))
        }),
{
    let name = input.ident.text@;
    let fields = readings.fields->Ok_0@;
    let args = declared_args(input.attrs@, Seq::empty())->Ok_0;
    let program_id = only_program_id(input.attrs@, None)->Ok_0;
    let scope = scope_of(input.data->Struct_0->Named_0@, args, program_id);
    let all = all_prepared(fields, scope)->Ok_0;
    let code = accepted_accounts(input, readings)->Ok_0;
    let full = terminated(each(all, |p: PreparedView| full_meta_step(p)), "\n"@);
    let given = terminated(each(all, |p: PreparedView| client_meta_step(p)), "\n"@);
    let resolved = resolved_struct(all, fields, scope, item_name(name + "Resolved"@)->Ok_0);
    let module = item_name("__client_accounts_"@ + lowercase_of(name))->Ok_0;
    let client = client_module(all, module, name, resolved);
    assert(code.subrange(0, client.len() as int) =~= client);
    assert(says_at(code, client, 0));
    let parts = seq![
        module,
        name,
        terminated(each(all, |p: PreparedView| client_field(p)), ", "@),
        full,
        resolved,
        terminated(picked(all, |p: PreparedView| finder_text(p)), "\n"@),
    ];
    lemma_full_metas_hole();
    lemma_filled_part(CLIENT_MODULE@, parts, 312);
    assert(hole_part('d', parts) == parts[3]);
    lemma_says_within(code, client, full);
    lemma_resolved_hole();
    lemma_filled_part(CLIENT_MODULE@, parts, 355);
    assert(hole_part('e', parts) == parts[4]);
    lemma_says_within(code, client, resolved);
    let inner = seq![
        item_name(name + "Resolved"@)->Ok_0,
        terminated(picked(all, |p: PreparedView| required_field(p)), ", "@),
        concat_all(picked(all, |p: PreparedView| required_binding(p))),
        derive_stmts(fields, scope),
        given,
    ];
    lemma_client_metas_hole();
    lemma_filled_part(RESOLVED_STRUCT@, inner, 251);
    assert(hole_part('e', inner) == inner[4]);
    lemma_says_within(code, resolved, given);
}

} // verus!
