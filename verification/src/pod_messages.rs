//! What the messages on fields that cannot be copied byte by byte lead to.

use crate::pod_fields::{
    account_field_message, event_field_message, is_collection, is_pointer, type_ident,
    ACCOUNT_BOOL, ACCOUNT_OPTION, ACCOUNT_POINTER, ACCOUNT_STRING, ACCOUNT_VEC, EVENT_BOOL,
    EVENT_COLLECTION, EVENT_OPTION, EVENT_POINTER, EVENT_STRING, EVENT_VEC,
};
use crate::syntax::Type;
use crate::template::{
    filled, lemma_filled_brackets, lemma_filled_says, no_bracket_before, says, says_at,
};
use vstd::prelude::*;

verus! {

/// The attribute of an account that is encoded.
pub const ENCODED_ACCOUNT: &'static str = "#[account(borsh)]";

/// The way out for an event with a field that cannot be copied.
pub const ENCODED_EVENT: &'static str = " the `bytemuck` attribute to use the default wincode encoding";

proof fn lemma_account_templates()
    ensures
        no_bracket_before(ACCOUNT_VEC@, 'b'),
        no_bracket_before(ACCOUNT_STRING@, 'b'),
        no_bracket_before(ACCOUNT_OPTION@, 'b'),
        no_bracket_before(ACCOUNT_POINTER@, 'b'),
        no_bracket_before(ACCOUNT_BOOL@, 'b'),
{
    assert(no_bracket_before(ACCOUNT_VEC@, 'b')) by {
        reveal_strlit("field `@a` on `#[account] struct @b` uses `Vec`, which allocates on the heap and isn't Pod. Zero-copy accounts need fixed-size fields. Use `[T; N]` for a bounded array, or restructure `@b` as `Slab<Header, T>` if you need a dynamic tail.");
    }
    assert(no_bracket_before(ACCOUNT_STRING@, 'b')) by {
        reveal_strlit("field `@a` on `#[account] struct @b` uses `String`, which allocates on the heap and isn't Pod. Use a fixed-size `[u8; N]` buffer to store string data in a zero-copy account.");
    }
    assert(no_bracket_before(ACCOUNT_OPTION@, 'b')) by {
        reveal_strlit(r#"field `@a` on `#[account] struct @b` uses `Option`, which carries a discriminant byte that breaks the zero-copy layout contract. Use a sentinel value (e.g. an all-zero `[u8; 32]` for "no address") or a `PodBool` flag stored alongside the value."#);
    }
    assert(no_bracket_before(ACCOUNT_POINTER@, 'b')) by {
        reveal_strlit("field `@a` on `#[account] struct @b` uses `@c`, which heap-allocates and isn't valid in a zero-copy account. Store the inner type directly.");
    }
    assert(no_bracket_before(ACCOUNT_BOOL@, 'b')) by {
        reveal_strlit("field `@a` on `#[account] struct @b` uses `bool`. `bytemuck` disallows `bool` as Pod because only `0x00` and `0x01` are valid bit-patterns (any other byte read as `bool` is UB). Use `anchor_lang::PodBool` instead.");
    }
}

proof fn lemma_event_templates()
    ensures
        says(EVENT_VEC@, ENCODED_EVENT@),
        says(EVENT_STRING@, ENCODED_EVENT@),
        says(EVENT_OPTION@, ENCODED_EVENT@),
        says(EVENT_POINTER@, ENCODED_EVENT@),
        says(EVENT_COLLECTION@, ENCODED_EVENT@),
        says(EVENT_BOOL@, ENCODED_EVENT@),
{
    assert(says(EVENT_VEC@, ENCODED_EVENT@)) by {
        reveal_strlit("event field `@a` uses `Vec`, which is a fat pointer — the `#[event(bytemuck)]` memcpy path would emit the `(ptr, len, cap)` bits instead of the elements. Use `[T; N]` for a fixed-size array, or drop the `bytemuck` attribute to use the default wincode encoding, which handles `Vec` natively.");
        reveal_strlit(" the `bytemuck` attribute to use the default wincode encoding");
        let end = 198int + ENCODED_EVENT@.len();
        assert(EVENT_VEC@.subrange(198, end) =~= ENCODED_EVENT@);
        assert(says_at(EVENT_VEC@, ENCODED_EVENT@, 198));
    }
    assert(says(EVENT_STRING@, ENCODED_EVENT@)) by {
        reveal_strlit("event field `@a` uses `String`, which is a fat pointer — the `#[event(bytemuck)]` memcpy path would emit the `(ptr, len, cap)` bits instead of the UTF-8 bytes. Use `[u8; N]` for a bounded buffer, or drop the `bytemuck` attribute to use the default wincode encoding, which handles `String` natively.");
        reveal_strlit(" the `bytemuck` attribute to use the default wincode encoding");
        let end = 203int + ENCODED_EVENT@.len();
        assert(EVENT_STRING@.subrange(203, end) =~= ENCODED_EVENT@);
        assert(says_at(EVENT_STRING@, ENCODED_EVENT@, 203));
    }
    assert(says(EVENT_OPTION@, ENCODED_EVENT@)) by {
        reveal_strlit(r#"event field `@a` uses `Option`, whose niche-or-tag layout isn't guaranteed to match the client decoder. Use a sentinel value (e.g. an all-zero `[u8; 32]` for "no address"), or drop the `bytemuck` attribute to use the default wincode encoding."#);
        reveal_strlit(" the `bytemuck` attribute to use the default wincode encoding");
        let end = 180int + ENCODED_EVENT@.len();
        assert(EVENT_OPTION@.subrange(180, end) =~= ENCODED_EVENT@);
        assert(says_at(EVENT_OPTION@, ENCODED_EVENT@, 180));
    }
    assert(says(EVENT_POINTER@, ENCODED_EVENT@)) by {
        reveal_strlit("event field `@a` uses `@c`, which is a heap/shared pointer — its bytes are a pointer, not the referenced data. Inline the value directly (`T` instead of `@c<T>`), or drop the `bytemuck` attribute to use the default wincode encoding.");
        reveal_strlit(" the `bytemuck` attribute to use the default wincode encoding");
        let end = 170int + ENCODED_EVENT@.len();
        assert(EVENT_POINTER@.subrange(170, end) =~= ENCODED_EVENT@);
        assert(says_at(EVENT_POINTER@, ENCODED_EVENT@, 170));
    }
    assert(says(EVENT_COLLECTION@, ENCODED_EVENT@)) by {
        reveal_strlit("event field `@a` uses `@c`, which allocates on the heap. Drop the `bytemuck` attribute to use the default wincode encoding, which handles dynamic collections.");
        reveal_strlit(" the `bytemuck` attribute to use the default wincode encoding");
        let end = 61int + ENCODED_EVENT@.len();
        assert(EVENT_COLLECTION@.subrange(61, end) =~= ENCODED_EVENT@);
        assert(says_at(EVENT_COLLECTION@, ENCODED_EVENT@, 61));
    }
    assert(says(EVENT_BOOL@, ENCODED_EVENT@)) by {
        reveal_strlit("event field `@a` is `bool`. `bytemuck` disallows `bool` as Pod because only `0x00` and `0x01` are valid — any other byte is UB. Use a `u8` and treat `0` / non-zero as the boolean, or drop the `bytemuck` attribute to use the default wincode encoding.");
        reveal_strlit(" the `bytemuck` attribute to use the default wincode encoding");
        let end = 187int + ENCODED_EVENT@.len();
        assert(EVENT_BOOL@.subrange(187, end) =~= ENCODED_EVENT@);
        assert(says_at(EVENT_BOOL@, ENCODED_EVENT@, 187));
    }
}

/// No message on a field of an account leads to the encoded mode: whatever the type
/// is, the attribute of that mode does not stand in it. Names hold no brackets.
pub proof fn lemma_account_stays_copied(ty: Type, field: Seq<char>, owner: Seq<char>)
    requires
        !field.contains('('),
        !owner.contains('('),
    ensures
        match account_field_message(ty, field, owner) {
            Some(message) => !says(message, ENCODED_ACCOUNT@),
            None => true,
        },
{
    if let Some(message) = account_field_message(ty, field, owner) {
        let name = type_ident(ty)->0;
        let parts = seq![field, owner, name];
        reveal_strlit("Vec");
        reveal_strlit("String");
        reveal_strlit("Option");
        reveal_strlit("Box");
        reveal_strlit("Rc");
        reveal_strlit("Arc");
        reveal_strlit("bool");
        assert(!name.contains('('));
        lemma_account_templates();
        let template = if name == "Vec"@ {
            ACCOUNT_VEC@
        } else if name == "String"@ {
            ACCOUNT_STRING@
        } else if name == "Option"@ {
            ACCOUNT_OPTION@
        } else if name == "Box"@ || name == "Rc"@ || name == "Arc"@ {
            ACCOUNT_POINTER@
        } else {
            ACCOUNT_BOOL@
        };
        assert(message == filled(template, parts));
        lemma_filled_brackets(template, parts, 'b');
        assert forall|at: int| !says_at(message, ENCODED_ACCOUNT@, at) by {
            reveal_strlit("#[account(borsh)]");
            if says_at(message, ENCODED_ACCOUNT@, at) {
                let found = message.subrange(at, at + ENCODED_ACCOUNT@.len());
                assert(found[9] == '(' && found[10] == 'b');
                assert(message[at + 9] == '(');
                assert(message[at + 9 + 1] == 'b');
            }
        }
    }
}

/// Every message on a field of an event leads to the default mode.
pub proof fn lemma_event_led_to_default(ty: Type, field: Seq<char>)
    ensures
        match event_field_message(ty, field) {
            Some(message) => says(message, ENCODED_EVENT@),
            None => true,
        },
{
    if let Some(message) = event_field_message(ty, field) {
        let name = type_ident(ty)->0;
        let parts = seq![field, ""@, name];
        lemma_event_templates();
        let template = if name == "Vec"@ {
            EVENT_VEC@
        } else if name == "String"@ {
            EVENT_STRING@
        } else if name == "Option"@ {
            EVENT_OPTION@
        } else if is_pointer(name) {
            EVENT_POINTER@
        } else if is_collection(name) {
            EVENT_COLLECTION@
        } else {
            EVENT_BOOL@
        };
        assert(message == filled(template, parts));
        reveal_strlit(" the `bytemuck` attribute to use the default wincode encoding");
        lemma_filled_says(template, parts, ENCODED_EVENT@);
    }
}

} // verus!
