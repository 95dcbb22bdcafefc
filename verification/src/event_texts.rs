//! The texts of the code for events and described types: each template, with its holes filled.

use crate::event::{
    BYTEMUCK_EVENT, EVENT_DISCRIMINATOR, FIELD_DIAGNOSTIC, IDL_EVENT_PRINT, IDL_EVENT_TYPE,
    WINCODE_EVENT,
};
use crate::idl_type::IDL_TYPE_IMPL;
use crate::passages::{lemma_filled_from, lemma_filled_last, stands_at};
use crate::pod_fields::VARIANT_WALKER;
use crate::template::filled;
use crate::wrappers::{EMIT, EMIT_CPI, EVENT_CPI_STRUCT, WINCODE_SCHEMA};
use vstd::prelude::*;

verus! {

spec fn wincode_event_words() -> Seq<Seq<char>> {
    seq!["#[derive(anchor_lang::AnchorSerialize)]\n"@, "\n"@, " struct "@, " "@, "\n\n"@, "\n\nimpl anchor_lang::Event for "@, " {\n    fn data(&self) -> anchor_lang::__alloc::vec::Vec<u8> {\n        let disc = <Self as anchor_lang::Discriminator>::DISCRIMINATOR;\n        let mut buf = anchor_lang::__alloc::vec::Vec::with_capacity(\n            disc.len() + 256,\n        );\n        buf.extend_from_slice(disc);\n        anchor_lang::wincode::config::serialize_into(\n            &mut buf,\n            self,\n            anchor_lang::BORSH_CONFIG,\n        )\n            .expect(\"`#[event]` wincode serialization cannot fail for \\\n                     derived AnchorSerialize types\");\n        buf\n    }\n}\n\n"@]
}

proof fn lemma_wincode_event_text_marks()
    ensures
        WINCODE_EVENT@.len() == 671,
        stands_at(WINCODE_EVENT@, wincode_event_words()[0], 0, 40),
        WINCODE_EVENT@[40] == '@' && WINCODE_EVENT@[41] == 'a',
        stands_at(WINCODE_EVENT@, wincode_event_words()[1], 42, 1),
        WINCODE_EVENT@[43] == '@' && WINCODE_EVENT@[44] == 'b',
        stands_at(WINCODE_EVENT@, wincode_event_words()[2], 45, 8),
        WINCODE_EVENT@[53] == '@' && WINCODE_EVENT@[54] == 'c',
        stands_at(WINCODE_EVENT@, wincode_event_words()[3], 55, 1),
        WINCODE_EVENT@[56] == '@' && WINCODE_EVENT@[57] == 'd',
        stands_at(WINCODE_EVENT@, wincode_event_words()[4], 58, 2),
        WINCODE_EVENT@[60] == '@' && WINCODE_EVENT@[61] == 'e',
        stands_at(WINCODE_EVENT@, wincode_event_words()[5], 62, 30),
        WINCODE_EVENT@[92] == '@' && WINCODE_EVENT@[93] == 'c',
        stands_at(WINCODE_EVENT@, wincode_event_words()[6], 94, 571),
        WINCODE_EVENT@[665] == '@' && WINCODE_EVENT@[666] == 'f',
        stands_at(WINCODE_EVENT@, wincode_event_words()[4], 667, 2),
        WINCODE_EVENT@[669] == '@' && WINCODE_EVENT@[670] == 'g',
{
    let template = WINCODE_EVENT@;
    let words = wincode_event_words();
    reveal_strlit("#[derive(anchor_lang::AnchorSerialize)]\n@a\n@b struct @c @d\n\n@e\n\nimpl anchor_lang::Event for @c {\n    fn data(&self) -> anchor_lang::__alloc::vec::Vec<u8> {\n        let disc = <Self as anchor_lang::Discriminator>::DISCRIMINATOR;\n        let mut buf = anchor_lang::__alloc::vec::Vec::with_capacity(\n            disc.len() + 256,\n        );\n        buf.extend_from_slice(disc);\n        anchor_lang::wincode::config::serialize_into(\n            &mut buf,\n            self,\n            anchor_lang::BORSH_CONFIG,\n        )\n            .expect(\"`#[event]` wincode serialization cannot fail for \\\n                     derived AnchorSerialize types\");\n        buf\n    }\n}\n\n@f\n\n@g");
    assert(stands_at(template, words[0], 0, 40)) by {
        reveal_strlit("#[derive(anchor_lang::AnchorSerialize)]\n");
        assert(template.subrange(0, 40) =~= words[0]);
    }
    assert(stands_at(template, words[1], 42, 1)) by {
        reveal_strlit("\n");
        assert(template.subrange(42, 43) =~= words[1]);
    }
    assert(stands_at(template, words[2], 45, 8)) by {
        reveal_strlit(" struct ");
        assert(template.subrange(45, 53) =~= words[2]);
    }
    assert(stands_at(template, words[3], 55, 1)) by {
        reveal_strlit(" ");
        assert(template.subrange(55, 56) =~= words[3]);
    }
    assert(stands_at(template, words[4], 58, 2)) by {
        reveal_strlit("\n\n");
        assert(template.subrange(58, 60) =~= words[4]);
    }
    assert(stands_at(template, words[5], 62, 30)) by {
        reveal_strlit("\n\nimpl anchor_lang::Event for ");
        assert(template.subrange(62, 92) =~= words[5]);
    }
    assert(stands_at(template, words[6], 94, 571)) by {
        reveal_strlit(" {\n    fn data(&self) -> anchor_lang::__alloc::vec::Vec<u8> {\n        let disc = <Self as anchor_lang::Discriminator>::DISCRIMINATOR;\n        let mut buf = anchor_lang::__alloc::vec::Vec::with_capacity(\n            disc.len() + 256,\n        );\n        buf.extend_from_slice(disc);\n        anchor_lang::wincode::config::serialize_into(\n            &mut buf,\n            self,\n            anchor_lang::BORSH_CONFIG,\n        )\n            .expect(\"`#[event]` wincode serialization cannot fail for \\\n                     derived AnchorSerialize types\");\n        buf\n    }\n}\n\n");
        assert(template.subrange(94, 665) =~= words[6]);
    }
    assert(stands_at(template, words[4], 667, 2)) by {
        reveal_strlit("\n\n");
        assert(template.subrange(667, 669) =~= words[4]);
    }
}

/// The text of the template, with its holes filled.
pub proof fn lemma_wincode_event_text(parts: Seq<Seq<char>>)
    requires
        parts.len() == 7,
    ensures
        filled(WINCODE_EVENT@, parts) == "#[derive(anchor_lang::AnchorSerialize)]\n"@ + parts[0] + "\n"@ + parts[1] + " struct "@ + parts[2] + " "@ + parts[3] + "\n\n"@ + parts[4] + "\n\nimpl anchor_lang::Event for "@ + parts[2] + " {\n    fn data(&self) -> anchor_lang::__alloc::vec::Vec<u8> {\n        let disc = <Self as anchor_lang::Discriminator>::DISCRIMINATOR;\n        let mut buf = anchor_lang::__alloc::vec::Vec::with_capacity(\n            disc.len() + 256,\n        );\n        buf.extend_from_slice(disc);\n        anchor_lang::wincode::config::serialize_into(\n            &mut buf,\n            self,\n            anchor_lang::BORSH_CONFIG,\n        )\n            .expect(\"`#[event]` wincode serialization cannot fail for \\\n                     derived AnchorSerialize types\");\n        buf\n    }\n}\n\n"@ + parts[5] + "\n\n"@ + parts[6],
{
    let template = WINCODE_EVENT@;
    let words = wincode_event_words();
    lemma_wincode_event_text_marks();
    let told = filled(template, parts);
    assert(template.skip(0) =~= template);
    let done0 = Seq::<char>::empty();
    assert(told =~= done0 + filled(template.skip(0), parts));
    lemma_filled_from(template, 0, words[0], 'a', parts, done0, told);
    let done1 = words[0] + parts[0];
    assert(done0 + words[0] + parts[0] =~= done1);
    lemma_filled_from(template, 42, words[1], 'b', parts, done1, told);
    let done2 = done1 + words[1] + parts[1];
    lemma_filled_from(template, 45, words[2], 'c', parts, done2, told);
    let done3 = done2 + words[2] + parts[2];
    lemma_filled_from(template, 55, words[3], 'd', parts, done3, told);
    let done4 = done3 + words[3] + parts[3];
    lemma_filled_from(template, 58, words[4], 'e', parts, done4, told);
    let done5 = done4 + words[4] + parts[4];
    lemma_filled_from(template, 62, words[5], 'c', parts, done5, told);
    let done6 = done5 + words[5] + parts[2];
    lemma_filled_from(template, 94, words[6], 'f', parts, done6, told);
    let done7 = done6 + words[6] + parts[5];
    lemma_filled_from(template, 667, words[4], 'g', parts, done7, told);
    let done8 = done7 + words[4] + parts[6];
    assert(template.skip(671) =~= Seq::<char>::empty());
    assert(told =~= done8);
}

spec fn bytemuck_event_words() -> Seq<Seq<char>> {
    seq!["#[repr(C)]\n#[derive(::core::clone::Clone, ::core::marker::Copy)]\n"@, "\n"@, " struct "@, " "@, "\n\n"@, "\n\nconst _: () = {\n    let mut __size = 0usize;\n    "@, "\n    ::core::assert!(\n        ::core::mem::size_of::<"@, ">() == __size,\n        \"`#[event]` struct has `repr(C)` alignment padding — \\\n         reorder fields from largest to smallest alignment (u128/u64 \\\n         first, then u32, then u16, then u8/bool), or drop the \\\n         `bytemuck` flag and use the default `#[event]` (wincode) \\\n         for arbitrary layouts\"\n    );\n};\n\nunsafe impl anchor_lang::bytemuck::Pod for "@, " {}\nunsafe impl anchor_lang::bytemuck::Zeroable for "@, " {}\n\n"@, "\n\nimpl anchor_lang::Event for "@, " {\n    fn data(&self) -> anchor_lang::__alloc::vec::Vec<u8> {\n        const SIZE: usize = ::core::mem::size_of::<"@, ">();\n        let disc = <Self as anchor_lang::Discriminator>::DISCRIMINATOR;\n        let mut buf = anchor_lang::__alloc::vec::Vec::with_capacity(\n            disc.len() + SIZE,\n        );\n        buf.extend_from_slice(disc);\n        let start = buf.len();\n        buf.resize(start + SIZE, 0);\n        unsafe {\n            ::core::ptr::copy_nonoverlapping(\n                self as *const Self as *const u8,\n                buf.as_mut_ptr().add(start),\n                SIZE,\n            );\n        }\n        buf\n    }\n}\n\n"@]
}

proof fn lemma_bytemuck_event_text_marks()
    ensures
        BYTEMUCK_EVENT@.len() == 1302,
        stands_at(BYTEMUCK_EVENT@, bytemuck_event_words()[0], 0, 65),
        BYTEMUCK_EVENT@[65] == '@' && BYTEMUCK_EVENT@[66] == 'a',
        stands_at(BYTEMUCK_EVENT@, bytemuck_event_words()[1], 67, 1),
        BYTEMUCK_EVENT@[68] == '@' && BYTEMUCK_EVENT@[69] == 'b',
        stands_at(BYTEMUCK_EVENT@, bytemuck_event_words()[2], 70, 8),
        BYTEMUCK_EVENT@[78] == '@' && BYTEMUCK_EVENT@[79] == 'c',
        stands_at(BYTEMUCK_EVENT@, bytemuck_event_words()[3], 80, 1),
        BYTEMUCK_EVENT@[81] == '@' && BYTEMUCK_EVENT@[82] == 'd',
        stands_at(BYTEMUCK_EVENT@, bytemuck_event_words()[4], 83, 2),
        BYTEMUCK_EVENT@[85] == '@' && BYTEMUCK_EVENT@[86] == 'e',
        stands_at(BYTEMUCK_EVENT@, bytemuck_event_words()[4], 87, 2),
        BYTEMUCK_EVENT@[89] == '@' && BYTEMUCK_EVENT@[90] == 'f',
        stands_at(BYTEMUCK_EVENT@, bytemuck_event_words()[5], 91, 51),
        BYTEMUCK_EVENT@[142] == '@' && BYTEMUCK_EVENT@[143] == 'g',
        stands_at(BYTEMUCK_EVENT@, bytemuck_event_words()[6], 144, 53),
        BYTEMUCK_EVENT@[197] == '@' && BYTEMUCK_EVENT@[198] == 'c',
        stands_at(BYTEMUCK_EVENT@, bytemuck_event_words()[7], 199, 368),
        BYTEMUCK_EVENT@[567] == '@' && BYTEMUCK_EVENT@[568] == 'c',
        stands_at(BYTEMUCK_EVENT@, bytemuck_event_words()[8], 569, 52),
        BYTEMUCK_EVENT@[621] == '@' && BYTEMUCK_EVENT@[622] == 'c',
        stands_at(BYTEMUCK_EVENT@, bytemuck_event_words()[9], 623, 5),
        BYTEMUCK_EVENT@[628] == '@' && BYTEMUCK_EVENT@[629] == 'h',
        stands_at(BYTEMUCK_EVENT@, bytemuck_event_words()[10], 630, 30),
        BYTEMUCK_EVENT@[660] == '@' && BYTEMUCK_EVENT@[661] == 'c',
        stands_at(BYTEMUCK_EVENT@, bytemuck_event_words()[11], 662, 113),
        BYTEMUCK_EVENT@[775] == '@' && BYTEMUCK_EVENT@[776] == 'c',
        stands_at(BYTEMUCK_EVENT@, bytemuck_event_words()[12], 777, 519),
        BYTEMUCK_EVENT@[1296] == '@' && BYTEMUCK_EVENT@[1297] == 'i',
        stands_at(BYTEMUCK_EVENT@, bytemuck_event_words()[4], 1298, 2),
        BYTEMUCK_EVENT@[1300] == '@' && BYTEMUCK_EVENT@[1301] == 'j',
{
    let template = BYTEMUCK_EVENT@;
    let words = bytemuck_event_words();
    reveal_strlit("#[repr(C)]\n#[derive(::core::clone::Clone, ::core::marker::Copy)]\n@a\n@b struct @c @d\n\n@e\n\n@f\n\nconst _: () = {\n    let mut __size = 0usize;\n    @g\n    ::core::assert!(\n        ::core::mem::size_of::<@c>() == __size,\n        \"`#[event]` struct has `repr(C)` alignment padding — \\\n         reorder fields from largest to smallest alignment (u128/u64 \\\n         first, then u32, then u16, then u8/bool), or drop the \\\n         `bytemuck` flag and use the default `#[event]` (wincode) \\\n         for arbitrary layouts\"\n    );\n};\n\nunsafe impl anchor_lang::bytemuck::Pod for @c {}\nunsafe impl anchor_lang::bytemuck::Zeroable for @c {}\n\n@h\n\nimpl anchor_lang::Event for @c {\n    fn data(&self) -> anchor_lang::__alloc::vec::Vec<u8> {\n        const SIZE: usize = ::core::mem::size_of::<@c>();\n        let disc = <Self as anchor_lang::Discriminator>::DISCRIMINATOR;\n        let mut buf = anchor_lang::__alloc::vec::Vec::with_capacity(\n            disc.len() + SIZE,\n        );\n        buf.extend_from_slice(disc);\n        let start = buf.len();\n        buf.resize(start + SIZE, 0);\n        unsafe {\n            ::core::ptr::copy_nonoverlapping(\n                self as *const Self as *const u8,\n                buf.as_mut_ptr().add(start),\n                SIZE,\n            );\n        }\n        buf\n    }\n}\n\n@i\n\n@j");
    assert(stands_at(template, words[0], 0, 65)) by {
        reveal_strlit("#[repr(C)]\n#[derive(::core::clone::Clone, ::core::marker::Copy)]\n");
        assert(template.subrange(0, 65) =~= words[0]);
    }
    assert(stands_at(template, words[1], 67, 1)) by {
        reveal_strlit("\n");
        assert(template.subrange(67, 68) =~= words[1]);
    }
    assert(stands_at(template, words[2], 70, 8)) by {
        reveal_strlit(" struct ");
        assert(template.subrange(70, 78) =~= words[2]);
    }
    assert(stands_at(template, words[3], 80, 1)) by {
        reveal_strlit(" ");
        assert(template.subrange(80, 81) =~= words[3]);
    }
    assert(stands_at(template, words[4], 83, 2)) by {
        reveal_strlit("\n\n");
        assert(template.subrange(83, 85) =~= words[4]);
    }
    assert(stands_at(template, words[4], 87, 2)) by {
        reveal_strlit("\n\n");
        assert(template.subrange(87, 89) =~= words[4]);
    }
    assert(stands_at(template, words[5], 91, 51)) by {
        reveal_strlit("\n\nconst _: () = {\n    let mut __size = 0usize;\n    ");
        assert(template.subrange(91, 142) =~= words[5]);
    }
    assert(stands_at(template, words[6], 144, 53)) by {
        reveal_strlit("\n    ::core::assert!(\n        ::core::mem::size_of::<");
        assert(template.subrange(144, 197) =~= words[6]);
    }
    assert(stands_at(template, words[7], 199, 368)) by {
        reveal_strlit(">() == __size,\n        \"`#[event]` struct has `repr(C)` alignment padding — \\\n         reorder fields from largest to smallest alignment (u128/u64 \\\n         first, then u32, then u16, then u8/bool), or drop the \\\n         `bytemuck` flag and use the default `#[event]` (wincode) \\\n         for arbitrary layouts\"\n    );\n};\n\nunsafe impl anchor_lang::bytemuck::Pod for ");
        assert(template.subrange(199, 567) =~= words[7]);
    }
    assert(stands_at(template, words[8], 569, 52)) by {
        reveal_strlit(" {}\nunsafe impl anchor_lang::bytemuck::Zeroable for ");
        assert(template.subrange(569, 621) =~= words[8]);
    }
    assert(stands_at(template, words[9], 623, 5)) by {
        reveal_strlit(" {}\n\n");
        assert(template.subrange(623, 628) =~= words[9]);
    }
    assert(stands_at(template, words[10], 630, 30)) by {
        reveal_strlit("\n\nimpl anchor_lang::Event for ");
        assert(template.subrange(630, 660) =~= words[10]);
    }
    assert(stands_at(template, words[11], 662, 113)) by {
        reveal_strlit(" {\n    fn data(&self) -> anchor_lang::__alloc::vec::Vec<u8> {\n        const SIZE: usize = ::core::mem::size_of::<");
        assert(template.subrange(662, 775) =~= words[11]);
    }
    assert(stands_at(template, words[12], 777, 519)) by {
        reveal_strlit(">();\n        let disc = <Self as anchor_lang::Discriminator>::DISCRIMINATOR;\n        let mut buf = anchor_lang::__alloc::vec::Vec::with_capacity(\n            disc.len() + SIZE,\n        );\n        buf.extend_from_slice(disc);\n        let start = buf.len();\n        buf.resize(start + SIZE, 0);\n        unsafe {\n            ::core::ptr::copy_nonoverlapping(\n                self as *const Self as *const u8,\n                buf.as_mut_ptr().add(start),\n                SIZE,\n            );\n        }\n        buf\n    }\n}\n\n");
        assert(template.subrange(777, 1296) =~= words[12]);
    }
    assert(stands_at(template, words[4], 1298, 2)) by {
        reveal_strlit("\n\n");
        assert(template.subrange(1298, 1300) =~= words[4]);
    }
}

/// The text of the template, with its holes filled.
pub proof fn lemma_bytemuck_event_text(parts: Seq<Seq<char>>)
    requires
        parts.len() == 10,
    ensures
        filled(BYTEMUCK_EVENT@, parts) == "#[repr(C)]\n#[derive(::core::clone::Clone, ::core::marker::Copy)]\n"@ + parts[0] + "\n"@ + parts[1] + " struct "@ + parts[2] + " "@ + parts[3] + "\n\n"@ + parts[4] + "\n\n"@ + parts[5] + "\n\nconst _: () = {\n    let mut __size = 0usize;\n    "@ + parts[6] + "\n    ::core::assert!(\n        ::core::mem::size_of::<"@ + parts[2] + ">() == __size,\n        \"`#[event]` struct has `repr(C)` alignment padding — \\\n         reorder fields from largest to smallest alignment (u128/u64 \\\n         first, then u32, then u16, then u8/bool), or drop the \\\n         `bytemuck` flag and use the default `#[event]` (wincode) \\\n         for arbitrary layouts\"\n    );\n};\n\nunsafe impl anchor_lang::bytemuck::Pod for "@ + parts[2] + " {}\nunsafe impl anchor_lang::bytemuck::Zeroable for "@ + parts[2] + " {}\n\n"@ + parts[7] + "\n\nimpl anchor_lang::Event for "@ + parts[2] + " {\n    fn data(&self) -> anchor_lang::__alloc::vec::Vec<u8> {\n        const SIZE: usize = ::core::mem::size_of::<"@ + parts[2] + ">();\n        let disc = <Self as anchor_lang::Discriminator>::DISCRIMINATOR;\n        let mut buf = anchor_lang::__alloc::vec::Vec::with_capacity(\n            disc.len() + SIZE,\n        );\n        buf.extend_from_slice(disc);\n        let start = buf.len();\n        buf.resize(start + SIZE, 0);\n        unsafe {\n            ::core::ptr::copy_nonoverlapping(\n                self as *const Self as *const u8,\n                buf.as_mut_ptr().add(start),\n                SIZE,\n            );\n        }\n        buf\n    }\n}\n\n"@ + parts[8] + "\n\n"@ + parts[9],
{
    let template = BYTEMUCK_EVENT@;
    let words = bytemuck_event_words();
    lemma_bytemuck_event_text_marks();
    let told = filled(template, parts);
    assert(template.skip(0) =~= template);
    let done0 = Seq::<char>::empty();
    assert(told =~= done0 + filled(template.skip(0), parts));
    lemma_filled_from(template, 0, words[0], 'a', parts, done0, told);
    let done1 = words[0] + parts[0];
    assert(done0 + words[0] + parts[0] =~= done1);
    lemma_filled_from(template, 67, words[1], 'b', parts, done1, told);
    let done2 = done1 + words[1] + parts[1];
    lemma_filled_from(template, 70, words[2], 'c', parts, done2, told);
    let done3 = done2 + words[2] + parts[2];
    lemma_filled_from(template, 80, words[3], 'd', parts, done3, told);
    let done4 = done3 + words[3] + parts[3];
    lemma_filled_from(template, 83, words[4], 'e', parts, done4, told);
    let done5 = done4 + words[4] + parts[4];
    lemma_filled_from(template, 87, words[4], 'f', parts, done5, told);
    let done6 = done5 + words[4] + parts[5];
    lemma_filled_from(template, 91, words[5], 'g', parts, done6, told);
    let done7 = done6 + words[5] + parts[6];
    lemma_filled_from(template, 144, words[6], 'c', parts, done7, told);
    let done8 = done7 + words[6] + parts[2];
    lemma_filled_from(template, 199, words[7], 'c', parts, done8, told);
    let done9 = done8 + words[7] + parts[2];
    lemma_filled_from(template, 569, words[8], 'c', parts, done9, told);
    let done10 = done9 + words[8] + parts[2];
    lemma_filled_from(template, 623, words[9], 'h', parts, done10, told);
    let done11 = done10 + words[9] + parts[7];
    lemma_filled_from(template, 630, words[10], 'c', parts, done11, told);
    let done12 = done11 + words[10] + parts[2];
    lemma_filled_from(template, 662, words[11], 'c', parts, done12, told);
    let done13 = done12 + words[11] + parts[2];
    lemma_filled_from(template, 777, words[12], 'i', parts, done13, told);
    let done14 = done13 + words[12] + parts[8];
    lemma_filled_from(template, 1298, words[4], 'j', parts, done14, told);
    let done15 = done14 + words[4] + parts[9];
    assert(template.skip(1302) =~= Seq::<char>::empty());
    assert(told =~= done15);
}

spec fn idl_event_type_words() -> Seq<Seq<char>> {
    seq!["#[cfg(feature = \"idl-build\")]\n#[doc(hidden)]\nimpl anchor_lang::IdlAccountType for "@, " {\n    fn __idl_type_def() -> Option<&'static str> {\n        "@, "\n    }\n    fn __register_idl_deps(\n        accounts: &mut ::anchor_lang::__alloc::vec::Vec<&'static str>,\n        types: &mut ::anchor_lang::__alloc::vec::Vec<&'static str>,\n    ) {\n        if let Some(t) = <Self as anchor_lang::IdlAccountType>::__idl_type_def() {\n            types.push(t);\n        }\n        "@, "\n    }\n}"@]
}

proof fn lemma_idl_event_type_text_marks()
    ensures
        IDL_EVENT_TYPE@.len() == 467,
        stands_at(IDL_EVENT_TYPE@, idl_event_type_words()[0], 0, 82),
        IDL_EVENT_TYPE@[82] == '@' && IDL_EVENT_TYPE@[83] == 'a',
        stands_at(IDL_EVENT_TYPE@, idl_event_type_words()[1], 84, 61),
        IDL_EVENT_TYPE@[145] == '@' && IDL_EVENT_TYPE@[146] == 'b',
        stands_at(IDL_EVENT_TYPE@, idl_event_type_words()[2], 147, 310),
        IDL_EVENT_TYPE@[457] == '@' && IDL_EVENT_TYPE@[458] == 'c',
        stands_at(IDL_EVENT_TYPE@, idl_event_type_words()[3], 459, 8),
{
    let template = IDL_EVENT_TYPE@;
    let words = idl_event_type_words();
    reveal_strlit("#[cfg(feature = \"idl-build\")]\n#[doc(hidden)]\nimpl anchor_lang::IdlAccountType for @a {\n    fn __idl_type_def() -> Option<&'static str> {\n        @b\n    }\n    fn __register_idl_deps(\n        accounts: &mut ::anchor_lang::__alloc::vec::Vec<&'static str>,\n        types: &mut ::anchor_lang::__alloc::vec::Vec<&'static str>,\n    ) {\n        if let Some(t) = <Self as anchor_lang::IdlAccountType>::__idl_type_def() {\n            types.push(t);\n        }\n        @c\n    }\n}");
    assert(stands_at(template, words[0], 0, 82)) by {
        reveal_strlit("#[cfg(feature = \"idl-build\")]\n#[doc(hidden)]\nimpl anchor_lang::IdlAccountType for ");
        assert(template.subrange(0, 82) =~= words[0]);
    }
    assert(stands_at(template, words[1], 84, 61)) by {
        reveal_strlit(" {\n    fn __idl_type_def() -> Option<&'static str> {\n        ");
        assert(template.subrange(84, 145) =~= words[1]);
    }
    assert(stands_at(template, words[2], 147, 310)) by {
        reveal_strlit("\n    }\n    fn __register_idl_deps(\n        accounts: &mut ::anchor_lang::__alloc::vec::Vec<&'static str>,\n        types: &mut ::anchor_lang::__alloc::vec::Vec<&'static str>,\n    ) {\n        if let Some(t) = <Self as anchor_lang::IdlAccountType>::__idl_type_def() {\n            types.push(t);\n        }\n        ");
        assert(template.subrange(147, 457) =~= words[2]);
    }
    assert(stands_at(template, words[3], 459, 8)) by {
        reveal_strlit("\n    }\n}");
        assert(template.subrange(459, 467) =~= words[3]);
    }
}

/// The text of the template, with its holes filled.
pub proof fn lemma_idl_event_type_text(parts: Seq<Seq<char>>)
    requires
        parts.len() == 3,
    ensures
        filled(IDL_EVENT_TYPE@, parts) == "#[cfg(feature = \"idl-build\")]\n#[doc(hidden)]\nimpl anchor_lang::IdlAccountType for "@ + parts[0] + " {\n    fn __idl_type_def() -> Option<&'static str> {\n        "@ + parts[1] + "\n    }\n    fn __register_idl_deps(\n        accounts: &mut ::anchor_lang::__alloc::vec::Vec<&'static str>,\n        types: &mut ::anchor_lang::__alloc::vec::Vec<&'static str>,\n    ) {\n        if let Some(t) = <Self as anchor_lang::IdlAccountType>::__idl_type_def() {\n            types.push(t);\n        }\n        "@ + parts[2] + "\n    }\n}"@,
{
    let template = IDL_EVENT_TYPE@;
    let words = idl_event_type_words();
    lemma_idl_event_type_text_marks();
    let told = filled(template, parts);
    assert(template.skip(0) =~= template);
    let done0 = Seq::<char>::empty();
    assert(told =~= done0 + filled(template.skip(0), parts));
    lemma_filled_from(template, 0, words[0], 'a', parts, done0, told);
    let done1 = words[0] + parts[0];
    assert(done0 + words[0] + parts[0] =~= done1);
    lemma_filled_from(template, 84, words[1], 'b', parts, done1, told);
    let done2 = done1 + words[1] + parts[1];
    lemma_filled_from(template, 147, words[2], 'c', parts, done2, told);
    let done3 = done2 + words[2] + parts[2];
    lemma_filled_last(template, 459, words[3], parts, done3, told);
}

spec fn idl_event_print_words() -> Seq<Seq<char>> {
    seq!["#[cfg(all(test, feature = \"idl-build\"))]\n#[test]\nfn "@, "() {\n    let mut __accounts: anchor_lang::__alloc::vec::Vec<&'static str> =\n        anchor_lang::__alloc::vec::Vec::new();\n    let mut __types: anchor_lang::__alloc::vec::Vec<&'static str> =\n        anchor_lang::__alloc::vec::Vec::new();\n    <"@, " as anchor_lang::IdlAccountType>::__register_idl_deps(\n        &mut __accounts,\n        &mut __types,\n    );\n    __types.sort();\n    __types.dedup();\n    let mut __payload = anchor_lang::__alloc::string::String::from("@, ");\n    let mut __first = true;\n    for __t in &__types {\n        if !__first { __payload.push(','); }\n        __first = false;\n        __payload.push_str(__t);\n    }\n    __payload.push_str(\"]}\");\n    println!(\"--- IDL begin event ---\");\n    println!(\"{}\", __payload);\n    println!(\"--- IDL end event ---\");\n}"@]
}

proof fn lemma_idl_event_print_text_marks()
    ensures
        IDL_EVENT_PRINT@.len() == 826,
        stands_at(IDL_EVENT_PRINT@, idl_event_print_words()[0], 0, 52),
        IDL_EVENT_PRINT@[52] == '@' && IDL_EVENT_PRINT@[53] == 'a',
        stands_at(IDL_EVENT_PRINT@, idl_event_print_words()[1], 54, 243),
        IDL_EVENT_PRINT@[297] == '@' && IDL_EVENT_PRINT@[298] == 'b',
        stands_at(IDL_EVENT_PRINT@, idl_event_print_words()[2], 299, 217),
        IDL_EVENT_PRINT@[516] == '@' && IDL_EVENT_PRINT@[517] == 'c',
        stands_at(IDL_EVENT_PRINT@, idl_event_print_words()[3], 518, 308),
{
    let template = IDL_EVENT_PRINT@;
    let words = idl_event_print_words();
    reveal_strlit("#[cfg(all(test, feature = \"idl-build\"))]\n#[test]\nfn @a() {\n    let mut __accounts: anchor_lang::__alloc::vec::Vec<&'static str> =\n        anchor_lang::__alloc::vec::Vec::new();\n    let mut __types: anchor_lang::__alloc::vec::Vec<&'static str> =\n        anchor_lang::__alloc::vec::Vec::new();\n    <@b as anchor_lang::IdlAccountType>::__register_idl_deps(\n        &mut __accounts,\n        &mut __types,\n    );\n    __types.sort();\n    __types.dedup();\n    let mut __payload = anchor_lang::__alloc::string::String::from(@c);\n    let mut __first = true;\n    for __t in &__types {\n        if !__first { __payload.push(','); }\n        __first = false;\n        __payload.push_str(__t);\n    }\n    __payload.push_str(\"]}\");\n    println!(\"--- IDL begin event ---\");\n    println!(\"{}\", __payload);\n    println!(\"--- IDL end event ---\");\n}");
    assert(stands_at(template, words[0], 0, 52)) by {
        reveal_strlit("#[cfg(all(test, feature = \"idl-build\"))]\n#[test]\nfn ");
        assert(template.subrange(0, 52) =~= words[0]);
    }
    assert(stands_at(template, words[1], 54, 243)) by {
        reveal_strlit("() {\n    let mut __accounts: anchor_lang::__alloc::vec::Vec<&'static str> =\n        anchor_lang::__alloc::vec::Vec::new();\n    let mut __types: anchor_lang::__alloc::vec::Vec<&'static str> =\n        anchor_lang::__alloc::vec::Vec::new();\n    <");
        assert(template.subrange(54, 297) =~= words[1]);
    }
    assert(stands_at(template, words[2], 299, 217)) by {
        reveal_strlit(" as anchor_lang::IdlAccountType>::__register_idl_deps(\n        &mut __accounts,\n        &mut __types,\n    );\n    __types.sort();\n    __types.dedup();\n    let mut __payload = anchor_lang::__alloc::string::String::from(");
        assert(template.subrange(299, 516) =~= words[2]);
    }
    assert(stands_at(template, words[3], 518, 308)) by {
        reveal_strlit(");\n    let mut __first = true;\n    for __t in &__types {\n        if !__first { __payload.push(','); }\n        __first = false;\n        __payload.push_str(__t);\n    }\n    __payload.push_str(\"]}\");\n    println!(\"--- IDL begin event ---\");\n    println!(\"{}\", __payload);\n    println!(\"--- IDL end event ---\");\n}");
        assert(template.subrange(518, 826) =~= words[3]);
    }
}

/// The text of the template, with its holes filled.
pub proof fn lemma_idl_event_print_text(parts: Seq<Seq<char>>)
    requires
        parts.len() == 3,
    ensures
        filled(IDL_EVENT_PRINT@, parts) == "#[cfg(all(test, feature = \"idl-build\"))]\n#[test]\nfn "@ + parts[0] + "() {\n    let mut __accounts: anchor_lang::__alloc::vec::Vec<&'static str> =\n        anchor_lang::__alloc::vec::Vec::new();\n    let mut __types: anchor_lang::__alloc::vec::Vec<&'static str> =\n        anchor_lang::__alloc::vec::Vec::new();\n    <"@ + parts[1] + " as anchor_lang::IdlAccountType>::__register_idl_deps(\n        &mut __accounts,\n        &mut __types,\n    );\n    __types.sort();\n    __types.dedup();\n    let mut __payload = anchor_lang::__alloc::string::String::from("@ + parts[2] + ");\n    let mut __first = true;\n    for __t in &__types {\n        if !__first { __payload.push(','); }\n        __first = false;\n        __payload.push_str(__t);\n    }\n    __payload.push_str(\"]}\");\n    println!(\"--- IDL begin event ---\");\n    println!(\"{}\", __payload);\n    println!(\"--- IDL end event ---\");\n}"@,
{
    let template = IDL_EVENT_PRINT@;
    let words = idl_event_print_words();
    lemma_idl_event_print_text_marks();
    let told = filled(template, parts);
    assert(template.skip(0) =~= template);
    let done0 = Seq::<char>::empty();
    assert(told =~= done0 + filled(template.skip(0), parts));
    lemma_filled_from(template, 0, words[0], 'a', parts, done0, told);
    let done1 = words[0] + parts[0];
    assert(done0 + words[0] + parts[0] =~= done1);
    lemma_filled_from(template, 54, words[1], 'b', parts, done1, told);
    let done2 = done1 + words[1] + parts[1];
    lemma_filled_from(template, 299, words[2], 'c', parts, done2, told);
    let done3 = done2 + words[2] + parts[2];
    lemma_filled_last(template, 518, words[3], parts, done3, told);
}

spec fn event_discriminator_words() -> Seq<Seq<char>> {
    seq!["impl anchor_lang::Discriminator for "@, " {\n    const DISCRIMINATOR: &'static [u8] = &["@, "];\n}"@]
}

proof fn lemma_event_discriminator_text_marks()
    ensures
        EVENT_DISCRIMINATOR@.len() == 90,
        stands_at(EVENT_DISCRIMINATOR@, event_discriminator_words()[0], 0, 36),
        EVENT_DISCRIMINATOR@[36] == '@' && EVENT_DISCRIMINATOR@[37] == 'a',
        stands_at(EVENT_DISCRIMINATOR@, event_discriminator_words()[1], 38, 46),
        EVENT_DISCRIMINATOR@[84] == '@' && EVENT_DISCRIMINATOR@[85] == 'b',
        stands_at(EVENT_DISCRIMINATOR@, event_discriminator_words()[2], 86, 4),
{
    let template = EVENT_DISCRIMINATOR@;
    let words = event_discriminator_words();
    reveal_strlit("impl anchor_lang::Discriminator for @a {\n    const DISCRIMINATOR: &'static [u8] = &[@b];\n}");
    assert(stands_at(template, words[0], 0, 36)) by {
        reveal_strlit("impl anchor_lang::Discriminator for ");
        assert(template.subrange(0, 36) =~= words[0]);
    }
    assert(stands_at(template, words[1], 38, 46)) by {
        reveal_strlit(" {\n    const DISCRIMINATOR: &'static [u8] = &[");
        assert(template.subrange(38, 84) =~= words[1]);
    }
    assert(stands_at(template, words[2], 86, 4)) by {
        reveal_strlit("];\n}");
        assert(template.subrange(86, 90) =~= words[2]);
    }
}

/// The text of the template, with its holes filled.
pub proof fn lemma_event_discriminator_text(parts: Seq<Seq<char>>)
    requires
        parts.len() == 2,
    ensures
        filled(EVENT_DISCRIMINATOR@, parts) == "impl anchor_lang::Discriminator for "@ + parts[0] + " {\n    const DISCRIMINATOR: &'static [u8] = &["@ + parts[1] + "];\n}"@,
{
    let template = EVENT_DISCRIMINATOR@;
    let words = event_discriminator_words();
    lemma_event_discriminator_text_marks();
    let told = filled(template, parts);
    assert(template.skip(0) =~= template);
    let done0 = Seq::<char>::empty();
    assert(told =~= done0 + filled(template.skip(0), parts));
    lemma_filled_from(template, 0, words[0], 'a', parts, done0, told);
    let done1 = words[0] + parts[0];
    assert(done0 + words[0] + parts[0] =~= done1);
    lemma_filled_from(template, 38, words[1], 'b', parts, done1, told);
    let done2 = done1 + words[1] + parts[1];
    lemma_filled_last(template, 86, words[2], parts, done2, told);
}

spec fn field_diagnostic_words() -> Seq<Seq<char>> {
    seq!["\n::core::compile_error!("@, ");"@]
}

proof fn lemma_field_diagnostic_text_marks()
    ensures
        FIELD_DIAGNOSTIC@.len() == 30,
        FIELD_DIAGNOSTIC@[0] == '@' && FIELD_DIAGNOSTIC@[1] == 'a',
        stands_at(FIELD_DIAGNOSTIC@, field_diagnostic_words()[0], 2, 24),
        FIELD_DIAGNOSTIC@[26] == '@' && FIELD_DIAGNOSTIC@[27] == 'b',
        stands_at(FIELD_DIAGNOSTIC@, field_diagnostic_words()[1], 28, 2),
{
    let template = FIELD_DIAGNOSTIC@;
    let words = field_diagnostic_words();
    reveal_strlit("@a\n::core::compile_error!(@b);");
    assert(stands_at(template, words[0], 2, 24)) by {
        reveal_strlit("\n::core::compile_error!(");
        assert(template.subrange(2, 26) =~= words[0]);
    }
    assert(stands_at(template, words[1], 28, 2)) by {
        reveal_strlit(");");
        assert(template.subrange(28, 30) =~= words[1]);
    }
}

/// The text of the template, with its holes filled.
pub proof fn lemma_field_diagnostic_text(parts: Seq<Seq<char>>)
    requires
        parts.len() == 2,
    ensures
        filled(FIELD_DIAGNOSTIC@, parts) == parts[0] + "\n::core::compile_error!("@ + parts[1] + ");"@,
{
    let template = FIELD_DIAGNOSTIC@;
    let words = field_diagnostic_words();
    lemma_field_diagnostic_text_marks();
    let told = filled(template, parts);
    assert(template.skip(0) =~= template);
    let done0 = Seq::<char>::empty();
    assert(told =~= done0 + filled(template.skip(0), parts));
    assert(template.subrange(0, 0) =~= Seq::<char>::empty());
    lemma_filled_from(template, 0, Seq::<char>::empty(), 'a', parts, done0, told);
    let done1 = parts[0];
    assert(done0 + Seq::<char>::empty() + parts[0] =~= done1);
    lemma_filled_from(template, 2, words[0], 'b', parts, done1, told);
    let done2 = done1 + words[0] + parts[1];
    lemma_filled_last(template, 28, words[1], parts, done2, told);
}

spec fn idl_type_impl_words() -> Seq<Seq<char>> {
    seq!["#[cfg(feature = \"idl-build\")]\n#[doc(hidden)]\nimpl "@, " anchor_lang::IdlAccountType for "@, " "@, " {\n    fn __idl_type_def() -> Option<&'static str> {\n        "@, "\n    }\n    fn __register_idl_deps(\n        accounts: &mut ::anchor_lang::__alloc::vec::Vec<&'static str>,\n        types: &mut ::anchor_lang::__alloc::vec::Vec<&'static str>,\n    ) {\n        if let Some(t) = <Self as anchor_lang::IdlAccountType>::__idl_type_def() {\n            types.push(t);\n        }\n        "@, "\n    }\n}"@]
}

proof fn lemma_idl_type_impl_text_marks()
    ensures
        IDL_TYPE_IMPL@.len() == 476,
        stands_at(IDL_TYPE_IMPL@, idl_type_impl_words()[0], 0, 50),
        IDL_TYPE_IMPL@[50] == '@' && IDL_TYPE_IMPL@[51] == 'a',
        stands_at(IDL_TYPE_IMPL@, idl_type_impl_words()[1], 52, 33),
        IDL_TYPE_IMPL@[85] == '@' && IDL_TYPE_IMPL@[86] == 'b',
        stands_at(IDL_TYPE_IMPL@, idl_type_impl_words()[2], 87, 1),
        IDL_TYPE_IMPL@[88] == '@' && IDL_TYPE_IMPL@[89] == 'c',
        stands_at(IDL_TYPE_IMPL@, idl_type_impl_words()[2], 90, 1),
        IDL_TYPE_IMPL@[91] == '@' && IDL_TYPE_IMPL@[92] == 'd',
        stands_at(IDL_TYPE_IMPL@, idl_type_impl_words()[3], 93, 61),
        IDL_TYPE_IMPL@[154] == '@' && IDL_TYPE_IMPL@[155] == 'e',
        stands_at(IDL_TYPE_IMPL@, idl_type_impl_words()[4], 156, 310),
        IDL_TYPE_IMPL@[466] == '@' && IDL_TYPE_IMPL@[467] == 'f',
        stands_at(IDL_TYPE_IMPL@, idl_type_impl_words()[5], 468, 8),
{
    let template = IDL_TYPE_IMPL@;
    let words = idl_type_impl_words();
    reveal_strlit("#[cfg(feature = \"idl-build\")]\n#[doc(hidden)]\nimpl @a anchor_lang::IdlAccountType for @b @c @d {\n    fn __idl_type_def() -> Option<&'static str> {\n        @e\n    }\n    fn __register_idl_deps(\n        accounts: &mut ::anchor_lang::__alloc::vec::Vec<&'static str>,\n        types: &mut ::anchor_lang::__alloc::vec::Vec<&'static str>,\n    ) {\n        if let Some(t) = <Self as anchor_lang::IdlAccountType>::__idl_type_def() {\n            types.push(t);\n        }\n        @f\n    }\n}");
    assert(stands_at(template, words[0], 0, 50)) by {
        reveal_strlit("#[cfg(feature = \"idl-build\")]\n#[doc(hidden)]\nimpl ");
        assert(template.subrange(0, 50) =~= words[0]);
    }
    assert(stands_at(template, words[1], 52, 33)) by {
        reveal_strlit(" anchor_lang::IdlAccountType for ");
        assert(template.subrange(52, 85) =~= words[1]);
    }
    assert(stands_at(template, words[2], 87, 1)) by {
        reveal_strlit(" ");
        assert(template.subrange(87, 88) =~= words[2]);
    }
    assert(stands_at(template, words[2], 90, 1)) by {
        reveal_strlit(" ");
        assert(template.subrange(90, 91) =~= words[2]);
    }
    assert(stands_at(template, words[3], 93, 61)) by {
        reveal_strlit(" {\n    fn __idl_type_def() -> Option<&'static str> {\n        ");
        assert(template.subrange(93, 154) =~= words[3]);
    }
    assert(stands_at(template, words[4], 156, 310)) by {
        reveal_strlit("\n    }\n    fn __register_idl_deps(\n        accounts: &mut ::anchor_lang::__alloc::vec::Vec<&'static str>,\n        types: &mut ::anchor_lang::__alloc::vec::Vec<&'static str>,\n    ) {\n        if let Some(t) = <Self as anchor_lang::IdlAccountType>::__idl_type_def() {\n            types.push(t);\n        }\n        ");
        assert(template.subrange(156, 466) =~= words[4]);
    }
    assert(stands_at(template, words[5], 468, 8)) by {
        reveal_strlit("\n    }\n}");
        assert(template.subrange(468, 476) =~= words[5]);
    }
}

/// The text of the template, with its holes filled.
pub proof fn lemma_idl_type_impl_text(parts: Seq<Seq<char>>)
    requires
        parts.len() == 6,
    ensures
        filled(IDL_TYPE_IMPL@, parts) == "#[cfg(feature = \"idl-build\")]\n#[doc(hidden)]\nimpl "@ + parts[0] + " anchor_lang::IdlAccountType for "@ + parts[1] + " "@ + parts[2] + " "@ + parts[3] + " {\n    fn __idl_type_def() -> Option<&'static str> {\n        "@ + parts[4] + "\n    }\n    fn __register_idl_deps(\n        accounts: &mut ::anchor_lang::__alloc::vec::Vec<&'static str>,\n        types: &mut ::anchor_lang::__alloc::vec::Vec<&'static str>,\n    ) {\n        if let Some(t) = <Self as anchor_lang::IdlAccountType>::__idl_type_def() {\n            types.push(t);\n        }\n        "@ + parts[5] + "\n    }\n}"@,
{
    let template = IDL_TYPE_IMPL@;
    let words = idl_type_impl_words();
    lemma_idl_type_impl_text_marks();
    let told = filled(template, parts);
    assert(template.skip(0) =~= template);
    let done0 = Seq::<char>::empty();
    assert(told =~= done0 + filled(template.skip(0), parts));
    lemma_filled_from(template, 0, words[0], 'a', parts, done0, told);
    let done1 = words[0] + parts[0];
    assert(done0 + words[0] + parts[0] =~= done1);
    lemma_filled_from(template, 52, words[1], 'b', parts, done1, told);
    let done2 = done1 + words[1] + parts[1];
    lemma_filled_from(template, 87, words[2], 'c', parts, done2, told);
    let done3 = done2 + words[2] + parts[2];
    lemma_filled_from(template, 90, words[2], 'd', parts, done3, told);
    let done4 = done3 + words[2] + parts[3];
    lemma_filled_from(template, 93, words[3], 'e', parts, done4, told);
    let done5 = done4 + words[3] + parts[4];
    lemma_filled_from(template, 156, words[4], 'f', parts, done5, told);
    let done6 = done5 + words[4] + parts[5];
    lemma_filled_last(template, 468, words[5], parts, done6, told);
}

spec fn variant_walker_words() -> Seq<Seq<char>> {
    seq!["\n{\n    "@, "\n}"@]
}

proof fn lemma_variant_walker_text_marks()
    ensures
        VARIANT_WALKER@.len() == 13,
        VARIANT_WALKER@[0] == '@' && VARIANT_WALKER@[1] == 'a',
        stands_at(VARIANT_WALKER@, variant_walker_words()[0], 2, 7),
        VARIANT_WALKER@[9] == '@' && VARIANT_WALKER@[10] == 'b',
        stands_at(VARIANT_WALKER@, variant_walker_words()[1], 11, 2),
{
    let template = VARIANT_WALKER@;
    let words = variant_walker_words();
    reveal_strlit("@a\n{\n    @b\n}");
    assert(stands_at(template, words[0], 2, 7)) by {
        reveal_strlit("\n{\n    ");
        assert(template.subrange(2, 9) =~= words[0]);
    }
    assert(stands_at(template, words[1], 11, 2)) by {
        reveal_strlit("\n}");
        assert(template.subrange(11, 13) =~= words[1]);
    }
}

/// The text of the template, with its holes filled.
pub proof fn lemma_variant_walker_text(parts: Seq<Seq<char>>)
    requires
        parts.len() == 2,
    ensures
        filled(VARIANT_WALKER@, parts) == parts[0] + "\n{\n    "@ + parts[1] + "\n}"@,
{
    let template = VARIANT_WALKER@;
    let words = variant_walker_words();
    lemma_variant_walker_text_marks();
    let told = filled(template, parts);
    assert(template.skip(0) =~= template);
    let done0 = Seq::<char>::empty();
    assert(told =~= done0 + filled(template.skip(0), parts));
    assert(template.subrange(0, 0) =~= Seq::<char>::empty());
    lemma_filled_from(template, 0, Seq::<char>::empty(), 'a', parts, done0, told);
    let done1 = parts[0];
    assert(done0 + Seq::<char>::empty() + parts[0] =~= done1);
    lemma_filled_from(template, 2, words[0], 'b', parts, done1, told);
    let done2 = done1 + words[0] + parts[1];
    lemma_filled_last(template, 11, words[1], parts, done2, told);
}

spec fn event_cpi_struct_words() -> Seq<Seq<char>> {
    seq!["\n"@, " "@, " {\n    "@, "\n\n    /// CHECK: Only the event authority can invoke self-CPI\n    #[account(seeds = [b\"__event_authority\"], bump)]\n    pub event_authority: anchor_lang::accounts::UncheckedAccount,\n    /// CHECK: Kept for v1-compatible account ordering and IDL shape\n    pub program: anchor_lang::accounts::UncheckedAccount,\n}"@]
}

proof fn lemma_event_cpi_struct_text_marks()
    ensures
        EVENT_CPI_STRUCT@.len() == 329,
        EVENT_CPI_STRUCT@[0] == '@' && EVENT_CPI_STRUCT@[1] == 'a',
        stands_at(EVENT_CPI_STRUCT@, event_cpi_struct_words()[0], 2, 1),
        EVENT_CPI_STRUCT@[3] == '@' && EVENT_CPI_STRUCT@[4] == 'b',
        stands_at(EVENT_CPI_STRUCT@, event_cpi_struct_words()[1], 5, 1),
        EVENT_CPI_STRUCT@[6] == '@' && EVENT_CPI_STRUCT@[7] == 'c',
        stands_at(EVENT_CPI_STRUCT@, event_cpi_struct_words()[1], 8, 1),
        EVENT_CPI_STRUCT@[9] == '@' && EVENT_CPI_STRUCT@[10] == 'd',
        stands_at(EVENT_CPI_STRUCT@, event_cpi_struct_words()[2], 11, 7),
        EVENT_CPI_STRUCT@[18] == '@' && EVENT_CPI_STRUCT@[19] == 'e',
        stands_at(EVENT_CPI_STRUCT@, event_cpi_struct_words()[3], 20, 309),
{
    let template = EVENT_CPI_STRUCT@;
    let words = event_cpi_struct_words();
    reveal_strlit("@a\n@b @c @d {\n    @e\n\n    /// CHECK: Only the event authority can invoke self-CPI\n    #[account(seeds = [b\"__event_authority\"], bump)]\n    pub event_authority: anchor_lang::accounts::UncheckedAccount,\n    /// CHECK: Kept for v1-compatible account ordering and IDL shape\n    pub program: anchor_lang::accounts::UncheckedAccount,\n}");
    assert(stands_at(template, words[0], 2, 1)) by {
        reveal_strlit("\n");
        assert(template.subrange(2, 3) =~= words[0]);
    }
    assert(stands_at(template, words[1], 5, 1)) by {
        reveal_strlit(" ");
        assert(template.subrange(5, 6) =~= words[1]);
    }
    assert(stands_at(template, words[1], 8, 1)) by {
        reveal_strlit(" ");
        assert(template.subrange(8, 9) =~= words[1]);
    }
    assert(stands_at(template, words[2], 11, 7)) by {
        reveal_strlit(" {\n    ");
        assert(template.subrange(11, 18) =~= words[2]);
    }
    assert(stands_at(template, words[3], 20, 309)) by {
        reveal_strlit("\n\n    /// CHECK: Only the event authority can invoke self-CPI\n    #[account(seeds = [b\"__event_authority\"], bump)]\n    pub event_authority: anchor_lang::accounts::UncheckedAccount,\n    /// CHECK: Kept for v1-compatible account ordering and IDL shape\n    pub program: anchor_lang::accounts::UncheckedAccount,\n}");
        assert(template.subrange(20, 329) =~= words[3]);
    }
}

/// The text of the template, with its holes filled.
pub proof fn lemma_event_cpi_struct_text(parts: Seq<Seq<char>>)
    requires
        parts.len() == 5,
    ensures
        filled(EVENT_CPI_STRUCT@, parts) == parts[0] + "\n"@ + parts[1] + " "@ + parts[2] + " "@ + parts[3] + " {\n    "@ + parts[4] + "\n\n    /// CHECK: Only the event authority can invoke self-CPI\n    #[account(seeds = [b\"__event_authority\"], bump)]\n    pub event_authority: anchor_lang::accounts::UncheckedAccount,\n    /// CHECK: Kept for v1-compatible account ordering and IDL shape\n    pub program: anchor_lang::accounts::UncheckedAccount,\n}"@,
{
    let template = EVENT_CPI_STRUCT@;
    let words = event_cpi_struct_words();
    lemma_event_cpi_struct_text_marks();
    let told = filled(template, parts);
    assert(template.skip(0) =~= template);
    let done0 = Seq::<char>::empty();
    assert(told =~= done0 + filled(template.skip(0), parts));
    assert(template.subrange(0, 0) =~= Seq::<char>::empty());
    lemma_filled_from(template, 0, Seq::<char>::empty(), 'a', parts, done0, told);
    let done1 = parts[0];
    assert(done0 + Seq::<char>::empty() + parts[0] =~= done1);
    lemma_filled_from(template, 2, words[0], 'b', parts, done1, told);
    let done2 = done1 + words[0] + parts[1];
    lemma_filled_from(template, 5, words[1], 'c', parts, done2, told);
    let done3 = done2 + words[1] + parts[2];
    lemma_filled_from(template, 8, words[1], 'd', parts, done3, told);
    let done4 = done3 + words[1] + parts[3];
    lemma_filled_from(template, 11, words[2], 'e', parts, done4, told);
    let done5 = done4 + words[2] + parts[4];
    lemma_filled_last(template, 20, words[3], parts, done5, told);
}

spec fn emit_words() -> Seq<Seq<char>> {
    seq!["{\n    anchor_lang::sol_log_data(&[&anchor_lang::Event::data(&"@, ")]);\n}"@]
}

proof fn lemma_emit_text_marks()
    ensures
        EMIT@.len() == 69,
        stands_at(EMIT@, emit_words()[0], 0, 61),
        EMIT@[61] == '@' && EMIT@[62] == 'a',
        stands_at(EMIT@, emit_words()[1], 63, 6),
{
    let template = EMIT@;
    let words = emit_words();
    reveal_strlit("{\n    anchor_lang::sol_log_data(&[&anchor_lang::Event::data(&@a)]);\n}");
    assert(stands_at(template, words[0], 0, 61)) by {
        reveal_strlit("{\n    anchor_lang::sol_log_data(&[&anchor_lang::Event::data(&");
        assert(template.subrange(0, 61) =~= words[0]);
    }
    assert(stands_at(template, words[1], 63, 6)) by {
        reveal_strlit(")]);\n}");
        assert(template.subrange(63, 69) =~= words[1]);
    }
}

/// The text of the template, with its holes filled.
pub proof fn lemma_emit_text(parts: Seq<Seq<char>>)
    requires
        parts.len() == 1,
    ensures
        filled(EMIT@, parts) == "{\n    anchor_lang::sol_log_data(&[&anchor_lang::Event::data(&"@ + parts[0] + ")]);\n}"@,
{
    let template = EMIT@;
    let words = emit_words();
    lemma_emit_text_marks();
    let told = filled(template, parts);
    assert(template.skip(0) =~= template);
    let done0 = Seq::<char>::empty();
    assert(told =~= done0 + filled(template.skip(0), parts));
    lemma_filled_from(template, 0, words[0], 'a', parts, done0, told);
    let done1 = words[0] + parts[0];
    assert(done0 + words[0] + parts[0] =~= done1);
    lemma_filled_last(template, 63, words[1], parts, done1, told);
}

spec fn emit_cpi_words() -> Seq<Seq<char>> {
    seq!["{\n    struct __AnchorEventCpiAccounts<'a> {\n        event_authority: anchor_lang::CpiHandle<'a>,\n    }\n\n    impl<'a> anchor_lang::ToCpiAccounts<'a> for __AnchorEventCpiAccounts<'a> {\n        fn to_instruction_accounts(\n            &self,\n        ) -> anchor_lang::__alloc::vec::Vec<\n            anchor_lang::pinocchio::instruction::InstructionAccount<'a>\n        > {\n            let mut __accounts = anchor_lang::__alloc::vec::Vec::with_capacity(1);\n            __accounts.push(\n                anchor_lang::pinocchio::instruction::InstructionAccount::readonly_signer(\n                    self.event_authority.address(),\n                ),\n            );\n            __accounts\n        }\n\n        fn to_cpi_handles(\n            &self,\n        ) -> anchor_lang::__alloc::vec::Vec<anchor_lang::CpiHandle<'a>> {\n            let mut __handles = anchor_lang::__alloc::vec::Vec::with_capacity(1);\n            __handles.push(self.event_authority);\n            __handles\n        }\n\n        fn optional_account_sentinel_flags(\n            &self,\n        ) -> anchor_lang::__alloc::vec::Vec<bool> {\n            let mut __flags = anchor_lang::__alloc::vec::Vec::with_capacity(1);\n            __flags.push(false);\n            __flags\n        }\n    }\n\n    let __event_authority =\n        anchor_lang::AnchorAccount::cpi_handle(&ctx.accounts.event_authority);\n    let __event_data = anchor_lang::Event::data(&"@, ");\n    let mut __ix_data = anchor_lang::__alloc::vec::Vec::with_capacity(\n        anchor_lang::event::EVENT_IX_TAG_LE.len() + __event_data.len(),\n    );\n    __ix_data.extend_from_slice(anchor_lang::event::EVENT_IX_TAG_LE);\n    __ix_data.extend_from_slice(&__event_data);\n\n    let __event_authority_bump = [ctx.bumps.event_authority];\n    let __event_authority_seeds: &[&[u8]] =\n        &[b\"__event_authority\", __event_authority_bump.as_ref()];\n    let __event_authority_signers: &[&[&[u8]]] = &[__event_authority_seeds];\n    anchor_lang::CpiContext::new_with_signer(\n        ctx.program_id,\n        __AnchorEventCpiAccounts { event_authority: __event_authority },\n        __event_authority_signers,\n    ).invoke(&__ix_data)?;\n}"@]
}

proof fn lemma_emit_cpi_text_marks()
    ensures
        EMIT_CPI@.len() == 2124,
        stands_at(EMIT_CPI@, emit_cpi_words()[0], 0, 1395),
        EMIT_CPI@[1395] == '@' && EMIT_CPI@[1396] == 'a',
        stands_at(EMIT_CPI@, emit_cpi_words()[1], 1397, 727),
{
    let template = EMIT_CPI@;
    let words = emit_cpi_words();
    reveal_strlit("{\n    struct __AnchorEventCpiAccounts<'a> {\n        event_authority: anchor_lang::CpiHandle<'a>,\n    }\n\n    impl<'a> anchor_lang::ToCpiAccounts<'a> for __AnchorEventCpiAccounts<'a> {\n        fn to_instruction_accounts(\n            &self,\n        ) -> anchor_lang::__alloc::vec::Vec<\n            anchor_lang::pinocchio::instruction::InstructionAccount<'a>\n        > {\n            let mut __accounts = anchor_lang::__alloc::vec::Vec::with_capacity(1);\n            __accounts.push(\n                anchor_lang::pinocchio::instruction::InstructionAccount::readonly_signer(\n                    self.event_authority.address(),\n                ),\n            );\n            __accounts\n        }\n\n        fn to_cpi_handles(\n            &self,\n        ) -> anchor_lang::__alloc::vec::Vec<anchor_lang::CpiHandle<'a>> {\n            let mut __handles = anchor_lang::__alloc::vec::Vec::with_capacity(1);\n            __handles.push(self.event_authority);\n            __handles\n        }\n\n        fn optional_account_sentinel_flags(\n            &self,\n        ) -> anchor_lang::__alloc::vec::Vec<bool> {\n            let mut __flags = anchor_lang::__alloc::vec::Vec::with_capacity(1);\n            __flags.push(false);\n            __flags\n        }\n    }\n\n    let __event_authority =\n        anchor_lang::AnchorAccount::cpi_handle(&ctx.accounts.event_authority);\n    let __event_data = anchor_lang::Event::data(&@a);\n    let mut __ix_data = anchor_lang::__alloc::vec::Vec::with_capacity(\n        anchor_lang::event::EVENT_IX_TAG_LE.len() + __event_data.len(),\n    );\n    __ix_data.extend_from_slice(anchor_lang::event::EVENT_IX_TAG_LE);\n    __ix_data.extend_from_slice(&__event_data);\n\n    let __event_authority_bump = [ctx.bumps.event_authority];\n    let __event_authority_seeds: &[&[u8]] =\n        &[b\"__event_authority\", __event_authority_bump.as_ref()];\n    let __event_authority_signers: &[&[&[u8]]] = &[__event_authority_seeds];\n    anchor_lang::CpiContext::new_with_signer(\n        ctx.program_id,\n        __AnchorEventCpiAccounts { event_authority: __event_authority },\n        __event_authority_signers,\n    ).invoke(&__ix_data)?;\n}");
    assert(stands_at(template, words[0], 0, 1395)) by {
        reveal_strlit("{\n    struct __AnchorEventCpiAccounts<'a> {\n        event_authority: anchor_lang::CpiHandle<'a>,\n    }\n\n    impl<'a> anchor_lang::ToCpiAccounts<'a> for __AnchorEventCpiAccounts<'a> {\n        fn to_instruction_accounts(\n            &self,\n        ) -> anchor_lang::__alloc::vec::Vec<\n            anchor_lang::pinocchio::instruction::InstructionAccount<'a>\n        > {\n            let mut __accounts = anchor_lang::__alloc::vec::Vec::with_capacity(1);\n            __accounts.push(\n                anchor_lang::pinocchio::instruction::InstructionAccount::readonly_signer(\n                    self.event_authority.address(),\n                ),\n            );\n            __accounts\n        }\n\n        fn to_cpi_handles(\n            &self,\n        ) -> anchor_lang::__alloc::vec::Vec<anchor_lang::CpiHandle<'a>> {\n            let mut __handles = anchor_lang::__alloc::vec::Vec::with_capacity(1);\n            __handles.push(self.event_authority);\n            __handles\n        }\n\n        fn optional_account_sentinel_flags(\n            &self,\n        ) -> anchor_lang::__alloc::vec::Vec<bool> {\n            let mut __flags = anchor_lang::__alloc::vec::Vec::with_capacity(1);\n            __flags.push(false);\n            __flags\n        }\n    }\n\n    let __event_authority =\n        anchor_lang::AnchorAccount::cpi_handle(&ctx.accounts.event_authority);\n    let __event_data = anchor_lang::Event::data(&");
        assert(template.subrange(0, 1395) =~= words[0]);
    }
    assert(stands_at(template, words[1], 1397, 727)) by {
        reveal_strlit(");\n    let mut __ix_data = anchor_lang::__alloc::vec::Vec::with_capacity(\n        anchor_lang::event::EVENT_IX_TAG_LE.len() + __event_data.len(),\n    );\n    __ix_data.extend_from_slice(anchor_lang::event::EVENT_IX_TAG_LE);\n    __ix_data.extend_from_slice(&__event_data);\n\n    let __event_authority_bump = [ctx.bumps.event_authority];\n    let __event_authority_seeds: &[&[u8]] =\n        &[b\"__event_authority\", __event_authority_bump.as_ref()];\n    let __event_authority_signers: &[&[&[u8]]] = &[__event_authority_seeds];\n    anchor_lang::CpiContext::new_with_signer(\n        ctx.program_id,\n        __AnchorEventCpiAccounts { event_authority: __event_authority },\n        __event_authority_signers,\n    ).invoke(&__ix_data)?;\n}");
        assert(template.subrange(1397, 2124) =~= words[1]);
    }
}

/// The text of the template, with its holes filled.
pub proof fn lemma_emit_cpi_text(parts: Seq<Seq<char>>)
    requires
        parts.len() == 1,
    ensures
        filled(EMIT_CPI@, parts) == "{\n    struct __AnchorEventCpiAccounts<'a> {\n        event_authority: anchor_lang::CpiHandle<'a>,\n    }\n\n    impl<'a> anchor_lang::ToCpiAccounts<'a> for __AnchorEventCpiAccounts<'a> {\n        fn to_instruction_accounts(\n            &self,\n        ) -> anchor_lang::__alloc::vec::Vec<\n            anchor_lang::pinocchio::instruction::InstructionAccount<'a>\n        > {\n            let mut __accounts = anchor_lang::__alloc::vec::Vec::with_capacity(1);\n            __accounts.push(\n                anchor_lang::pinocchio::instruction::InstructionAccount::readonly_signer(\n                    self.event_authority.address(),\n                ),\n            );\n            __accounts\n        }\n\n        fn to_cpi_handles(\n            &self,\n        ) -> anchor_lang::__alloc::vec::Vec<anchor_lang::CpiHandle<'a>> {\n            let mut __handles = anchor_lang::__alloc::vec::Vec::with_capacity(1);\n            __handles.push(self.event_authority);\n            __handles\n        }\n\n        fn optional_account_sentinel_flags(\n            &self,\n        ) -> anchor_lang::__alloc::vec::Vec<bool> {\n            let mut __flags = anchor_lang::__alloc::vec::Vec::with_capacity(1);\n            __flags.push(false);\n            __flags\n        }\n    }\n\n    let __event_authority =\n        anchor_lang::AnchorAccount::cpi_handle(&ctx.accounts.event_authority);\n    let __event_data = anchor_lang::Event::data(&"@ + parts[0] + ");\n    let mut __ix_data = anchor_lang::__alloc::vec::Vec::with_capacity(\n        anchor_lang::event::EVENT_IX_TAG_LE.len() + __event_data.len(),\n    );\n    __ix_data.extend_from_slice(anchor_lang::event::EVENT_IX_TAG_LE);\n    __ix_data.extend_from_slice(&__event_data);\n\n    let __event_authority_bump = [ctx.bumps.event_authority];\n    let __event_authority_seeds: &[&[u8]] =\n        &[b\"__event_authority\", __event_authority_bump.as_ref()];\n    let __event_authority_signers: &[&[&[u8]]] = &[__event_authority_seeds];\n    anchor_lang::CpiContext::new_with_signer(\n        ctx.program_id,\n        __AnchorEventCpiAccounts { event_authority: __event_authority },\n        __event_authority_signers,\n    ).invoke(&__ix_data)?;\n}"@,
{
    let template = EMIT_CPI@;
    let words = emit_cpi_words();
    lemma_emit_cpi_text_marks();
    let told = filled(template, parts);
    assert(template.skip(0) =~= template);
    let done0 = Seq::<char>::empty();
    assert(told =~= done0 + filled(template.skip(0), parts));
    lemma_filled_from(template, 0, words[0], 'a', parts, done0, told);
    let done1 = words[0] + parts[0];
    assert(done0 + words[0] + parts[0] =~= done1);
    lemma_filled_last(template, 1397, words[1], parts, done1, told);
}

spec fn wincode_schema_words() -> Seq<Seq<char>> {
    seq!["#[derive("@, ")]\n#[wincode(crate = \"anchor_lang::wincode\")]\n#[anchor_lang::__erase]\n"@]
}

proof fn lemma_wincode_schema_text_marks()
    ensures
        WINCODE_SCHEMA@.len() == 83,
        stands_at(WINCODE_SCHEMA@, wincode_schema_words()[0], 0, 9),
        WINCODE_SCHEMA@[9] == '@' && WINCODE_SCHEMA@[10] == 'a',
        stands_at(WINCODE_SCHEMA@, wincode_schema_words()[1], 11, 70),
        WINCODE_SCHEMA@[81] == '@' && WINCODE_SCHEMA@[82] == 'b',
{
    let template = WINCODE_SCHEMA@;
    let words = wincode_schema_words();
    reveal_strlit("#[derive(@a)]\n#[wincode(crate = \"anchor_lang::wincode\")]\n#[anchor_lang::__erase]\n@b");
    assert(stands_at(template, words[0], 0, 9)) by {
        reveal_strlit("#[derive(");
        assert(template.subrange(0, 9) =~= words[0]);
    }
    assert(stands_at(template, words[1], 11, 70)) by {
        reveal_strlit(")]\n#[wincode(crate = \"anchor_lang::wincode\")]\n#[anchor_lang::__erase]\n");
        assert(template.subrange(11, 81) =~= words[1]);
    }
}

/// The text of the template, with its holes filled.
pub proof fn lemma_wincode_schema_text(parts: Seq<Seq<char>>)
    requires
        parts.len() == 2,
    ensures
        filled(WINCODE_SCHEMA@, parts) == "#[derive("@ + parts[0] + ")]\n#[wincode(crate = \"anchor_lang::wincode\")]\n#[anchor_lang::__erase]\n"@ + parts[1],
{
    let template = WINCODE_SCHEMA@;
    let words = wincode_schema_words();
    lemma_wincode_schema_text_marks();
    let told = filled(template, parts);
    assert(template.skip(0) =~= template);
    let done0 = Seq::<char>::empty();
    assert(told =~= done0 + filled(template.skip(0), parts));
    lemma_filled_from(template, 0, words[0], 'a', parts, done0, told);
    let done1 = words[0] + parts[0];
    assert(done0 + words[0] + parts[0] =~= done1);
    lemma_filled_from(template, 11, words[1], 'b', parts, done1, told);
    let done2 = done1 + words[1] + parts[1];
    assert(template.skip(83) =~= Seq::<char>::empty());
    assert(told =~= done2);
}

} // verus!
