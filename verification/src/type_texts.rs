//! The texts of the code for declared types: each template, with its holes filled.

use crate::passages::{lemma_filled_from, lemma_filled_last, stands_at};
use crate::template::filled;
use crate::type_defs::{
    ALIAS, BORSH_DESERIALIZE, DISCRIMINATOR_IMPLS, ENUM, IDL_IMPL, POD_DESERIALIZE, POD_IMPLS,
    POD_STRUCT, STRUCT,
};
use vstd::prelude::*;

verus! {

spec fn discriminator_impls_words() -> Seq<Seq<char>> {
    seq!["impl "@, " anchor_lang::Owner for "@, " "@, " {\n    const OWNER: anchor_lang::Address = ID;\n}\n\nimpl "@, " anchor_lang::Discriminator for "@, " {\n    const DISCRIMINATOR: &'static [u8] = &["@, "];\n}"@]
}

proof fn lemma_discriminator_impls_text_marks()
    ensures
        DISCRIMINATOR_IMPLS@.len() == 182,
        stands_at(DISCRIMINATOR_IMPLS@, discriminator_impls_words()[0], 0, 5),
        DISCRIMINATOR_IMPLS@[5] == '@' && DISCRIMINATOR_IMPLS@[6] == 'a',
        stands_at(DISCRIMINATOR_IMPLS@, discriminator_impls_words()[1], 7, 24),
        DISCRIMINATOR_IMPLS@[31] == '@' && DISCRIMINATOR_IMPLS@[32] == 'b',
        stands_at(DISCRIMINATOR_IMPLS@, discriminator_impls_words()[2], 33, 1),
        DISCRIMINATOR_IMPLS@[34] == '@' && DISCRIMINATOR_IMPLS@[35] == 'c',
        stands_at(DISCRIMINATOR_IMPLS@, discriminator_impls_words()[3], 36, 55),
        DISCRIMINATOR_IMPLS@[91] == '@' && DISCRIMINATOR_IMPLS@[92] == 'a',
        stands_at(DISCRIMINATOR_IMPLS@, discriminator_impls_words()[4], 93, 32),
        DISCRIMINATOR_IMPLS@[125] == '@' && DISCRIMINATOR_IMPLS@[126] == 'b',
        stands_at(DISCRIMINATOR_IMPLS@, discriminator_impls_words()[2], 127, 1),
        DISCRIMINATOR_IMPLS@[128] == '@' && DISCRIMINATOR_IMPLS@[129] == 'c',
        stands_at(DISCRIMINATOR_IMPLS@, discriminator_impls_words()[5], 130, 46),
        DISCRIMINATOR_IMPLS@[176] == '@' && DISCRIMINATOR_IMPLS@[177] == 'd',
        stands_at(DISCRIMINATOR_IMPLS@, discriminator_impls_words()[6], 178, 4),
{
    let template = DISCRIMINATOR_IMPLS@;
    let words = discriminator_impls_words();
    reveal_strlit("impl @a anchor_lang::Owner for @b @c {\n    const OWNER: anchor_lang::Address = ID;\n}\n\nimpl @a anchor_lang::Discriminator for @b @c {\n    const DISCRIMINATOR: &'static [u8] = &[@d];\n}");
    assert(stands_at(template, words[0], 0, 5)) by {
        reveal_strlit("impl ");
        assert(template.subrange(0, 5) =~= words[0]);
    }
    assert(stands_at(template, words[1], 7, 24)) by {
        reveal_strlit(" anchor_lang::Owner for ");
        assert(template.subrange(7, 31) =~= words[1]);
    }
    assert(stands_at(template, words[2], 33, 1)) by {
        reveal_strlit(" ");
        assert(template.subrange(33, 34) =~= words[2]);
    }
    assert(stands_at(template, words[3], 36, 55)) by {
        reveal_strlit(" {\n    const OWNER: anchor_lang::Address = ID;\n}\n\nimpl ");
        assert(template.subrange(36, 91) =~= words[3]);
    }
    assert(stands_at(template, words[4], 93, 32)) by {
        reveal_strlit(" anchor_lang::Discriminator for ");
        assert(template.subrange(93, 125) =~= words[4]);
    }
    assert(stands_at(template, words[2], 127, 1)) by {
        reveal_strlit(" ");
        assert(template.subrange(127, 128) =~= words[2]);
    }
    assert(stands_at(template, words[5], 130, 46)) by {
        reveal_strlit(" {\n    const DISCRIMINATOR: &'static [u8] = &[");
        assert(template.subrange(130, 176) =~= words[5]);
    }
    assert(stands_at(template, words[6], 178, 4)) by {
        reveal_strlit("];\n}");
        assert(template.subrange(178, 182) =~= words[6]);
    }
}

/// The text of the template, with its holes filled.
pub proof fn lemma_discriminator_impls_text(parts: Seq<Seq<char>>)
    requires
        parts.len() == 4,
    ensures
        filled(DISCRIMINATOR_IMPLS@, parts) == "impl "@ + parts[0] + " anchor_lang::Owner for "@ + parts[1] + " "@ + parts[2] + " {\n    const OWNER: anchor_lang::Address = ID;\n}\n\nimpl "@ + parts[0] + " anchor_lang::Discriminator for "@ + parts[1] + " "@ + parts[2] + " {\n    const DISCRIMINATOR: &'static [u8] = &["@ + parts[3] + "];\n}"@,
{
    let template = DISCRIMINATOR_IMPLS@;
    let words = discriminator_impls_words();
    lemma_discriminator_impls_text_marks();
    let told = filled(template, parts);
    assert(template.skip(0) =~= template);
    let done0 = Seq::<char>::empty();
    assert(told =~= done0 + filled(template.skip(0), parts));
    lemma_filled_from(template, 0, words[0], 'a', parts, done0, told);
    let done1 = words[0] + parts[0];
    assert(done0 + words[0] + parts[0] =~= done1);
    lemma_filled_from(template, 7, words[1], 'b', parts, done1, told);
    let done2 = done1 + words[1] + parts[1];
    lemma_filled_from(template, 33, words[2], 'c', parts, done2, told);
    let done3 = done2 + words[2] + parts[2];
    lemma_filled_from(template, 36, words[3], 'a', parts, done3, told);
    let done4 = done3 + words[3] + parts[0];
    lemma_filled_from(template, 93, words[4], 'b', parts, done4, told);
    let done5 = done4 + words[4] + parts[1];
    lemma_filled_from(template, 127, words[2], 'c', parts, done5, told);
    let done6 = done5 + words[2] + parts[2];
    lemma_filled_from(template, 130, words[5], 'd', parts, done6, told);
    let done7 = done6 + words[5] + parts[3];
    lemma_filled_last(template, 178, words[6], parts, done7, told);
}

spec fn pod_struct_words() -> Seq<Seq<char>> {
    seq!["\n#[derive(Clone, Copy)]\n"@, "\npub struct "@, " "@, "\n"@]
}

proof fn lemma_pod_struct_text_marks()
    ensures
        POD_STRUCT@.len() == 59,
        POD_STRUCT@[0] == '@' && POD_STRUCT@[1] == 'a',
        stands_at(POD_STRUCT@, pod_struct_words()[0], 2, 24),
        POD_STRUCT@[26] == '@' && POD_STRUCT@[27] == 'b',
        stands_at(POD_STRUCT@, pod_struct_words()[1], 28, 12),
        POD_STRUCT@[40] == '@' && POD_STRUCT@[41] == 'c',
        stands_at(POD_STRUCT@, pod_struct_words()[2], 42, 1),
        POD_STRUCT@[43] == '@' && POD_STRUCT@[44] == 'd',
        POD_STRUCT@[45] == '@' && POD_STRUCT@[46] == 'e',
        stands_at(POD_STRUCT@, pod_struct_words()[3], 47, 1),
        POD_STRUCT@[48] == '@' && POD_STRUCT@[49] == 'f',
        stands_at(POD_STRUCT@, pod_struct_words()[3], 50, 1),
        POD_STRUCT@[51] == '@' && POD_STRUCT@[52] == 'g',
        stands_at(POD_STRUCT@, pod_struct_words()[3], 53, 1),
        POD_STRUCT@[54] == '@' && POD_STRUCT@[55] == 'h',
        stands_at(POD_STRUCT@, pod_struct_words()[3], 56, 1),
        POD_STRUCT@[57] == '@' && POD_STRUCT@[58] == 'i',
{
    let template = POD_STRUCT@;
    let words = pod_struct_words();
    reveal_strlit("@a\n#[derive(Clone, Copy)]\n@b\npub struct @c @d@e\n@f\n@g\n@h\n@i");
    assert(stands_at(template, words[0], 2, 24)) by {
        reveal_strlit("\n#[derive(Clone, Copy)]\n");
        assert(template.subrange(2, 26) =~= words[0]);
    }
    assert(stands_at(template, words[1], 28, 12)) by {
        reveal_strlit("\npub struct ");
        assert(template.subrange(28, 40) =~= words[1]);
    }
    assert(stands_at(template, words[2], 42, 1)) by {
        reveal_strlit(" ");
        assert(template.subrange(42, 43) =~= words[2]);
    }
    assert(stands_at(template, words[3], 47, 1)) by {
        reveal_strlit("\n");
        assert(template.subrange(47, 48) =~= words[3]);
    }
    assert(stands_at(template, words[3], 50, 1)) by {
        reveal_strlit("\n");
        assert(template.subrange(50, 51) =~= words[3]);
    }
    assert(stands_at(template, words[3], 53, 1)) by {
        reveal_strlit("\n");
        assert(template.subrange(53, 54) =~= words[3]);
    }
    assert(stands_at(template, words[3], 56, 1)) by {
        reveal_strlit("\n");
        assert(template.subrange(56, 57) =~= words[3]);
    }
}

/// The text of the template, with its holes filled.
pub proof fn lemma_pod_struct_text(parts: Seq<Seq<char>>)
    requires
        parts.len() == 9,
    ensures
        filled(POD_STRUCT@, parts) == parts[0] + "\n#[derive(Clone, Copy)]\n"@ + parts[1] + "\npub struct "@ + parts[2] + " "@ + parts[3] + parts[4] + "\n"@ + parts[5] + "\n"@ + parts[6] + "\n"@ + parts[7] + "\n"@ + parts[8],
{
    let template = POD_STRUCT@;
    let words = pod_struct_words();
    lemma_pod_struct_text_marks();
    let told = filled(template, parts);
    assert(template.skip(0) =~= template);
    let done0 = Seq::<char>::empty();
    assert(told =~= done0 + filled(template.skip(0), parts));
    assert(template.subrange(0, 0) =~= Seq::<char>::empty());
    lemma_filled_from(template, 0, Seq::<char>::empty(), 'a', parts, done0, told);
    let done1 = parts[0];
    assert(done0 + Seq::<char>::empty() + parts[0] =~= done1);
    lemma_filled_from(template, 2, words[0], 'b', parts, done1, told);
    let done2 = done1 + words[0] + parts[1];
    lemma_filled_from(template, 28, words[1], 'c', parts, done2, told);
    let done3 = done2 + words[1] + parts[2];
    lemma_filled_from(template, 42, words[2], 'd', parts, done3, told);
    let done4 = done3 + words[2] + parts[3];
    assert(template.subrange(45, 45) =~= Seq::<char>::empty());
    lemma_filled_from(template, 45, Seq::<char>::empty(), 'e', parts, done4, told);
    let done5 = done4 + parts[4];
    assert(done4 + Seq::<char>::empty() + parts[4] =~= done5);
    lemma_filled_from(template, 47, words[3], 'f', parts, done5, told);
    let done6 = done5 + words[3] + parts[5];
    lemma_filled_from(template, 50, words[3], 'g', parts, done6, told);
    let done7 = done6 + words[3] + parts[6];
    lemma_filled_from(template, 53, words[3], 'h', parts, done7, told);
    let done8 = done7 + words[3] + parts[7];
    lemma_filled_from(template, 56, words[3], 'i', parts, done8, told);
    let done9 = done8 + words[3] + parts[8];
    assert(template.skip(59) =~= Seq::<char>::empty());
    assert(told =~= done9);
}

spec fn struct_words() -> Seq<Seq<char>> {
    seq!["\n"@, "\n#[derive(Clone, anchor_lang::AnchorDeserialize, anchor_lang::AnchorSerialize)]\npub struct "@, " "@]
}

proof fn lemma_struct_text_marks()
    ensures
        STRUCT@.len() == 112,
        STRUCT@[0] == '@' && STRUCT@[1] == 'a',
        stands_at(STRUCT@, struct_words()[0], 2, 1),
        STRUCT@[3] == '@' && STRUCT@[4] == 'b',
        stands_at(STRUCT@, struct_words()[1], 5, 91),
        STRUCT@[96] == '@' && STRUCT@[97] == 'c',
        stands_at(STRUCT@, struct_words()[2], 98, 1),
        STRUCT@[99] == '@' && STRUCT@[100] == 'd',
        STRUCT@[101] == '@' && STRUCT@[102] == 'e',
        stands_at(STRUCT@, struct_words()[0], 103, 1),
        STRUCT@[104] == '@' && STRUCT@[105] == 'f',
        stands_at(STRUCT@, struct_words()[0], 106, 1),
        STRUCT@[107] == '@' && STRUCT@[108] == 'g',
        stands_at(STRUCT@, struct_words()[0], 109, 1),
        STRUCT@[110] == '@' && STRUCT@[111] == 'h',
{
    let template = STRUCT@;
    let words = struct_words();
    reveal_strlit("@a\n@b\n#[derive(Clone, anchor_lang::AnchorDeserialize, anchor_lang::AnchorSerialize)]\npub struct @c @d@e\n@f\n@g\n@h");
    assert(stands_at(template, words[0], 2, 1)) by {
        reveal_strlit("\n");
        assert(template.subrange(2, 3) =~= words[0]);
    }
    assert(stands_at(template, words[1], 5, 91)) by {
        reveal_strlit("\n#[derive(Clone, anchor_lang::AnchorDeserialize, anchor_lang::AnchorSerialize)]\npub struct ");
        assert(template.subrange(5, 96) =~= words[1]);
    }
    assert(stands_at(template, words[2], 98, 1)) by {
        reveal_strlit(" ");
        assert(template.subrange(98, 99) =~= words[2]);
    }
    assert(stands_at(template, words[0], 103, 1)) by {
        reveal_strlit("\n");
        assert(template.subrange(103, 104) =~= words[0]);
    }
    assert(stands_at(template, words[0], 106, 1)) by {
        reveal_strlit("\n");
        assert(template.subrange(106, 107) =~= words[0]);
    }
    assert(stands_at(template, words[0], 109, 1)) by {
        reveal_strlit("\n");
        assert(template.subrange(109, 110) =~= words[0]);
    }
}

/// The text of the template, with its holes filled.
pub proof fn lemma_struct_text(parts: Seq<Seq<char>>)
    requires
        parts.len() == 8,
    ensures
        filled(STRUCT@, parts) == parts[0] + "\n"@ + parts[1] + "\n#[derive(Clone, anchor_lang::AnchorDeserialize, anchor_lang::AnchorSerialize)]\npub struct "@ + parts[2] + " "@ + parts[3] + parts[4] + "\n"@ + parts[5] + "\n"@ + parts[6] + "\n"@ + parts[7],
{
    let template = STRUCT@;
    let words = struct_words();
    lemma_struct_text_marks();
    let told = filled(template, parts);
    assert(template.skip(0) =~= template);
    let done0 = Seq::<char>::empty();
    assert(told =~= done0 + filled(template.skip(0), parts));
    assert(template.subrange(0, 0) =~= Seq::<char>::empty());
    lemma_filled_from(template, 0, Seq::<char>::empty(), 'a', parts, done0, told);
    let done1 = parts[0];
    assert(done0 + Seq::<char>::empty() + parts[0] =~= done1);
    lemma_filled_from(template, 2, words[0], 'b', parts, done1, told);
    let done2 = done1 + words[0] + parts[1];
    lemma_filled_from(template, 5, words[1], 'c', parts, done2, told);
    let done3 = done2 + words[1] + parts[2];
    lemma_filled_from(template, 98, words[2], 'd', parts, done3, told);
    let done4 = done3 + words[2] + parts[3];
    assert(template.subrange(101, 101) =~= Seq::<char>::empty());
    lemma_filled_from(template, 101, Seq::<char>::empty(), 'e', parts, done4, told);
    let done5 = done4 + parts[4];
    assert(done4 + Seq::<char>::empty() + parts[4] =~= done5);
    lemma_filled_from(template, 103, words[0], 'f', parts, done5, told);
    let done6 = done5 + words[0] + parts[5];
    lemma_filled_from(template, 106, words[0], 'g', parts, done6, told);
    let done7 = done6 + words[0] + parts[6];
    lemma_filled_from(template, 109, words[0], 'h', parts, done7, told);
    let done8 = done7 + words[0] + parts[7];
    assert(template.skip(112) =~= Seq::<char>::empty());
    assert(told =~= done8);
}

spec fn enum_words() -> Seq<Seq<char>> {
    seq!["\n"@, "\n#[derive(Clone, anchor_lang::AnchorDeserialize, anchor_lang::AnchorSerialize)]\npub enum "@, " "@, " {\n    "@, "\n}\n"@]
}

proof fn lemma_enum_text_marks()
    ensures
        ENUM@.len() == 116,
        ENUM@[0] == '@' && ENUM@[1] == 'a',
        stands_at(ENUM@, enum_words()[0], 2, 1),
        ENUM@[3] == '@' && ENUM@[4] == 'b',
        stands_at(ENUM@, enum_words()[1], 5, 89),
        ENUM@[94] == '@' && ENUM@[95] == 'c',
        stands_at(ENUM@, enum_words()[2], 96, 1),
        ENUM@[97] == '@' && ENUM@[98] == 'd',
        stands_at(ENUM@, enum_words()[3], 99, 7),
        ENUM@[106] == '@' && ENUM@[107] == 'e',
        stands_at(ENUM@, enum_words()[4], 108, 3),
        ENUM@[111] == '@' && ENUM@[112] == 'f',
        stands_at(ENUM@, enum_words()[0], 113, 1),
        ENUM@[114] == '@' && ENUM@[115] == 'g',
{
    let template = ENUM@;
    let words = enum_words();
    reveal_strlit("@a\n@b\n#[derive(Clone, anchor_lang::AnchorDeserialize, anchor_lang::AnchorSerialize)]\npub enum @c @d {\n    @e\n}\n@f\n@g");
    assert(stands_at(template, words[0], 2, 1)) by {
        reveal_strlit("\n");
        assert(template.subrange(2, 3) =~= words[0]);
    }
    assert(stands_at(template, words[1], 5, 89)) by {
        reveal_strlit("\n#[derive(Clone, anchor_lang::AnchorDeserialize, anchor_lang::AnchorSerialize)]\npub enum ");
        assert(template.subrange(5, 94) =~= words[1]);
    }
    assert(stands_at(template, words[2], 96, 1)) by {
        reveal_strlit(" ");
        assert(template.subrange(96, 97) =~= words[2]);
    }
    assert(stands_at(template, words[3], 99, 7)) by {
        reveal_strlit(" {\n    ");
        assert(template.subrange(99, 106) =~= words[3]);
    }
    assert(stands_at(template, words[4], 108, 3)) by {
        reveal_strlit("\n}\n");
        assert(template.subrange(108, 111) =~= words[4]);
    }
    assert(stands_at(template, words[0], 113, 1)) by {
        reveal_strlit("\n");
        assert(template.subrange(113, 114) =~= words[0]);
    }
}

/// The text of the template, with its holes filled.
pub proof fn lemma_enum_text(parts: Seq<Seq<char>>)
    requires
        parts.len() == 7,
    ensures
        filled(ENUM@, parts) == parts[0] + "\n"@ + parts[1] + "\n#[derive(Clone, anchor_lang::AnchorDeserialize, anchor_lang::AnchorSerialize)]\npub enum "@ + parts[2] + " "@ + parts[3] + " {\n    "@ + parts[4] + "\n}\n"@ + parts[5] + "\n"@ + parts[6],
{
    let template = ENUM@;
    let words = enum_words();
    lemma_enum_text_marks();
    let told = filled(template, parts);
    assert(template.skip(0) =~= template);
    let done0 = Seq::<char>::empty();
    assert(told =~= done0 + filled(template.skip(0), parts));
    assert(template.subrange(0, 0) =~= Seq::<char>::empty());
    lemma_filled_from(template, 0, Seq::<char>::empty(), 'a', parts, done0, told);
    let done1 = parts[0];
    assert(done0 + Seq::<char>::empty() + parts[0] =~= done1);
    lemma_filled_from(template, 2, words[0], 'b', parts, done1, told);
    let done2 = done1 + words[0] + parts[1];
    lemma_filled_from(template, 5, words[1], 'c', parts, done2, told);
    let done3 = done2 + words[1] + parts[2];
    lemma_filled_from(template, 96, words[2], 'd', parts, done3, told);
    let done4 = done3 + words[2] + parts[3];
    lemma_filled_from(template, 99, words[3], 'e', parts, done4, told);
    let done5 = done4 + words[3] + parts[4];
    lemma_filled_from(template, 108, words[4], 'f', parts, done5, told);
    let done6 = done5 + words[4] + parts[5];
    lemma_filled_from(template, 113, words[0], 'g', parts, done6, told);
    let done7 = done6 + words[0] + parts[6];
    assert(template.skip(116) =~= Seq::<char>::empty());
    assert(told =~= done7);
}

spec fn alias_words() -> Seq<Seq<char>> {
    seq!["\npub type "@, " "@, " = "@, ";"@]
}

proof fn lemma_alias_text_marks()
    ensures
        ALIAS@.len() == 23,
        ALIAS@[0] == '@' && ALIAS@[1] == 'a',
        stands_at(ALIAS@, alias_words()[0], 2, 10),
        ALIAS@[12] == '@' && ALIAS@[13] == 'b',
        stands_at(ALIAS@, alias_words()[1], 14, 1),
        ALIAS@[15] == '@' && ALIAS@[16] == 'c',
        stands_at(ALIAS@, alias_words()[2], 17, 3),
        ALIAS@[20] == '@' && ALIAS@[21] == 'd',
        stands_at(ALIAS@, alias_words()[3], 22, 1),
{
    let template = ALIAS@;
    let words = alias_words();
    reveal_strlit("@a\npub type @b @c = @d;");
    assert(stands_at(template, words[0], 2, 10)) by {
        reveal_strlit("\npub type ");
        assert(template.subrange(2, 12) =~= words[0]);
    }
    assert(stands_at(template, words[1], 14, 1)) by {
        reveal_strlit(" ");
        assert(template.subrange(14, 15) =~= words[1]);
    }
    assert(stands_at(template, words[2], 17, 3)) by {
        reveal_strlit(" = ");
        assert(template.subrange(17, 20) =~= words[2]);
    }
    assert(stands_at(template, words[3], 22, 1)) by {
        reveal_strlit(";");
        assert(template.subrange(22, 23) =~= words[3]);
    }
}

/// The text of the template, with its holes filled.
pub proof fn lemma_alias_text(parts: Seq<Seq<char>>)
    requires
        parts.len() == 4,
    ensures
        filled(ALIAS@, parts) == parts[0] + "\npub type "@ + parts[1] + " "@ + parts[2] + " = "@ + parts[3] + ";"@,
{
    let template = ALIAS@;
    let words = alias_words();
    lemma_alias_text_marks();
    let told = filled(template, parts);
    assert(template.skip(0) =~= template);
    let done0 = Seq::<char>::empty();
    assert(told =~= done0 + filled(template.skip(0), parts));
    assert(template.subrange(0, 0) =~= Seq::<char>::empty());
    lemma_filled_from(template, 0, Seq::<char>::empty(), 'a', parts, done0, told);
    let done1 = parts[0];
    assert(done0 + Seq::<char>::empty() + parts[0] =~= done1);
    lemma_filled_from(template, 2, words[0], 'b', parts, done1, told);
    let done2 = done1 + words[0] + parts[1];
    lemma_filled_from(template, 14, words[1], 'c', parts, done2, told);
    let done3 = done2 + words[1] + parts[2];
    lemma_filled_from(template, 17, words[2], 'd', parts, done3, told);
    let done4 = done3 + words[2] + parts[3];
    lemma_filled_last(template, 22, words[3], parts, done4, told);
}

spec fn idl_impl_words() -> Seq<Seq<char>> {
    seq!["#[doc(hidden)]\nimpl "@, " anchor_lang::IdlAccountType for "@, " "@, " {\n    const __IDL_ACCOUNT_ENTRY: Option<&'static str> = "@, ";\n    const __IDL_TYPE_DEF: Option<&'static str> = Some("@, ");\n\n    fn __register_idl_deps(\n        accounts: &mut anchor_lang::__alloc::vec::Vec<&'static str>,\n        types: &mut anchor_lang::__alloc::vec::Vec<&'static str>,\n    ) {\n        if let Some(a) = <Self as anchor_lang::IdlAccountType>::__IDL_ACCOUNT_ENTRY {\n            accounts.push(a);\n        }\n        if let Some(t) = <Self as anchor_lang::IdlAccountType>::__IDL_TYPE_DEF {\n            types.push(t);\n        }\n        "@, "\n    }\n}"@]
}

proof fn lemma_idl_impl_text_marks()
    ensures
        IDL_IMPL@.len() == 617,
        stands_at(IDL_IMPL@, idl_impl_words()[0], 0, 20),
        IDL_IMPL@[20] == '@' && IDL_IMPL@[21] == 'a',
        stands_at(IDL_IMPL@, idl_impl_words()[1], 22, 33),
        IDL_IMPL@[55] == '@' && IDL_IMPL@[56] == 'b',
        stands_at(IDL_IMPL@, idl_impl_words()[2], 57, 1),
        IDL_IMPL@[58] == '@' && IDL_IMPL@[59] == 'c',
        stands_at(IDL_IMPL@, idl_impl_words()[2], 60, 1),
        IDL_IMPL@[61] == '@' && IDL_IMPL@[62] == 'd',
        stands_at(IDL_IMPL@, idl_impl_words()[3], 63, 57),
        IDL_IMPL@[120] == '@' && IDL_IMPL@[121] == 'e',
        stands_at(IDL_IMPL@, idl_impl_words()[4], 122, 56),
        IDL_IMPL@[178] == '@' && IDL_IMPL@[179] == 'f',
        stands_at(IDL_IMPL@, idl_impl_words()[5], 180, 427),
        IDL_IMPL@[607] == '@' && IDL_IMPL@[608] == 'g',
        stands_at(IDL_IMPL@, idl_impl_words()[6], 609, 8),
{
    let template = IDL_IMPL@;
    let words = idl_impl_words();
    reveal_strlit("#[doc(hidden)]\nimpl @a anchor_lang::IdlAccountType for @b @c @d {\n    const __IDL_ACCOUNT_ENTRY: Option<&'static str> = @e;\n    const __IDL_TYPE_DEF: Option<&'static str> = Some(@f);\n\n    fn __register_idl_deps(\n        accounts: &mut anchor_lang::__alloc::vec::Vec<&'static str>,\n        types: &mut anchor_lang::__alloc::vec::Vec<&'static str>,\n    ) {\n        if let Some(a) = <Self as anchor_lang::IdlAccountType>::__IDL_ACCOUNT_ENTRY {\n            accounts.push(a);\n        }\n        if let Some(t) = <Self as anchor_lang::IdlAccountType>::__IDL_TYPE_DEF {\n            types.push(t);\n        }\n        @g\n    }\n}");
    assert(stands_at(template, words[0], 0, 20)) by {
        reveal_strlit("#[doc(hidden)]\nimpl ");
        assert(template.subrange(0, 20) =~= words[0]);
    }
    assert(stands_at(template, words[1], 22, 33)) by {
        reveal_strlit(" anchor_lang::IdlAccountType for ");
        assert(template.subrange(22, 55) =~= words[1]);
    }
    assert(stands_at(template, words[2], 57, 1)) by {
        reveal_strlit(" ");
        assert(template.subrange(57, 58) =~= words[2]);
    }
    assert(stands_at(template, words[2], 60, 1)) by {
        reveal_strlit(" ");
        assert(template.subrange(60, 61) =~= words[2]);
    }
    assert(stands_at(template, words[3], 63, 57)) by {
        reveal_strlit(" {\n    const __IDL_ACCOUNT_ENTRY: Option<&'static str> = ");
        assert(template.subrange(63, 120) =~= words[3]);
    }
    assert(stands_at(template, words[4], 122, 56)) by {
        reveal_strlit(";\n    const __IDL_TYPE_DEF: Option<&'static str> = Some(");
        assert(template.subrange(122, 178) =~= words[4]);
    }
    assert(stands_at(template, words[5], 180, 427)) by {
        reveal_strlit(");\n\n    fn __register_idl_deps(\n        accounts: &mut anchor_lang::__alloc::vec::Vec<&'static str>,\n        types: &mut anchor_lang::__alloc::vec::Vec<&'static str>,\n    ) {\n        if let Some(a) = <Self as anchor_lang::IdlAccountType>::__IDL_ACCOUNT_ENTRY {\n            accounts.push(a);\n        }\n        if let Some(t) = <Self as anchor_lang::IdlAccountType>::__IDL_TYPE_DEF {\n            types.push(t);\n        }\n        ");
        assert(template.subrange(180, 607) =~= words[5]);
    }
    assert(stands_at(template, words[6], 609, 8)) by {
        reveal_strlit("\n    }\n}");
        assert(template.subrange(609, 617) =~= words[6]);
    }
}

/// The text of the template, with its holes filled.
pub proof fn lemma_idl_impl_text(parts: Seq<Seq<char>>)
    requires
        parts.len() == 7,
    ensures
        filled(IDL_IMPL@, parts) == "#[doc(hidden)]\nimpl "@ + parts[0] + " anchor_lang::IdlAccountType for "@ + parts[1] + " "@ + parts[2] + " "@ + parts[3] + " {\n    const __IDL_ACCOUNT_ENTRY: Option<&'static str> = "@ + parts[4] + ";\n    const __IDL_TYPE_DEF: Option<&'static str> = Some("@ + parts[5] + ");\n\n    fn __register_idl_deps(\n        accounts: &mut anchor_lang::__alloc::vec::Vec<&'static str>,\n        types: &mut anchor_lang::__alloc::vec::Vec<&'static str>,\n    ) {\n        if let Some(a) = <Self as anchor_lang::IdlAccountType>::__IDL_ACCOUNT_ENTRY {\n            accounts.push(a);\n        }\n        if let Some(t) = <Self as anchor_lang::IdlAccountType>::__IDL_TYPE_DEF {\n            types.push(t);\n        }\n        "@ + parts[6] + "\n    }\n}"@,
{
    let template = IDL_IMPL@;
    let words = idl_impl_words();
    lemma_idl_impl_text_marks();
    let told = filled(template, parts);
    assert(template.skip(0) =~= template);
    let done0 = Seq::<char>::empty();
    assert(told =~= done0 + filled(template.skip(0), parts));
    lemma_filled_from(template, 0, words[0], 'a', parts, done0, told);
    let done1 = words[0] + parts[0];
    assert(done0 + words[0] + parts[0] =~= done1);
    lemma_filled_from(template, 22, words[1], 'b', parts, done1, told);
    let done2 = done1 + words[1] + parts[1];
    lemma_filled_from(template, 57, words[2], 'c', parts, done2, told);
    let done3 = done2 + words[2] + parts[2];
    lemma_filled_from(template, 60, words[2], 'd', parts, done3, told);
    let done4 = done3 + words[2] + parts[3];
    lemma_filled_from(template, 63, words[3], 'e', parts, done4, told);
    let done5 = done4 + words[3] + parts[4];
    lemma_filled_from(template, 122, words[4], 'f', parts, done5, told);
    let done6 = done5 + words[4] + parts[5];
    lemma_filled_from(template, 180, words[5], 'g', parts, done6, told);
    let done7 = done6 + words[5] + parts[6];
    lemma_filled_last(template, 609, words[6], parts, done7, told);
}

spec fn borsh_deserialize_words() -> Seq<Seq<char>> {
    seq!["impl "@, " anchor_lang::AccountDeserialize for "@, " "@, "\nwhere\n    for<'__de> Self:\n        anchor_lang::wincode::SchemaRead<'__de, anchor_lang::BorshConfig, Dst = Self>,\n{\n    "@, "\n\n    fn try_deserialize_unchecked(\n        buf: &mut &[u8],\n    ) -> ::core::result::Result<Self, anchor_lang::Error> {\n        use anchor_lang::Discriminator as _;\n        let disc_len = <Self as anchor_lang::Discriminator>::DISCRIMINATOR.len();\n        if buf.len() < disc_len {\n            return Err(anchor_lang::Error::AccountDataTooSmall);\n        }\n        let original = *buf;\n        let mut data = &original[disc_len..];\n        let value = <Self as anchor_lang::wincode::SchemaRead<\n            '_,\n            anchor_lang::BorshConfig,\n        >>::get(&mut data)\n            .map_err(|_| anchor_lang::Error::InvalidAccountData)?;\n        *buf = data;\n        Ok(value)\n    }\n}"@]
}

proof fn lemma_borsh_deserialize_text_marks()
    ensures
        BORSH_DESERIALIZE@.len() == 861,
        stands_at(BORSH_DESERIALIZE@, borsh_deserialize_words()[0], 0, 5),
        BORSH_DESERIALIZE@[5] == '@' && BORSH_DESERIALIZE@[6] == 'a',
        stands_at(BORSH_DESERIALIZE@, borsh_deserialize_words()[1], 7, 37),
        BORSH_DESERIALIZE@[44] == '@' && BORSH_DESERIALIZE@[45] == 'b',
        stands_at(BORSH_DESERIALIZE@, borsh_deserialize_words()[2], 46, 1),
        BORSH_DESERIALIZE@[47] == '@' && BORSH_DESERIALIZE@[48] == 'c',
        stands_at(BORSH_DESERIALIZE@, borsh_deserialize_words()[3], 49, 121),
        BORSH_DESERIALIZE@[170] == '@' && BORSH_DESERIALIZE@[171] == 'd',
        stands_at(BORSH_DESERIALIZE@, borsh_deserialize_words()[4], 172, 689),
{
    let template = BORSH_DESERIALIZE@;
    let words = borsh_deserialize_words();
    reveal_strlit("impl @a anchor_lang::AccountDeserialize for @b @c\nwhere\n    for<'__de> Self:\n        anchor_lang::wincode::SchemaRead<'__de, anchor_lang::BorshConfig, Dst = Self>,\n{\n    @d\n\n    fn try_deserialize_unchecked(\n        buf: &mut &[u8],\n    ) -> ::core::result::Result<Self, anchor_lang::Error> {\n        use anchor_lang::Discriminator as _;\n        let disc_len = <Self as anchor_lang::Discriminator>::DISCRIMINATOR.len();\n        if buf.len() < disc_len {\n            return Err(anchor_lang::Error::AccountDataTooSmall);\n        }\n        let original = *buf;\n        let mut data = &original[disc_len..];\n        let value = <Self as anchor_lang::wincode::SchemaRead<\n            '_,\n            anchor_lang::BorshConfig,\n        >>::get(&mut data)\n            .map_err(|_| anchor_lang::Error::InvalidAccountData)?;\n        *buf = data;\n        Ok(value)\n    }\n}");
    assert(stands_at(template, words[0], 0, 5)) by {
        reveal_strlit("impl ");
        assert(template.subrange(0, 5) =~= words[0]);
    }
    assert(stands_at(template, words[1], 7, 37)) by {
        reveal_strlit(" anchor_lang::AccountDeserialize for ");
        assert(template.subrange(7, 44) =~= words[1]);
    }
    assert(stands_at(template, words[2], 46, 1)) by {
        reveal_strlit(" ");
        assert(template.subrange(46, 47) =~= words[2]);
    }
    assert(stands_at(template, words[3], 49, 121)) by {
        reveal_strlit("\nwhere\n    for<'__de> Self:\n        anchor_lang::wincode::SchemaRead<'__de, anchor_lang::BorshConfig, Dst = Self>,\n{\n    ");
        assert(template.subrange(49, 170) =~= words[3]);
    }
    assert(stands_at(template, words[4], 172, 689)) by {
        reveal_strlit("\n\n    fn try_deserialize_unchecked(\n        buf: &mut &[u8],\n    ) -> ::core::result::Result<Self, anchor_lang::Error> {\n        use anchor_lang::Discriminator as _;\n        let disc_len = <Self as anchor_lang::Discriminator>::DISCRIMINATOR.len();\n        if buf.len() < disc_len {\n            return Err(anchor_lang::Error::AccountDataTooSmall);\n        }\n        let original = *buf;\n        let mut data = &original[disc_len..];\n        let value = <Self as anchor_lang::wincode::SchemaRead<\n            '_,\n            anchor_lang::BorshConfig,\n        >>::get(&mut data)\n            .map_err(|_| anchor_lang::Error::InvalidAccountData)?;\n        *buf = data;\n        Ok(value)\n    }\n}");
        assert(template.subrange(172, 861) =~= words[4]);
    }
}

/// The text of the template, with its holes filled.
pub proof fn lemma_borsh_deserialize_text(parts: Seq<Seq<char>>)
    requires
        parts.len() == 4,
    ensures
        filled(BORSH_DESERIALIZE@, parts) == "impl "@ + parts[0] + " anchor_lang::AccountDeserialize for "@ + parts[1] + " "@ + parts[2] + "\nwhere\n    for<'__de> Self:\n        anchor_lang::wincode::SchemaRead<'__de, anchor_lang::BorshConfig, Dst = Self>,\n{\n    "@ + parts[3] + "\n\n    fn try_deserialize_unchecked(\n        buf: &mut &[u8],\n    ) -> ::core::result::Result<Self, anchor_lang::Error> {\n        use anchor_lang::Discriminator as _;\n        let disc_len = <Self as anchor_lang::Discriminator>::DISCRIMINATOR.len();\n        if buf.len() < disc_len {\n            return Err(anchor_lang::Error::AccountDataTooSmall);\n        }\n        let original = *buf;\n        let mut data = &original[disc_len..];\n        let value = <Self as anchor_lang::wincode::SchemaRead<\n            '_,\n            anchor_lang::BorshConfig,\n        >>::get(&mut data)\n            .map_err(|_| anchor_lang::Error::InvalidAccountData)?;\n        *buf = data;\n        Ok(value)\n    }\n}"@,
{
    let template = BORSH_DESERIALIZE@;
    let words = borsh_deserialize_words();
    lemma_borsh_deserialize_text_marks();
    let told = filled(template, parts);
    assert(template.skip(0) =~= template);
    let done0 = Seq::<char>::empty();
    assert(told =~= done0 + filled(template.skip(0), parts));
    lemma_filled_from(template, 0, words[0], 'a', parts, done0, told);
    let done1 = words[0] + parts[0];
    assert(done0 + words[0] + parts[0] =~= done1);
    lemma_filled_from(template, 7, words[1], 'b', parts, done1, told);
    let done2 = done1 + words[1] + parts[1];
    lemma_filled_from(template, 46, words[2], 'c', parts, done2, told);
    let done3 = done2 + words[2] + parts[2];
    lemma_filled_from(template, 49, words[3], 'd', parts, done3, told);
    let done4 = done3 + words[3] + parts[3];
    lemma_filled_last(template, 172, words[4], parts, done4, told);
}

spec fn pod_deserialize_words() -> Seq<Seq<char>> {
    seq!["impl "@, " anchor_lang::AccountDeserialize for "@, " "@, "\nwhere\n    Self: anchor_lang::bytemuck::Pod,\n{\n    "@, "\n\n    fn try_deserialize_unchecked(\n        buf: &mut &[u8],\n    ) -> ::core::result::Result<Self, anchor_lang::Error> {\n        use anchor_lang::Discriminator as _;\n        let disc_len = <Self as anchor_lang::Discriminator>::DISCRIMINATOR.len();\n        if buf.len() < disc_len {\n            return Err(anchor_lang::Error::AccountDataTooSmall);\n        }\n        let original = *buf;\n        let data = &original[disc_len..];\n        let size = ::core::mem::size_of::<Self>();\n        if data.len() < size {\n            return Err(anchor_lang::Error::AccountDataTooSmall);\n        }\n        let value = anchor_lang::bytemuck::pod_read_unaligned(&data[..size]);\n        *buf = &data[size..];\n        Ok(value)\n    }\n}"@]
}

proof fn lemma_pod_deserialize_text_marks()
    ensures
        POD_DESERIALIZE@.len() == 820,
        stands_at(POD_DESERIALIZE@, pod_deserialize_words()[0], 0, 5),
        POD_DESERIALIZE@[5] == '@' && POD_DESERIALIZE@[6] == 'a',
        stands_at(POD_DESERIALIZE@, pod_deserialize_words()[1], 7, 37),
        POD_DESERIALIZE@[44] == '@' && POD_DESERIALIZE@[45] == 'b',
        stands_at(POD_DESERIALIZE@, pod_deserialize_words()[2], 46, 1),
        POD_DESERIALIZE@[47] == '@' && POD_DESERIALIZE@[48] == 'c',
        stands_at(POD_DESERIALIZE@, pod_deserialize_words()[3], 49, 51),
        POD_DESERIALIZE@[100] == '@' && POD_DESERIALIZE@[101] == 'd',
        stands_at(POD_DESERIALIZE@, pod_deserialize_words()[4], 102, 718),
{
    let template = POD_DESERIALIZE@;
    let words = pod_deserialize_words();
    reveal_strlit("impl @a anchor_lang::AccountDeserialize for @b @c\nwhere\n    Self: anchor_lang::bytemuck::Pod,\n{\n    @d\n\n    fn try_deserialize_unchecked(\n        buf: &mut &[u8],\n    ) -> ::core::result::Result<Self, anchor_lang::Error> {\n        use anchor_lang::Discriminator as _;\n        let disc_len = <Self as anchor_lang::Discriminator>::DISCRIMINATOR.len();\n        if buf.len() < disc_len {\n            return Err(anchor_lang::Error::AccountDataTooSmall);\n        }\n        let original = *buf;\n        let data = &original[disc_len..];\n        let size = ::core::mem::size_of::<Self>();\n        if data.len() < size {\n            return Err(anchor_lang::Error::AccountDataTooSmall);\n        }\n        let value = anchor_lang::bytemuck::pod_read_unaligned(&data[..size]);\n        *buf = &data[size..];\n        Ok(value)\n    }\n}");
    assert(stands_at(template, words[0], 0, 5)) by {
        reveal_strlit("impl ");
        assert(template.subrange(0, 5) =~= words[0]);
    }
    assert(stands_at(template, words[1], 7, 37)) by {
        reveal_strlit(" anchor_lang::AccountDeserialize for ");
        assert(template.subrange(7, 44) =~= words[1]);
    }
    assert(stands_at(template, words[2], 46, 1)) by {
        reveal_strlit(" ");
        assert(template.subrange(46, 47) =~= words[2]);
    }
    assert(stands_at(template, words[3], 49, 51)) by {
        reveal_strlit("\nwhere\n    Self: anchor_lang::bytemuck::Pod,\n{\n    ");
        assert(template.subrange(49, 100) =~= words[3]);
    }
    assert(stands_at(template, words[4], 102, 718)) by {
        reveal_strlit("\n\n    fn try_deserialize_unchecked(\n        buf: &mut &[u8],\n    ) -> ::core::result::Result<Self, anchor_lang::Error> {\n        use anchor_lang::Discriminator as _;\n        let disc_len = <Self as anchor_lang::Discriminator>::DISCRIMINATOR.len();\n        if buf.len() < disc_len {\n            return Err(anchor_lang::Error::AccountDataTooSmall);\n        }\n        let original = *buf;\n        let data = &original[disc_len..];\n        let size = ::core::mem::size_of::<Self>();\n        if data.len() < size {\n            return Err(anchor_lang::Error::AccountDataTooSmall);\n        }\n        let value = anchor_lang::bytemuck::pod_read_unaligned(&data[..size]);\n        *buf = &data[size..];\n        Ok(value)\n    }\n}");
        assert(template.subrange(102, 820) =~= words[4]);
    }
}

/// The text of the template, with its holes filled.
pub proof fn lemma_pod_deserialize_text(parts: Seq<Seq<char>>)
    requires
        parts.len() == 4,
    ensures
        filled(POD_DESERIALIZE@, parts) == "impl "@ + parts[0] + " anchor_lang::AccountDeserialize for "@ + parts[1] + " "@ + parts[2] + "\nwhere\n    Self: anchor_lang::bytemuck::Pod,\n{\n    "@ + parts[3] + "\n\n    fn try_deserialize_unchecked(\n        buf: &mut &[u8],\n    ) -> ::core::result::Result<Self, anchor_lang::Error> {\n        use anchor_lang::Discriminator as _;\n        let disc_len = <Self as anchor_lang::Discriminator>::DISCRIMINATOR.len();\n        if buf.len() < disc_len {\n            return Err(anchor_lang::Error::AccountDataTooSmall);\n        }\n        let original = *buf;\n        let data = &original[disc_len..];\n        let size = ::core::mem::size_of::<Self>();\n        if data.len() < size {\n            return Err(anchor_lang::Error::AccountDataTooSmall);\n        }\n        let value = anchor_lang::bytemuck::pod_read_unaligned(&data[..size]);\n        *buf = &data[size..];\n        Ok(value)\n    }\n}"@,
{
    let template = POD_DESERIALIZE@;
    let words = pod_deserialize_words();
    lemma_pod_deserialize_text_marks();
    let told = filled(template, parts);
    assert(template.skip(0) =~= template);
    let done0 = Seq::<char>::empty();
    assert(told =~= done0 + filled(template.skip(0), parts));
    lemma_filled_from(template, 0, words[0], 'a', parts, done0, told);
    let done1 = words[0] + parts[0];
    assert(done0 + words[0] + parts[0] =~= done1);
    lemma_filled_from(template, 7, words[1], 'b', parts, done1, told);
    let done2 = done1 + words[1] + parts[1];
    lemma_filled_from(template, 46, words[2], 'c', parts, done2, told);
    let done3 = done2 + words[2] + parts[2];
    lemma_filled_from(template, 49, words[3], 'd', parts, done3, told);
    let done4 = done3 + words[3] + parts[3];
    lemma_filled_last(template, 102, words[4], parts, done4, told);
}

spec fn pod_impls_words() -> Seq<Seq<char>> {
    seq!["impl "@, " "@, " {\n    const __ANCHOR_DECLARE_PROGRAM_POD_ASSERT: fn() = || {\n        fn assert_pod<T: anchor_lang::bytemuck::Pod>() {}\n        "@, "\n    };\n    const __ANCHOR_DECLARE_PROGRAM_NO_PADDING: () = assert!(\n        core::mem::size_of::<Self>() == 0 "@, ",\n        \"declared bytemuck type has padding bytes\"\n    );\n}\nunsafe impl "@, " anchor_lang::bytemuck::Pod for "@, " {}\nunsafe impl "@, " anchor_lang::bytemuck::Zeroable for "@, " {}"@]
}

proof fn lemma_pod_impls_text_marks()
    ensures
        POD_IMPLS@.len() == 441,
        stands_at(POD_IMPLS@, pod_impls_words()[0], 0, 5),
        POD_IMPLS@[5] == '@' && POD_IMPLS@[6] == 'a',
        stands_at(POD_IMPLS@, pod_impls_words()[1], 7, 1),
        POD_IMPLS@[8] == '@' && POD_IMPLS@[9] == 'b',
        stands_at(POD_IMPLS@, pod_impls_words()[1], 10, 1),
        POD_IMPLS@[11] == '@' && POD_IMPLS@[12] == 'c',
        stands_at(POD_IMPLS@, pod_impls_words()[1], 13, 1),
        POD_IMPLS@[14] == '@' && POD_IMPLS@[15] == 'd',
        stands_at(POD_IMPLS@, pod_impls_words()[2], 16, 128),
        POD_IMPLS@[144] == '@' && POD_IMPLS@[145] == 'e',
        stands_at(POD_IMPLS@, pod_impls_words()[3], 146, 111),
        POD_IMPLS@[257] == '@' && POD_IMPLS@[258] == 'f',
        stands_at(POD_IMPLS@, pod_impls_words()[4], 259, 74),
        POD_IMPLS@[333] == '@' && POD_IMPLS@[334] == 'a',
        stands_at(POD_IMPLS@, pod_impls_words()[5], 335, 32),
        POD_IMPLS@[367] == '@' && POD_IMPLS@[368] == 'b',
        stands_at(POD_IMPLS@, pod_impls_words()[1], 369, 1),
        POD_IMPLS@[370] == '@' && POD_IMPLS@[371] == 'c',
        stands_at(POD_IMPLS@, pod_impls_words()[1], 372, 1),
        POD_IMPLS@[373] == '@' && POD_IMPLS@[374] == 'd',
        stands_at(POD_IMPLS@, pod_impls_words()[6], 375, 16),
        POD_IMPLS@[391] == '@' && POD_IMPLS@[392] == 'a',
        stands_at(POD_IMPLS@, pod_impls_words()[7], 393, 37),
        POD_IMPLS@[430] == '@' && POD_IMPLS@[431] == 'b',
        stands_at(POD_IMPLS@, pod_impls_words()[1], 432, 1),
        POD_IMPLS@[433] == '@' && POD_IMPLS@[434] == 'c',
        stands_at(POD_IMPLS@, pod_impls_words()[1], 435, 1),
        POD_IMPLS@[436] == '@' && POD_IMPLS@[437] == 'd',
        stands_at(POD_IMPLS@, pod_impls_words()[8], 438, 3),
{
    let template = POD_IMPLS@;
    let words = pod_impls_words();
    reveal_strlit("impl @a @b @c @d {\n    const __ANCHOR_DECLARE_PROGRAM_POD_ASSERT: fn() = || {\n        fn assert_pod<T: anchor_lang::bytemuck::Pod>() {}\n        @e\n    };\n    const __ANCHOR_DECLARE_PROGRAM_NO_PADDING: () = assert!(\n        core::mem::size_of::<Self>() == 0 @f,\n        \"declared bytemuck type has padding bytes\"\n    );\n}\nunsafe impl @a anchor_lang::bytemuck::Pod for @b @c @d {}\nunsafe impl @a anchor_lang::bytemuck::Zeroable for @b @c @d {}");
    assert(stands_at(template, words[0], 0, 5)) by {
        reveal_strlit("impl ");
        assert(template.subrange(0, 5) =~= words[0]);
    }
    assert(stands_at(template, words[1], 7, 1)) by {
        reveal_strlit(" ");
        assert(template.subrange(7, 8) =~= words[1]);
    }
    assert(stands_at(template, words[1], 10, 1)) by {
        reveal_strlit(" ");
        assert(template.subrange(10, 11) =~= words[1]);
    }
    assert(stands_at(template, words[1], 13, 1)) by {
        reveal_strlit(" ");
        assert(template.subrange(13, 14) =~= words[1]);
    }
    assert(stands_at(template, words[2], 16, 128)) by {
        reveal_strlit(" {\n    const __ANCHOR_DECLARE_PROGRAM_POD_ASSERT: fn() = || {\n        fn assert_pod<T: anchor_lang::bytemuck::Pod>() {}\n        ");
        assert(template.subrange(16, 144) =~= words[2]);
    }
    assert(stands_at(template, words[3], 146, 111)) by {
        reveal_strlit("\n    };\n    const __ANCHOR_DECLARE_PROGRAM_NO_PADDING: () = assert!(\n        core::mem::size_of::<Self>() == 0 ");
        assert(template.subrange(146, 257) =~= words[3]);
    }
    assert(stands_at(template, words[4], 259, 74)) by {
        reveal_strlit(",\n        \"declared bytemuck type has padding bytes\"\n    );\n}\nunsafe impl ");
        assert(template.subrange(259, 333) =~= words[4]);
    }
    assert(stands_at(template, words[5], 335, 32)) by {
        reveal_strlit(" anchor_lang::bytemuck::Pod for ");
        assert(template.subrange(335, 367) =~= words[5]);
    }
    assert(stands_at(template, words[1], 369, 1)) by {
        reveal_strlit(" ");
        assert(template.subrange(369, 370) =~= words[1]);
    }
    assert(stands_at(template, words[1], 372, 1)) by {
        reveal_strlit(" ");
        assert(template.subrange(372, 373) =~= words[1]);
    }
    assert(stands_at(template, words[6], 375, 16)) by {
        reveal_strlit(" {}\nunsafe impl ");
        assert(template.subrange(375, 391) =~= words[6]);
    }
    assert(stands_at(template, words[7], 393, 37)) by {
        reveal_strlit(" anchor_lang::bytemuck::Zeroable for ");
        assert(template.subrange(393, 430) =~= words[7]);
    }
    assert(stands_at(template, words[1], 432, 1)) by {
        reveal_strlit(" ");
        assert(template.subrange(432, 433) =~= words[1]);
    }
    assert(stands_at(template, words[1], 435, 1)) by {
        reveal_strlit(" ");
        assert(template.subrange(435, 436) =~= words[1]);
    }
    assert(stands_at(template, words[8], 438, 3)) by {
        reveal_strlit(" {}");
        assert(template.subrange(438, 441) =~= words[8]);
    }
}

/// The text of the template, with its holes filled.
pub proof fn lemma_pod_impls_text(parts: Seq<Seq<char>>)
    requires
        parts.len() == 6,
    ensures
        filled(POD_IMPLS@, parts) == "impl "@ + parts[0] + " "@ + parts[1] + " "@ + parts[2] + " "@ + parts[3] + " {\n    const __ANCHOR_DECLARE_PROGRAM_POD_ASSERT: fn() = || {\n        fn assert_pod<T: anchor_lang::bytemuck::Pod>() {}\n        "@ + parts[4] + "\n    };\n    const __ANCHOR_DECLARE_PROGRAM_NO_PADDING: () = assert!(\n        core::mem::size_of::<Self>() == 0 "@ + parts[5] + ",\n        \"declared bytemuck type has padding bytes\"\n    );\n}\nunsafe impl "@ + parts[0] + " anchor_lang::bytemuck::Pod for "@ + parts[1] + " "@ + parts[2] + " "@ + parts[3] + " {}\nunsafe impl "@ + parts[0] + " anchor_lang::bytemuck::Zeroable for "@ + parts[1] + " "@ + parts[2] + " "@ + parts[3] + " {}"@,
{
    let template = POD_IMPLS@;
    let words = pod_impls_words();
    lemma_pod_impls_text_marks();
    let told = filled(template, parts);
    assert(template.skip(0) =~= template);
    let done0 = Seq::<char>::empty();
    assert(told =~= done0 + filled(template.skip(0), parts));
    lemma_filled_from(template, 0, words[0], 'a', parts, done0, told);
    let done1 = words[0] + parts[0];
    assert(done0 + words[0] + parts[0] =~= done1);
    lemma_filled_from(template, 7, words[1], 'b', parts, done1, told);
    let done2 = done1 + words[1] + parts[1];
    lemma_filled_from(template, 10, words[1], 'c', parts, done2, told);
    let done3 = done2 + words[1] + parts[2];
    lemma_filled_from(template, 13, words[1], 'd', parts, done3, told);
    let done4 = done3 + words[1] + parts[3];
    lemma_filled_from(template, 16, words[2], 'e', parts, done4, told);
    let done5 = done4 + words[2] + parts[4];
    lemma_filled_from(template, 146, words[3], 'f', parts, done5, told);
    let done6 = done5 + words[3] + parts[5];
    lemma_filled_from(template, 259, words[4], 'a', parts, done6, told);
    let done7 = done6 + words[4] + parts[0];
    lemma_filled_from(template, 335, words[5], 'b', parts, done7, told);
    let done8 = done7 + words[5] + parts[1];
    lemma_filled_from(template, 369, words[1], 'c', parts, done8, told);
    let done9 = done8 + words[1] + parts[2];
    lemma_filled_from(template, 372, words[1], 'd', parts, done9, told);
    let done10 = done9 + words[1] + parts[3];
    lemma_filled_from(template, 375, words[6], 'a', parts, done10, told);
    let done11 = done10 + words[6] + parts[0];
    lemma_filled_from(template, 393, words[7], 'b', parts, done11, told);
    let done12 = done11 + words[7] + parts[1];
    lemma_filled_from(template, 432, words[1], 'c', parts, done12, told);
    let done13 = done12 + words[1] + parts[2];
    lemma_filled_from(template, 435, words[1], 'd', parts, done13, told);
    let done14 = done13 + words[1] + parts[3];
    lemma_filled_last(template, 438, words[8], parts, done14, told);
}

} // verus!
