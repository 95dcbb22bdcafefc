//! The texts of the code for handlers: each template, with its holes filled.

use crate::args::ARGS_READER;
use crate::handler::{
    ACCOUNTS_REEXPORT, CPI_ACCOUNTS_REEXPORT, CPI_WRAPPER, DISPATCH_BYTE, DISPATCH_WORD,
    INSTRUCTION_STRUCT, RETURNS_JSON, WRAPPER_WITHOUT_ARGS, WRAPPER_WITH_ARGS,
};
use crate::passages::{
    in_hole, lemma_filled_from, lemma_filled_last, lemma_filled_tells, pieces_stand, stands_at,
    tells,
};
use crate::template::filled;
use vstd::prelude::*;

verus! {

spec fn args_reader_words() -> Seq<Seq<char>> {
    seq!["#[derive(anchor_lang::AnchorDeserialize)]\nstruct "@, " "@, " { "@, " }\nlet __args: "@, " = "@, ";\n"@]
}

proof fn lemma_args_reader_text_marks()
    ensures
        ARGS_READER@.len() == 86,
        stands_at(ARGS_READER@, args_reader_words()[0], 0, 49),
        ARGS_READER@[49] == '@' && ARGS_READER@[50] == 'a',
        stands_at(ARGS_READER@, args_reader_words()[1], 51, 1),
        ARGS_READER@[52] == '@' && ARGS_READER@[53] == 'b',
        stands_at(ARGS_READER@, args_reader_words()[2], 54, 3),
        ARGS_READER@[57] == '@' && ARGS_READER@[58] == 'c',
        stands_at(ARGS_READER@, args_reader_words()[3], 59, 15),
        ARGS_READER@[74] == '@' && ARGS_READER@[75] == 'a',
        stands_at(ARGS_READER@, args_reader_words()[1], 76, 1),
        ARGS_READER@[77] == '@' && ARGS_READER@[78] == 'd',
        stands_at(ARGS_READER@, args_reader_words()[4], 79, 3),
        ARGS_READER@[82] == '@' && ARGS_READER@[83] == 'e',
        stands_at(ARGS_READER@, args_reader_words()[5], 84, 2),
{
    let template = ARGS_READER@;
    let words = args_reader_words();
    reveal_strlit("#[derive(anchor_lang::AnchorDeserialize)]\nstruct @a @b { @c }\nlet __args: @a @d = @e;\n");
    assert(stands_at(template, words[0], 0, 49)) by {
        reveal_strlit("#[derive(anchor_lang::AnchorDeserialize)]\nstruct ");
        assert(template.subrange(0, 49) =~= words[0]);
    }
    assert(stands_at(template, words[1], 51, 1)) by {
        reveal_strlit(" ");
        assert(template.subrange(51, 52) =~= words[1]);
    }
    assert(stands_at(template, words[2], 54, 3)) by {
        reveal_strlit(" { ");
        assert(template.subrange(54, 57) =~= words[2]);
    }
    assert(stands_at(template, words[3], 59, 15)) by {
        reveal_strlit(" }\nlet __args: ");
        assert(template.subrange(59, 74) =~= words[3]);
    }
    assert(stands_at(template, words[1], 76, 1)) by {
        reveal_strlit(" ");
        assert(template.subrange(76, 77) =~= words[1]);
    }
    assert(stands_at(template, words[4], 79, 3)) by {
        reveal_strlit(" = ");
        assert(template.subrange(79, 82) =~= words[4]);
    }
    assert(stands_at(template, words[5], 84, 2)) by {
        reveal_strlit(";\n");
        assert(template.subrange(84, 86) =~= words[5]);
    }
}

/// The text of the template, with its holes filled.
pub proof fn lemma_args_reader_text(parts: Seq<Seq<char>>)
    requires
        parts.len() == 5,
    ensures
        filled(ARGS_READER@, parts) == "#[derive(anchor_lang::AnchorDeserialize)]\nstruct "@ + parts[0] + " "@ + parts[1] + " { "@ + parts[2] + " }\nlet __args: "@ + parts[0] + " "@ + parts[3] + " = "@ + parts[4] + ";\n"@,
{
    let template = ARGS_READER@;
    let words = args_reader_words();
    lemma_args_reader_text_marks();
    let told = filled(template, parts);
    assert(template.skip(0) =~= template);
    let done0 = Seq::<char>::empty();
    assert(told =~= done0 + filled(template.skip(0), parts));
    lemma_filled_from(template, 0, words[0], 'a', parts, done0, told);
    let done1 = words[0] + parts[0];
    assert(done0 + words[0] + parts[0] =~= done1);
    lemma_filled_from(template, 51, words[1], 'b', parts, done1, told);
    let done2 = done1 + words[1] + parts[1];
    lemma_filled_from(template, 54, words[2], 'c', parts, done2, told);
    let done3 = done2 + words[2] + parts[2];
    lemma_filled_from(template, 59, words[3], 'a', parts, done3, told);
    let done4 = done3 + words[3] + parts[0];
    lemma_filled_from(template, 76, words[1], 'd', parts, done4, told);
    let done5 = done4 + words[1] + parts[3];
    lemma_filled_from(template, 79, words[4], 'e', parts, done5, told);
    let done6 = done5 + words[4] + parts[4];
    lemma_filled_last(template, 84, words[5], parts, done6, told);
}

spec fn wrapper_words() -> Seq<Seq<char>> {
    seq!["\n#[inline(always)]\npub fn "@, "<'a>(\n    __program_id: &'a anchor_lang::Address,\n    __cursor: &'a mut anchor_lang::AccountCursor,\n    __ix_data: &'a [u8],\n    __num_accounts: usize,\n) -> u64 {\n    #[cfg(not(feature = \"no-log-ix-name\"))]\n    anchor_lang::msg!("@, ");\n\n    #[inline(always)]\n    fn __anchor_assert_no_ix_args(_: ()) {}\n\n"@, "    match anchor_lang::run_handler::<"@, ", "@, ">(\n        __program_id,\n        __cursor,\n        __ix_data,\n        __num_accounts,\n        |__ctx, __ix_args| {\n            __anchor_assert_no_ix_args(__ix_args);\n            "@, "::"@, "(__ctx)\n        },\n    ) {\n        Ok(__result) => {\n            "@, "\n            0\n        },\n        Err(__e) => __e.into(),\n    }\n}"@]
}

proof fn lemma_wrapper_told_marks()
    ensures
        WRAPPER_WITHOUT_ARGS@.len() == 691,
        !in_hole(WRAPPER_WITHOUT_ARGS@, 0),
        !in_hole(WRAPPER_WITHOUT_ARGS@, 332),
        WRAPPER_WITHOUT_ARGS@[0] == '@' && WRAPPER_WITHOUT_ARGS@[1] == 'a',
        stands_at(WRAPPER_WITHOUT_ARGS@, wrapper_words()[0], 2, 26),
        WRAPPER_WITHOUT_ARGS@[28] == '@' && WRAPPER_WITHOUT_ARGS@[29] == 'b',
        stands_at(WRAPPER_WITHOUT_ARGS@, wrapper_words()[1], 30, 229),
        WRAPPER_WITHOUT_ARGS@[259] == '@' && WRAPPER_WITHOUT_ARGS@[260] == 'c',
        stands_at(WRAPPER_WITHOUT_ARGS@, wrapper_words()[2], 261, 71),
        !in_hole(WRAPPER_WITHOUT_ARGS@, 691),
        stands_at(WRAPPER_WITHOUT_ARGS@, wrapper_words()[3], 332, 37),
        WRAPPER_WITHOUT_ARGS@[369] == '@' && WRAPPER_WITHOUT_ARGS@[370] == 'd',
        stands_at(WRAPPER_WITHOUT_ARGS@, wrapper_words()[4], 371, 2),
        WRAPPER_WITHOUT_ARGS@[373] == '@' && WRAPPER_WITHOUT_ARGS@[374] == 'e',
        stands_at(WRAPPER_WITHOUT_ARGS@, wrapper_words()[5], 375, 178),
        WRAPPER_WITHOUT_ARGS@[553] == '@' && WRAPPER_WITHOUT_ARGS@[554] == 'f',
        stands_at(WRAPPER_WITHOUT_ARGS@, wrapper_words()[6], 555, 2),
        WRAPPER_WITHOUT_ARGS@[557] == '@' && WRAPPER_WITHOUT_ARGS@[558] == 'b',
        stands_at(WRAPPER_WITHOUT_ARGS@, wrapper_words()[7], 559, 65),
        WRAPPER_WITHOUT_ARGS@[624] == '@' && WRAPPER_WITHOUT_ARGS@[625] == 'g',
        stands_at(WRAPPER_WITHOUT_ARGS@, wrapper_words()[8], 626, 65),
{
    let template = WRAPPER_WITHOUT_ARGS@;
    let words = wrapper_words();
    reveal_strlit("@a\n#[inline(always)]\npub fn @b<'a>(\n    __program_id: &'a anchor_lang::Address,\n    __cursor: &'a mut anchor_lang::AccountCursor,\n    __ix_data: &'a [u8],\n    __num_accounts: usize,\n) -> u64 {\n    #[cfg(not(feature = \"no-log-ix-name\"))]\n    anchor_lang::msg!(@c);\n\n    #[inline(always)]\n    fn __anchor_assert_no_ix_args(_: ()) {}\n\n    match anchor_lang::run_handler::<@d, @e>(\n        __program_id,\n        __cursor,\n        __ix_data,\n        __num_accounts,\n        |__ctx, __ix_args| {\n            __anchor_assert_no_ix_args(__ix_args);\n            @f::@b(__ctx)\n        },\n    ) {\n        Ok(__result) => {\n            @g\n            0\n        },\n        Err(__e) => __e.into(),\n    }\n}");
    assert(stands_at(template, words[0], 2, 26)) by {
        reveal_strlit("\n#[inline(always)]\npub fn ");
        assert(template.subrange(2, 28) =~= words[0]);
    }
    assert(stands_at(template, words[1], 30, 229)) by {
        reveal_strlit("<'a>(\n    __program_id: &'a anchor_lang::Address,\n    __cursor: &'a mut anchor_lang::AccountCursor,\n    __ix_data: &'a [u8],\n    __num_accounts: usize,\n) -> u64 {\n    #[cfg(not(feature = \"no-log-ix-name\"))]\n    anchor_lang::msg!(");
        assert(template.subrange(30, 259) =~= words[1]);
    }
    assert(stands_at(template, words[2], 261, 71)) by {
        reveal_strlit(");\n\n    #[inline(always)]\n    fn __anchor_assert_no_ix_args(_: ()) {}\n\n");
        assert(template.subrange(261, 332) =~= words[2]);
    }
    assert(stands_at(template, words[3], 332, 37)) by {
        reveal_strlit("    match anchor_lang::run_handler::<");
        assert(template.subrange(332, 369) =~= words[3]);
    }
    assert(stands_at(template, words[4], 371, 2)) by {
        reveal_strlit(", ");
        assert(template.subrange(371, 373) =~= words[4]);
    }
    assert(stands_at(template, words[5], 375, 178)) by {
        reveal_strlit(">(\n        __program_id,\n        __cursor,\n        __ix_data,\n        __num_accounts,\n        |__ctx, __ix_args| {\n            __anchor_assert_no_ix_args(__ix_args);\n            ");
        assert(template.subrange(375, 553) =~= words[5]);
    }
    assert(stands_at(template, words[6], 555, 2)) by {
        reveal_strlit("::");
        assert(template.subrange(555, 557) =~= words[6]);
    }
    assert(stands_at(template, words[7], 559, 65)) by {
        reveal_strlit("(__ctx)\n        },\n    ) {\n        Ok(__result) => {\n            ");
        assert(template.subrange(559, 624) =~= words[7]);
    }
    assert(stands_at(template, words[8], 626, 65)) by {
        reveal_strlit("\n            0\n        },\n        Err(__e) => __e.into(),\n    }\n}");
        assert(template.subrange(626, 691) =~= words[8]);
    }
}

proof fn lemma_wrapper_told_0(parts: Seq<Seq<char>>)
    requires
        parts.len() == 7,
    ensures
        filled(WRAPPER_WITHOUT_ARGS@.subrange(0, 332), parts) == parts[0] + "\n#[inline(always)]\npub fn "@ + parts[1] + "<'a>(\n    __program_id: &'a anchor_lang::Address,\n    __cursor: &'a mut anchor_lang::AccountCursor,\n    __ix_data: &'a [u8],\n    __num_accounts: usize,\n) -> u64 {\n    #[cfg(not(feature = \"no-log-ix-name\"))]\n    anchor_lang::msg!("@ + parts[2] + ");\n\n    #[inline(always)]\n    fn __anchor_assert_no_ix_args(_: ()) {}\n\n"@,
{
    let template = WRAPPER_WITHOUT_ARGS@;
    let words = wrapper_words();
    lemma_wrapper_told_marks();
    let piece = template.subrange(0, 332);
    let told = filled(piece, parts);
    assert(piece.skip(0) =~= piece);
    let done0 = Seq::<char>::empty();
    assert(told =~= done0 + filled(piece.skip(0), parts));
    assert(piece.subrange(0, 0) =~= Seq::<char>::empty());
    lemma_filled_from(piece, 0, Seq::<char>::empty(), 'a', parts, done0, told);
    let done1 = parts[0];
    assert(done0 + Seq::<char>::empty() + parts[0] =~= done1);
    assert(piece.subrange(2, 28) =~= template.subrange(2, 28));
    lemma_filled_from(piece, 2, words[0], 'b', parts, done1, told);
    let done2 = done1 + words[0] + parts[1];
    assert(piece.subrange(30, 259) =~= template.subrange(30, 259));
    lemma_filled_from(piece, 30, words[1], 'c', parts, done2, told);
    let done3 = done2 + words[1] + parts[2];
    assert(piece.subrange(261, 332) =~= template.subrange(261, 332));
    lemma_filled_last(piece, 261, words[2], parts, done3, told);
}

proof fn lemma_wrapper_told_1(parts: Seq<Seq<char>>)
    requires
        parts.len() == 7,
    ensures
        filled(WRAPPER_WITHOUT_ARGS@.subrange(332, 691), parts) == "    match anchor_lang::run_handler::<"@ + parts[3] + ", "@ + parts[4] + ">(\n        __program_id,\n        __cursor,\n        __ix_data,\n        __num_accounts,\n        |__ctx, __ix_args| {\n            __anchor_assert_no_ix_args(__ix_args);\n            "@ + parts[5] + "::"@ + parts[1] + "(__ctx)\n        },\n    ) {\n        Ok(__result) => {\n            "@ + parts[6] + "\n            0\n        },\n        Err(__e) => __e.into(),\n    }\n}"@,
{
    let template = WRAPPER_WITHOUT_ARGS@;
    let words = wrapper_words();
    lemma_wrapper_told_marks();
    let piece = template.subrange(332, 691);
    let told = filled(piece, parts);
    assert(piece.skip(0) =~= piece);
    let done0 = Seq::<char>::empty();
    assert(told =~= done0 + filled(piece.skip(0), parts));
    assert(piece.subrange(0, 37) =~= template.subrange(332, 369));
    lemma_filled_from(piece, 0, words[3], 'd', parts, done0, told);
    let done1 = words[3] + parts[3];
    assert(done0 + words[3] + parts[3] =~= done1);
    assert(piece.subrange(39, 41) =~= template.subrange(371, 373));
    lemma_filled_from(piece, 39, words[4], 'e', parts, done1, told);
    let done2 = done1 + words[4] + parts[4];
    assert(piece.subrange(43, 221) =~= template.subrange(375, 553));
    lemma_filled_from(piece, 43, words[5], 'f', parts, done2, told);
    let done3 = done2 + words[5] + parts[5];
    assert(piece.subrange(223, 225) =~= template.subrange(555, 557));
    lemma_filled_from(piece, 223, words[6], 'b', parts, done3, told);
    let done4 = done3 + words[6] + parts[1];
    assert(piece.subrange(227, 292) =~= template.subrange(559, 624));
    lemma_filled_from(piece, 227, words[7], 'g', parts, done4, told);
    let done5 = done4 + words[7] + parts[6];
    assert(piece.subrange(294, 359) =~= template.subrange(626, 691));
    lemma_filled_last(piece, 294, words[8], parts, done5, told);
}

/// The text of the template, with its holes filled.
pub proof fn lemma_wrapper_told(parts: Seq<Seq<char>>)
    requires
        parts.len() == 7,
    ensures
        tells(
            filled(WRAPPER_WITHOUT_ARGS@, parts),
            seq![
                parts[0] + "\n#[inline(always)]\npub fn "@ + parts[1] + "<'a>(\n    __program_id: &'a anchor_lang::Address,\n    __cursor: &'a mut anchor_lang::AccountCursor,\n    __ix_data: &'a [u8],\n    __num_accounts: usize,\n) -> u64 {\n    #[cfg(not(feature = \"no-log-ix-name\"))]\n    anchor_lang::msg!("@ + parts[2] + ");\n\n    #[inline(always)]\n    fn __anchor_assert_no_ix_args(_: ()) {}\n\n"@,
                "    match anchor_lang::run_handler::<"@ + parts[3] + ", "@ + parts[4] + ">(\n        __program_id,\n        __cursor,\n        __ix_data,\n        __num_accounts,\n        |__ctx, __ix_args| {\n            __anchor_assert_no_ix_args(__ix_args);\n            "@ + parts[5] + "::"@ + parts[1] + "(__ctx)\n        },\n    ) {\n        Ok(__result) => {\n            "@ + parts[6] + "\n            0\n        },\n        Err(__e) => __e.into(),\n    }\n}"@,
            ],
        ),
{
    let template = WRAPPER_WITHOUT_ARGS@;
    lemma_wrapper_told_marks();
    lemma_wrapper_told_0(parts);
    let piece0 = template.subrange(0, 332);
    lemma_wrapper_told_1(parts);
    let piece1 = template.subrange(332, 691);
    let at = seq![0int, 332int];
    let pieces = seq![piece0, piece1];
    assert(pieces_stand(template, at, pieces));
    lemma_filled_tells(template, parts, at, pieces);
    let told = pieces.map_values(|piece: Seq<char>| filled(piece, parts));
    assert(told =~= seq![told[0], told[1]]);
}

spec fn wrapper_with_args_words() -> Seq<Seq<char>> {
    seq!["\n#[inline(always)]\npub fn "@, "<'a>(\n    __program_id: &'a anchor_lang::Address,\n    __cursor: &'a mut anchor_lang::AccountCursor,\n    __ix_data: &'a [u8],\n    __num_accounts: usize,\n) -> u64 {\n    #[cfg(not(feature = \"no-log-ix-name\"))]\n    anchor_lang::msg!("@, ");\n\n"@, "    trait __AnchorIxArgCoerce<'ix> {\n        fn __coerce(self, __ix_data: &'ix [u8]) -> anchor_lang::Result<"@, ">;\n    }\n\n    impl<'ix, __AnchorIxArgs> __AnchorIxArgCoerce<'ix> for __AnchorIxArgs {\n        #[inline(always)]\n        fn __coerce(self, __ix_data: &'ix [u8]) -> anchor_lang::Result<"@, "> {\n            let _ = self;\n            "@, "\n            Ok(("@, "))\n        }\n    }\n\n"@, "    match anchor_lang::run_handler::<"@, ", "@, ">(\n        __program_id,\n        __cursor,\n        __ix_data,\n        __num_accounts,\n        |__ctx, __ix_args| {\n            let ("@, ") =\n                <_ as __AnchorIxArgCoerce<'a>>::__coerce(__ix_args, __ix_data)?;\n            "@, "::"@, "(__ctx, "@, ")\n        },\n    ) {\n        Ok(__result) => {\n            "@, "\n            0\n        },\n        Err(__e) => __e.into(),\n    }\n}"@]
}

proof fn lemma_wrapper_with_args_told_marks()
    ensures
        WRAPPER_WITH_ARGS@.len() == 1059,
        !in_hole(WRAPPER_WITH_ARGS@, 0),
        !in_hole(WRAPPER_WITH_ARGS@, 265),
        WRAPPER_WITH_ARGS@[0] == '@' && WRAPPER_WITH_ARGS@[1] == 'a',
        stands_at(WRAPPER_WITH_ARGS@, wrapper_with_args_words()[0], 2, 26),
        WRAPPER_WITH_ARGS@[28] == '@' && WRAPPER_WITH_ARGS@[29] == 'b',
        stands_at(WRAPPER_WITH_ARGS@, wrapper_with_args_words()[1], 30, 229),
        WRAPPER_WITH_ARGS@[259] == '@' && WRAPPER_WITH_ARGS@[260] == 'c',
        stands_at(WRAPPER_WITH_ARGS@, wrapper_with_args_words()[2], 261, 4),
        !in_hole(WRAPPER_WITH_ARGS@, 643),
        stands_at(WRAPPER_WITH_ARGS@, wrapper_with_args_words()[3], 265, 108),
        WRAPPER_WITH_ARGS@[373] == '@' && WRAPPER_WITH_ARGS@[374] == 'd',
        stands_at(WRAPPER_WITH_ARGS@, wrapper_with_args_words()[4], 375, 183),
        WRAPPER_WITH_ARGS@[558] == '@' && WRAPPER_WITH_ARGS@[559] == 'd',
        stands_at(WRAPPER_WITH_ARGS@, wrapper_with_args_words()[5], 560, 42),
        WRAPPER_WITH_ARGS@[602] == '@' && WRAPPER_WITH_ARGS@[603] == 'e',
        stands_at(WRAPPER_WITH_ARGS@, wrapper_with_args_words()[6], 604, 17),
        WRAPPER_WITH_ARGS@[621] == '@' && WRAPPER_WITH_ARGS@[622] == 'f',
        stands_at(WRAPPER_WITH_ARGS@, wrapper_with_args_words()[7], 623, 20),
        !in_hole(WRAPPER_WITH_ARGS@, 1059),
        stands_at(WRAPPER_WITH_ARGS@, wrapper_with_args_words()[8], 643, 37),
        WRAPPER_WITH_ARGS@[680] == '@' && WRAPPER_WITH_ARGS@[681] == 'g',
        stands_at(WRAPPER_WITH_ARGS@, wrapper_with_args_words()[9], 682, 2),
        WRAPPER_WITH_ARGS@[684] == '@' && WRAPPER_WITH_ARGS@[685] == 'h',
        stands_at(WRAPPER_WITH_ARGS@, wrapper_with_args_words()[10], 686, 132),
        WRAPPER_WITH_ARGS@[818] == '@' && WRAPPER_WITH_ARGS@[819] == 'f',
        stands_at(WRAPPER_WITH_ARGS@, wrapper_with_args_words()[11], 820, 97),
        WRAPPER_WITH_ARGS@[917] == '@' && WRAPPER_WITH_ARGS@[918] == 'i',
        stands_at(WRAPPER_WITH_ARGS@, wrapper_with_args_words()[12], 919, 2),
        WRAPPER_WITH_ARGS@[921] == '@' && WRAPPER_WITH_ARGS@[922] == 'b',
        stands_at(WRAPPER_WITH_ARGS@, wrapper_with_args_words()[13], 923, 8),
        WRAPPER_WITH_ARGS@[931] == '@' && WRAPPER_WITH_ARGS@[932] == 'j',
        stands_at(WRAPPER_WITH_ARGS@, wrapper_with_args_words()[14], 933, 59),
        WRAPPER_WITH_ARGS@[992] == '@' && WRAPPER_WITH_ARGS@[993] == 'k',
        stands_at(WRAPPER_WITH_ARGS@, wrapper_with_args_words()[15], 994, 65),
{
    let template = WRAPPER_WITH_ARGS@;
    let words = wrapper_with_args_words();
    reveal_strlit("@a\n#[inline(always)]\npub fn @b<'a>(\n    __program_id: &'a anchor_lang::Address,\n    __cursor: &'a mut anchor_lang::AccountCursor,\n    __ix_data: &'a [u8],\n    __num_accounts: usize,\n) -> u64 {\n    #[cfg(not(feature = \"no-log-ix-name\"))]\n    anchor_lang::msg!(@c);\n\n    trait __AnchorIxArgCoerce<'ix> {\n        fn __coerce(self, __ix_data: &'ix [u8]) -> anchor_lang::Result<@d>;\n    }\n\n    impl<'ix, __AnchorIxArgs> __AnchorIxArgCoerce<'ix> for __AnchorIxArgs {\n        #[inline(always)]\n        fn __coerce(self, __ix_data: &'ix [u8]) -> anchor_lang::Result<@d> {\n            let _ = self;\n            @e\n            Ok((@f))\n        }\n    }\n\n    match anchor_lang::run_handler::<@g, @h>(\n        __program_id,\n        __cursor,\n        __ix_data,\n        __num_accounts,\n        |__ctx, __ix_args| {\n            let (@f) =\n                <_ as __AnchorIxArgCoerce<'a>>::__coerce(__ix_args, __ix_data)?;\n            @i::@b(__ctx, @j)\n        },\n    ) {\n        Ok(__result) => {\n            @k\n            0\n        },\n        Err(__e) => __e.into(),\n    }\n}");
    assert(stands_at(template, words[0], 2, 26)) by {
        reveal_strlit("\n#[inline(always)]\npub fn ");
        assert(template.subrange(2, 28) =~= words[0]);
    }
    assert(stands_at(template, words[1], 30, 229)) by {
        reveal_strlit("<'a>(\n    __program_id: &'a anchor_lang::Address,\n    __cursor: &'a mut anchor_lang::AccountCursor,\n    __ix_data: &'a [u8],\n    __num_accounts: usize,\n) -> u64 {\n    #[cfg(not(feature = \"no-log-ix-name\"))]\n    anchor_lang::msg!(");
        assert(template.subrange(30, 259) =~= words[1]);
    }
    assert(stands_at(template, words[2], 261, 4)) by {
        reveal_strlit(");\n\n");
        assert(template.subrange(261, 265) =~= words[2]);
    }
    assert(stands_at(template, words[3], 265, 108)) by {
        reveal_strlit("    trait __AnchorIxArgCoerce<'ix> {\n        fn __coerce(self, __ix_data: &'ix [u8]) -> anchor_lang::Result<");
        assert(template.subrange(265, 373) =~= words[3]);
    }
    assert(stands_at(template, words[4], 375, 183)) by {
        reveal_strlit(">;\n    }\n\n    impl<'ix, __AnchorIxArgs> __AnchorIxArgCoerce<'ix> for __AnchorIxArgs {\n        #[inline(always)]\n        fn __coerce(self, __ix_data: &'ix [u8]) -> anchor_lang::Result<");
        assert(template.subrange(375, 558) =~= words[4]);
    }
    assert(stands_at(template, words[5], 560, 42)) by {
        reveal_strlit("> {\n            let _ = self;\n            ");
        assert(template.subrange(560, 602) =~= words[5]);
    }
    assert(stands_at(template, words[6], 604, 17)) by {
        reveal_strlit("\n            Ok((");
        assert(template.subrange(604, 621) =~= words[6]);
    }
    assert(stands_at(template, words[7], 623, 20)) by {
        reveal_strlit("))\n        }\n    }\n\n");
        assert(template.subrange(623, 643) =~= words[7]);
    }
    assert(stands_at(template, words[8], 643, 37)) by {
        reveal_strlit("    match anchor_lang::run_handler::<");
        assert(template.subrange(643, 680) =~= words[8]);
    }
    assert(stands_at(template, words[9], 682, 2)) by {
        reveal_strlit(", ");
        assert(template.subrange(682, 684) =~= words[9]);
    }
    assert(stands_at(template, words[10], 686, 132)) by {
        reveal_strlit(">(\n        __program_id,\n        __cursor,\n        __ix_data,\n        __num_accounts,\n        |__ctx, __ix_args| {\n            let (");
        assert(template.subrange(686, 818) =~= words[10]);
    }
    assert(stands_at(template, words[11], 820, 97)) by {
        reveal_strlit(") =\n                <_ as __AnchorIxArgCoerce<'a>>::__coerce(__ix_args, __ix_data)?;\n            ");
        assert(template.subrange(820, 917) =~= words[11]);
    }
    assert(stands_at(template, words[12], 919, 2)) by {
        reveal_strlit("::");
        assert(template.subrange(919, 921) =~= words[12]);
    }
    assert(stands_at(template, words[13], 923, 8)) by {
        reveal_strlit("(__ctx, ");
        assert(template.subrange(923, 931) =~= words[13]);
    }
    assert(stands_at(template, words[14], 933, 59)) by {
        reveal_strlit(")\n        },\n    ) {\n        Ok(__result) => {\n            ");
        assert(template.subrange(933, 992) =~= words[14]);
    }
    assert(stands_at(template, words[15], 994, 65)) by {
        reveal_strlit("\n            0\n        },\n        Err(__e) => __e.into(),\n    }\n}");
        assert(template.subrange(994, 1059) =~= words[15]);
    }
}

proof fn lemma_wrapper_with_args_told_0(parts: Seq<Seq<char>>)
    requires
        parts.len() == 11,
    ensures
        filled(WRAPPER_WITH_ARGS@.subrange(0, 265), parts) == parts[0] + "\n#[inline(always)]\npub fn "@ + parts[1] + "<'a>(\n    __program_id: &'a anchor_lang::Address,\n    __cursor: &'a mut anchor_lang::AccountCursor,\n    __ix_data: &'a [u8],\n    __num_accounts: usize,\n) -> u64 {\n    #[cfg(not(feature = \"no-log-ix-name\"))]\n    anchor_lang::msg!("@ + parts[2] + ");\n\n"@,
{
    let template = WRAPPER_WITH_ARGS@;
    let words = wrapper_with_args_words();
    lemma_wrapper_with_args_told_marks();
    let piece = template.subrange(0, 265);
    let told = filled(piece, parts);
    assert(piece.skip(0) =~= piece);
    let done0 = Seq::<char>::empty();
    assert(told =~= done0 + filled(piece.skip(0), parts));
    assert(piece.subrange(0, 0) =~= Seq::<char>::empty());
    lemma_filled_from(piece, 0, Seq::<char>::empty(), 'a', parts, done0, told);
    let done1 = parts[0];
    assert(done0 + Seq::<char>::empty() + parts[0] =~= done1);
    assert(piece.subrange(2, 28) =~= template.subrange(2, 28));
    lemma_filled_from(piece, 2, words[0], 'b', parts, done1, told);
    let done2 = done1 + words[0] + parts[1];
    assert(piece.subrange(30, 259) =~= template.subrange(30, 259));
    lemma_filled_from(piece, 30, words[1], 'c', parts, done2, told);
    let done3 = done2 + words[1] + parts[2];
    assert(piece.subrange(261, 265) =~= template.subrange(261, 265));
    lemma_filled_last(piece, 261, words[2], parts, done3, told);
}

proof fn lemma_wrapper_with_args_told_1(parts: Seq<Seq<char>>)
    requires
        parts.len() == 11,
    ensures
        filled(WRAPPER_WITH_ARGS@.subrange(265, 643), parts) == "    trait __AnchorIxArgCoerce<'ix> {\n        fn __coerce(self, __ix_data: &'ix [u8]) -> anchor_lang::Result<"@ + parts[3] + ">;\n    }\n\n    impl<'ix, __AnchorIxArgs> __AnchorIxArgCoerce<'ix> for __AnchorIxArgs {\n        #[inline(always)]\n        fn __coerce(self, __ix_data: &'ix [u8]) -> anchor_lang::Result<"@ + parts[3] + "> {\n            let _ = self;\n            "@ + parts[4] + "\n            Ok(("@ + parts[5] + "))\n        }\n    }\n\n"@,
{
    let template = WRAPPER_WITH_ARGS@;
    let words = wrapper_with_args_words();
    lemma_wrapper_with_args_told_marks();
    let piece = template.subrange(265, 643);
    let told = filled(piece, parts);
    assert(piece.skip(0) =~= piece);
    let done0 = Seq::<char>::empty();
    assert(told =~= done0 + filled(piece.skip(0), parts));
    assert(piece.subrange(0, 108) =~= template.subrange(265, 373));
    lemma_filled_from(piece, 0, words[3], 'd', parts, done0, told);
    let done1 = words[3] + parts[3];
    assert(done0 + words[3] + parts[3] =~= done1);
    assert(piece.subrange(110, 293) =~= template.subrange(375, 558));
    lemma_filled_from(piece, 110, words[4], 'd', parts, done1, told);
    let done2 = done1 + words[4] + parts[3];
    assert(piece.subrange(295, 337) =~= template.subrange(560, 602));
    lemma_filled_from(piece, 295, words[5], 'e', parts, done2, told);
    let done3 = done2 + words[5] + parts[4];
    assert(piece.subrange(339, 356) =~= template.subrange(604, 621));
    lemma_filled_from(piece, 339, words[6], 'f', parts, done3, told);
    let done4 = done3 + words[6] + parts[5];
    assert(piece.subrange(358, 378) =~= template.subrange(623, 643));
    lemma_filled_last(piece, 358, words[7], parts, done4, told);
}

proof fn lemma_wrapper_with_args_told_2(parts: Seq<Seq<char>>)
    requires
        parts.len() == 11,
    ensures
        filled(WRAPPER_WITH_ARGS@.subrange(643, 1059), parts) == "    match anchor_lang::run_handler::<"@ + parts[6] + ", "@ + parts[7] + ">(\n        __program_id,\n        __cursor,\n        __ix_data,\n        __num_accounts,\n        |__ctx, __ix_args| {\n            let ("@ + parts[5] + ") =\n                <_ as __AnchorIxArgCoerce<'a>>::__coerce(__ix_args, __ix_data)?;\n            "@ + parts[8] + "::"@ + parts[1] + "(__ctx, "@ + parts[9] + ")\n        },\n    ) {\n        Ok(__result) => {\n            "@ + parts[10] + "\n            0\n        },\n        Err(__e) => __e.into(),\n    }\n}"@,
{
    let template = WRAPPER_WITH_ARGS@;
    let words = wrapper_with_args_words();
    lemma_wrapper_with_args_told_marks();
    let piece = template.subrange(643, 1059);
    let told = filled(piece, parts);
    assert(piece.skip(0) =~= piece);
    let done0 = Seq::<char>::empty();
    assert(told =~= done0 + filled(piece.skip(0), parts));
    assert(piece.subrange(0, 37) =~= template.subrange(643, 680));
    lemma_filled_from(piece, 0, words[8], 'g', parts, done0, told);
    let done1 = words[8] + parts[6];
    assert(done0 + words[8] + parts[6] =~= done1);
    assert(piece.subrange(39, 41) =~= template.subrange(682, 684));
    lemma_filled_from(piece, 39, words[9], 'h', parts, done1, told);
    let done2 = done1 + words[9] + parts[7];
    assert(piece.subrange(43, 175) =~= template.subrange(686, 818));
    lemma_filled_from(piece, 43, words[10], 'f', parts, done2, told);
    let done3 = done2 + words[10] + parts[5];
    assert(piece.subrange(177, 274) =~= template.subrange(820, 917));
    lemma_filled_from(piece, 177, words[11], 'i', parts, done3, told);
    let done4 = done3 + words[11] + parts[8];
    assert(piece.subrange(276, 278) =~= template.subrange(919, 921));
    lemma_filled_from(piece, 276, words[12], 'b', parts, done4, told);
    let done5 = done4 + words[12] + parts[1];
    assert(piece.subrange(280, 288) =~= template.subrange(923, 931));
    lemma_filled_from(piece, 280, words[13], 'j', parts, done5, told);
    let done6 = done5 + words[13] + parts[9];
    assert(piece.subrange(290, 349) =~= template.subrange(933, 992));
    lemma_filled_from(piece, 290, words[14], 'k', parts, done6, told);
    let done7 = done6 + words[14] + parts[10];
    assert(piece.subrange(351, 416) =~= template.subrange(994, 1059));
    lemma_filled_last(piece, 351, words[15], parts, done7, told);
}

/// The text of the template, with its holes filled.
pub proof fn lemma_wrapper_with_args_told(parts: Seq<Seq<char>>)
    requires
        parts.len() == 11,
    ensures
        tells(
            filled(WRAPPER_WITH_ARGS@, parts),
            seq![
                parts[0] + "\n#[inline(always)]\npub fn "@ + parts[1] + "<'a>(\n    __program_id: &'a anchor_lang::Address,\n    __cursor: &'a mut anchor_lang::AccountCursor,\n    __ix_data: &'a [u8],\n    __num_accounts: usize,\n) -> u64 {\n    #[cfg(not(feature = \"no-log-ix-name\"))]\n    anchor_lang::msg!("@ + parts[2] + ");\n\n"@,
                "    trait __AnchorIxArgCoerce<'ix> {\n        fn __coerce(self, __ix_data: &'ix [u8]) -> anchor_lang::Result<"@ + parts[3] + ">;\n    }\n\n    impl<'ix, __AnchorIxArgs> __AnchorIxArgCoerce<'ix> for __AnchorIxArgs {\n        #[inline(always)]\n        fn __coerce(self, __ix_data: &'ix [u8]) -> anchor_lang::Result<"@ + parts[3] + "> {\n            let _ = self;\n            "@ + parts[4] + "\n            Ok(("@ + parts[5] + "))\n        }\n    }\n\n"@,
                "    match anchor_lang::run_handler::<"@ + parts[6] + ", "@ + parts[7] + ">(\n        __program_id,\n        __cursor,\n        __ix_data,\n        __num_accounts,\n        |__ctx, __ix_args| {\n            let ("@ + parts[5] + ") =\n                <_ as __AnchorIxArgCoerce<'a>>::__coerce(__ix_args, __ix_data)?;\n            "@ + parts[8] + "::"@ + parts[1] + "(__ctx, "@ + parts[9] + ")\n        },\n    ) {\n        Ok(__result) => {\n            "@ + parts[10] + "\n            0\n        },\n        Err(__e) => __e.into(),\n    }\n}"@,
            ],
        ),
{
    let template = WRAPPER_WITH_ARGS@;
    lemma_wrapper_with_args_told_marks();
    lemma_wrapper_with_args_told_0(parts);
    let piece0 = template.subrange(0, 265);
    lemma_wrapper_with_args_told_1(parts);
    let piece1 = template.subrange(265, 643);
    lemma_wrapper_with_args_told_2(parts);
    let piece2 = template.subrange(643, 1059);
    let at = seq![0int, 265int, 643int];
    let pieces = seq![piece0, piece1, piece2];
    assert(pieces_stand(template, at, pieces));
    lemma_filled_tells(template, parts, at, pieces);
    let told = pieces.map_values(|piece: Seq<char>| filled(piece, parts));
    assert(told =~= seq![told[0], told[1], told[2]]);
}

spec fn cpi_wrapper_words() -> Seq<Seq<char>> {
    seq!["\npub fn "@, " "@, "(\n    __ctx: anchor_lang::CpiContext<'a, accounts::"@, "<'a>>,\n    "@, "\n) "@, " {\n"@, "    let __ix = super::instruction::"@, " {\n        "@, "\n    };\n    let __data = <\n        super::instruction::"@, "\n        as anchor_lang::InstructionData\n    >::data(&__ix);\n    __ctx.invoke(&__data)?;\n    "@, "\n}"@]
}

proof fn lemma_cpi_wrapper_told_marks()
    ensures
        CPI_WRAPPER@.len() == 296,
        !in_hole(CPI_WRAPPER@, 0),
        !in_hole(CPI_WRAPPER@, 89),
        CPI_WRAPPER@[0] == '@' && CPI_WRAPPER@[1] == 'a',
        stands_at(CPI_WRAPPER@, cpi_wrapper_words()[0], 2, 8),
        CPI_WRAPPER@[10] == '@' && CPI_WRAPPER@[11] == 'b',
        stands_at(CPI_WRAPPER@, cpi_wrapper_words()[1], 12, 1),
        CPI_WRAPPER@[13] == '@' && CPI_WRAPPER@[14] == 'c',
        stands_at(CPI_WRAPPER@, cpi_wrapper_words()[2], 15, 51),
        CPI_WRAPPER@[66] == '@' && CPI_WRAPPER@[67] == 'd',
        stands_at(CPI_WRAPPER@, cpi_wrapper_words()[3], 68, 11),
        CPI_WRAPPER@[79] == '@' && CPI_WRAPPER@[80] == 'e',
        stands_at(CPI_WRAPPER@, cpi_wrapper_words()[4], 81, 3),
        CPI_WRAPPER@[84] == '@' && CPI_WRAPPER@[85] == 'f',
        stands_at(CPI_WRAPPER@, cpi_wrapper_words()[5], 86, 3),
        !in_hole(CPI_WRAPPER@, 296),
        stands_at(CPI_WRAPPER@, cpi_wrapper_words()[6], 89, 35),
        CPI_WRAPPER@[124] == '@' && CPI_WRAPPER@[125] == 'g',
        stands_at(CPI_WRAPPER@, cpi_wrapper_words()[7], 126, 11),
        CPI_WRAPPER@[137] == '@' && CPI_WRAPPER@[138] == 'h',
        stands_at(CPI_WRAPPER@, cpi_wrapper_words()[8], 139, 55),
        CPI_WRAPPER@[194] == '@' && CPI_WRAPPER@[195] == 'g',
        stands_at(CPI_WRAPPER@, cpi_wrapper_words()[1], 196, 1),
        CPI_WRAPPER@[197] == '@' && CPI_WRAPPER@[198] == 'i',
        stands_at(CPI_WRAPPER@, cpi_wrapper_words()[9], 199, 93),
        CPI_WRAPPER@[292] == '@' && CPI_WRAPPER@[293] == 'j',
        stands_at(CPI_WRAPPER@, cpi_wrapper_words()[10], 294, 2),
{
    let template = CPI_WRAPPER@;
    let words = cpi_wrapper_words();
    reveal_strlit("@a\npub fn @b @c(\n    __ctx: anchor_lang::CpiContext<'a, accounts::@d<'a>>,\n    @e\n) @f {\n    let __ix = super::instruction::@g {\n        @h\n    };\n    let __data = <\n        super::instruction::@g @i\n        as anchor_lang::InstructionData\n    >::data(&__ix);\n    __ctx.invoke(&__data)?;\n    @j\n}");
    assert(stands_at(template, words[0], 2, 8)) by {
        reveal_strlit("\npub fn ");
        assert(template.subrange(2, 10) =~= words[0]);
    }
    assert(stands_at(template, words[1], 12, 1)) by {
        reveal_strlit(" ");
        assert(template.subrange(12, 13) =~= words[1]);
    }
    assert(stands_at(template, words[2], 15, 51)) by {
        reveal_strlit("(\n    __ctx: anchor_lang::CpiContext<'a, accounts::");
        assert(template.subrange(15, 66) =~= words[2]);
    }
    assert(stands_at(template, words[3], 68, 11)) by {
        reveal_strlit("<'a>>,\n    ");
        assert(template.subrange(68, 79) =~= words[3]);
    }
    assert(stands_at(template, words[4], 81, 3)) by {
        reveal_strlit("\n) ");
        assert(template.subrange(81, 84) =~= words[4]);
    }
    assert(stands_at(template, words[5], 86, 3)) by {
        reveal_strlit(" {\n");
        assert(template.subrange(86, 89) =~= words[5]);
    }
    assert(stands_at(template, words[6], 89, 35)) by {
        reveal_strlit("    let __ix = super::instruction::");
        assert(template.subrange(89, 124) =~= words[6]);
    }
    assert(stands_at(template, words[7], 126, 11)) by {
        reveal_strlit(" {\n        ");
        assert(template.subrange(126, 137) =~= words[7]);
    }
    assert(stands_at(template, words[8], 139, 55)) by {
        reveal_strlit("\n    };\n    let __data = <\n        super::instruction::");
        assert(template.subrange(139, 194) =~= words[8]);
    }
    assert(stands_at(template, words[1], 196, 1)) by {
        reveal_strlit(" ");
        assert(template.subrange(196, 197) =~= words[1]);
    }
    assert(stands_at(template, words[9], 199, 93)) by {
        reveal_strlit("\n        as anchor_lang::InstructionData\n    >::data(&__ix);\n    __ctx.invoke(&__data)?;\n    ");
        assert(template.subrange(199, 292) =~= words[9]);
    }
    assert(stands_at(template, words[10], 294, 2)) by {
        reveal_strlit("\n}");
        assert(template.subrange(294, 296) =~= words[10]);
    }
}

proof fn lemma_cpi_wrapper_told_0(parts: Seq<Seq<char>>)
    requires
        parts.len() == 10,
    ensures
        filled(CPI_WRAPPER@.subrange(0, 89), parts) == parts[0] + "\npub fn "@ + parts[1] + " "@ + parts[2] + "(\n    __ctx: anchor_lang::CpiContext<'a, accounts::"@ + parts[3] + "<'a>>,\n    "@ + parts[4] + "\n) "@ + parts[5] + " {\n"@,
{
    let template = CPI_WRAPPER@;
    let words = cpi_wrapper_words();
    lemma_cpi_wrapper_told_marks();
    let piece = template.subrange(0, 89);
    let told = filled(piece, parts);
    assert(piece.skip(0) =~= piece);
    let done0 = Seq::<char>::empty();
    assert(told =~= done0 + filled(piece.skip(0), parts));
    assert(piece.subrange(0, 0) =~= Seq::<char>::empty());
    lemma_filled_from(piece, 0, Seq::<char>::empty(), 'a', parts, done0, told);
    let done1 = parts[0];
    assert(done0 + Seq::<char>::empty() + parts[0] =~= done1);
    assert(piece.subrange(2, 10) =~= template.subrange(2, 10));
    lemma_filled_from(piece, 2, words[0], 'b', parts, done1, told);
    let done2 = done1 + words[0] + parts[1];
    assert(piece.subrange(12, 13) =~= template.subrange(12, 13));
    lemma_filled_from(piece, 12, words[1], 'c', parts, done2, told);
    let done3 = done2 + words[1] + parts[2];
    assert(piece.subrange(15, 66) =~= template.subrange(15, 66));
    lemma_filled_from(piece, 15, words[2], 'd', parts, done3, told);
    let done4 = done3 + words[2] + parts[3];
    assert(piece.subrange(68, 79) =~= template.subrange(68, 79));
    lemma_filled_from(piece, 68, words[3], 'e', parts, done4, told);
    let done5 = done4 + words[3] + parts[4];
    assert(piece.subrange(81, 84) =~= template.subrange(81, 84));
    lemma_filled_from(piece, 81, words[4], 'f', parts, done5, told);
    let done6 = done5 + words[4] + parts[5];
    assert(piece.subrange(86, 89) =~= template.subrange(86, 89));
    lemma_filled_last(piece, 86, words[5], parts, done6, told);
}

proof fn lemma_cpi_wrapper_told_1(parts: Seq<Seq<char>>)
    requires
        parts.len() == 10,
    ensures
        filled(CPI_WRAPPER@.subrange(89, 296), parts) == "    let __ix = super::instruction::"@ + parts[6] + " {\n        "@ + parts[7] + "\n    };\n    let __data = <\n        super::instruction::"@ + parts[6] + " "@ + parts[8] + "\n        as anchor_lang::InstructionData\n    >::data(&__ix);\n    __ctx.invoke(&__data)?;\n    "@ + parts[9] + "\n}"@,
{
    let template = CPI_WRAPPER@;
    let words = cpi_wrapper_words();
    lemma_cpi_wrapper_told_marks();
    let piece = template.subrange(89, 296);
    let told = filled(piece, parts);
    assert(piece.skip(0) =~= piece);
    let done0 = Seq::<char>::empty();
    assert(told =~= done0 + filled(piece.skip(0), parts));
    assert(piece.subrange(0, 35) =~= template.subrange(89, 124));
    lemma_filled_from(piece, 0, words[6], 'g', parts, done0, told);
    let done1 = words[6] + parts[6];
    assert(done0 + words[6] + parts[6] =~= done1);
    assert(piece.subrange(37, 48) =~= template.subrange(126, 137));
    lemma_filled_from(piece, 37, words[7], 'h', parts, done1, told);
    let done2 = done1 + words[7] + parts[7];
    assert(piece.subrange(50, 105) =~= template.subrange(139, 194));
    lemma_filled_from(piece, 50, words[8], 'g', parts, done2, told);
    let done3 = done2 + words[8] + parts[6];
    assert(piece.subrange(107, 108) =~= template.subrange(196, 197));
    lemma_filled_from(piece, 107, words[1], 'i', parts, done3, told);
    let done4 = done3 + words[1] + parts[8];
    assert(piece.subrange(110, 203) =~= template.subrange(199, 292));
    lemma_filled_from(piece, 110, words[9], 'j', parts, done4, told);
    let done5 = done4 + words[9] + parts[9];
    assert(piece.subrange(205, 207) =~= template.subrange(294, 296));
    lemma_filled_last(piece, 205, words[10], parts, done5, told);
}

/// The text of the template, with its holes filled.
pub proof fn lemma_cpi_wrapper_told(parts: Seq<Seq<char>>)
    requires
        parts.len() == 10,
    ensures
        tells(
            filled(CPI_WRAPPER@, parts),
            seq![
                parts[0] + "\npub fn "@ + parts[1] + " "@ + parts[2] + "(\n    __ctx: anchor_lang::CpiContext<'a, accounts::"@ + parts[3] + "<'a>>,\n    "@ + parts[4] + "\n) "@ + parts[5] + " {\n"@,
                "    let __ix = super::instruction::"@ + parts[6] + " {\n        "@ + parts[7] + "\n    };\n    let __data = <\n        super::instruction::"@ + parts[6] + " "@ + parts[8] + "\n        as anchor_lang::InstructionData\n    >::data(&__ix);\n    __ctx.invoke(&__data)?;\n    "@ + parts[9] + "\n}"@,
            ],
        ),
{
    let template = CPI_WRAPPER@;
    lemma_cpi_wrapper_told_marks();
    lemma_cpi_wrapper_told_0(parts);
    let piece0 = template.subrange(0, 89);
    lemma_cpi_wrapper_told_1(parts);
    let piece1 = template.subrange(89, 296);
    let at = seq![0int, 89int];
    let pieces = seq![piece0, piece1];
    assert(pieces_stand(template, at, pieces));
    lemma_filled_tells(template, parts, at, pieces);
    let told = pieces.map_values(|piece: Seq<char>| filled(piece, parts));
    assert(told =~= seq![told[0], told[1]]);
}

spec fn instruction_words() -> Seq<Seq<char>> {
    seq!["\n#[derive(anchor_lang::AnchorSerialize)]\npub struct "@, " "@, " {\n    "@, "\n}\n"@, "\nimpl "@, " anchor_lang::Discriminator for "@, " {\n    const DISCRIMINATOR: &'static [u8] = &["@, "];\n}\n"@, " anchor_lang::InstructionData for "@, " {\n    fn data(&self) -> alloc::vec::Vec<u8> {\n        let mut data = alloc::vec::Vec::with_capacity(256);\n        data.extend_from_slice(Self::DISCRIMINATOR);\n        anchor_lang::wincode::config::serialize_into(\n            &mut data,\n            self,\n            anchor_lang::BORSH_CONFIG,\n        )\n            .expect(\"instruction serialization failed\");\n        data\n    }\n}\n"@, " {\n    pub fn to_instruction(\n        self,\n        accounts: impl anchor_lang::ToAccountMetas,\n    ) -> anchor_lang::solana_program::instruction::Instruction {\n        anchor_lang::solana_program::instruction::Instruction::new_with_bytes(\n            "@, ",\n            &<Self as anchor_lang::InstructionData>::data(&self),\n            accounts.to_account_metas(None),\n        )\n    }\n}"@]
}

proof fn lemma_instruction_told_marks()
    ensures
        INSTRUCTION_STRUCT@.len() == 1002,
        !in_hole(INSTRUCTION_STRUCT@, 0),
        !in_hole(INSTRUCTION_STRUCT@, 171),
        INSTRUCTION_STRUCT@[0] == '@' && INSTRUCTION_STRUCT@[1] == 'a',
        stands_at(INSTRUCTION_STRUCT@, instruction_words()[0], 2, 52),
        INSTRUCTION_STRUCT@[54] == '@' && INSTRUCTION_STRUCT@[55] == 'b',
        stands_at(INSTRUCTION_STRUCT@, instruction_words()[1], 56, 1),
        INSTRUCTION_STRUCT@[57] == '@' && INSTRUCTION_STRUCT@[58] == 'c',
        stands_at(INSTRUCTION_STRUCT@, instruction_words()[2], 59, 7),
        INSTRUCTION_STRUCT@[66] == '@' && INSTRUCTION_STRUCT@[67] == 'd',
        stands_at(INSTRUCTION_STRUCT@, instruction_words()[3], 68, 3),
        INSTRUCTION_STRUCT@[71] == '@' && INSTRUCTION_STRUCT@[72] == 'a',
        stands_at(INSTRUCTION_STRUCT@, instruction_words()[4], 73, 6),
        INSTRUCTION_STRUCT@[79] == '@' && INSTRUCTION_STRUCT@[80] == 'c',
        stands_at(INSTRUCTION_STRUCT@, instruction_words()[5], 81, 32),
        INSTRUCTION_STRUCT@[113] == '@' && INSTRUCTION_STRUCT@[114] == 'b',
        stands_at(INSTRUCTION_STRUCT@, instruction_words()[1], 115, 1),
        INSTRUCTION_STRUCT@[116] == '@' && INSTRUCTION_STRUCT@[117] == 'e',
        stands_at(INSTRUCTION_STRUCT@, instruction_words()[6], 118, 46),
        INSTRUCTION_STRUCT@[164] == '@' && INSTRUCTION_STRUCT@[165] == 'f',
        stands_at(INSTRUCTION_STRUCT@, instruction_words()[7], 166, 5),
        !in_hole(INSTRUCTION_STRUCT@, 602),
        INSTRUCTION_STRUCT@[171] == '@' && INSTRUCTION_STRUCT@[172] == 'a',
        stands_at(INSTRUCTION_STRUCT@, instruction_words()[4], 173, 6),
        INSTRUCTION_STRUCT@[179] == '@' && INSTRUCTION_STRUCT@[180] == 'c',
        stands_at(INSTRUCTION_STRUCT@, instruction_words()[8], 181, 34),
        INSTRUCTION_STRUCT@[215] == '@' && INSTRUCTION_STRUCT@[216] == 'b',
        stands_at(INSTRUCTION_STRUCT@, instruction_words()[1], 217, 1),
        INSTRUCTION_STRUCT@[218] == '@' && INSTRUCTION_STRUCT@[219] == 'e',
        stands_at(INSTRUCTION_STRUCT@, instruction_words()[9], 220, 382),
        !in_hole(INSTRUCTION_STRUCT@, 1002),
        INSTRUCTION_STRUCT@[602] == '@' && INSTRUCTION_STRUCT@[603] == 'a',
        stands_at(INSTRUCTION_STRUCT@, instruction_words()[4], 604, 6),
        INSTRUCTION_STRUCT@[610] == '@' && INSTRUCTION_STRUCT@[611] == 'c',
        stands_at(INSTRUCTION_STRUCT@, instruction_words()[1], 612, 1),
        INSTRUCTION_STRUCT@[613] == '@' && INSTRUCTION_STRUCT@[614] == 'b',
        stands_at(INSTRUCTION_STRUCT@, instruction_words()[1], 615, 1),
        INSTRUCTION_STRUCT@[616] == '@' && INSTRUCTION_STRUCT@[617] == 'e',
        stands_at(INSTRUCTION_STRUCT@, instruction_words()[10], 618, 252),
        INSTRUCTION_STRUCT@[870] == '@' && INSTRUCTION_STRUCT@[871] == 'g',
        stands_at(INSTRUCTION_STRUCT@, instruction_words()[11], 872, 130),
{
    let template = INSTRUCTION_STRUCT@;
    let words = instruction_words();
    reveal_strlit("@a\n#[derive(anchor_lang::AnchorSerialize)]\npub struct @b @c {\n    @d\n}\n@a\nimpl @c anchor_lang::Discriminator for @b @e {\n    const DISCRIMINATOR: &'static [u8] = &[@f];\n}\n@a\nimpl @c anchor_lang::InstructionData for @b @e {\n    fn data(&self) -> alloc::vec::Vec<u8> {\n        let mut data = alloc::vec::Vec::with_capacity(256);\n        data.extend_from_slice(Self::DISCRIMINATOR);\n        anchor_lang::wincode::config::serialize_into(\n            &mut data,\n            self,\n            anchor_lang::BORSH_CONFIG,\n        )\n            .expect(\"instruction serialization failed\");\n        data\n    }\n}\n@a\nimpl @c @b @e {\n    pub fn to_instruction(\n        self,\n        accounts: impl anchor_lang::ToAccountMetas,\n    ) -> anchor_lang::solana_program::instruction::Instruction {\n        anchor_lang::solana_program::instruction::Instruction::new_with_bytes(\n            @g,\n            &<Self as anchor_lang::InstructionData>::data(&self),\n            accounts.to_account_metas(None),\n        )\n    }\n}");
    assert(stands_at(template, words[0], 2, 52)) by {
        reveal_strlit("\n#[derive(anchor_lang::AnchorSerialize)]\npub struct ");
        assert(template.subrange(2, 54) =~= words[0]);
    }
    assert(stands_at(template, words[1], 56, 1)) by {
        reveal_strlit(" ");
        assert(template.subrange(56, 57) =~= words[1]);
    }
    assert(stands_at(template, words[2], 59, 7)) by {
        reveal_strlit(" {\n    ");
        assert(template.subrange(59, 66) =~= words[2]);
    }
    assert(stands_at(template, words[3], 68, 3)) by {
        reveal_strlit("\n}\n");
        assert(template.subrange(68, 71) =~= words[3]);
    }
    assert(stands_at(template, words[4], 73, 6)) by {
        reveal_strlit("\nimpl ");
        assert(template.subrange(73, 79) =~= words[4]);
    }
    assert(stands_at(template, words[5], 81, 32)) by {
        reveal_strlit(" anchor_lang::Discriminator for ");
        assert(template.subrange(81, 113) =~= words[5]);
    }
    assert(stands_at(template, words[1], 115, 1)) by {
        reveal_strlit(" ");
        assert(template.subrange(115, 116) =~= words[1]);
    }
    assert(stands_at(template, words[6], 118, 46)) by {
        reveal_strlit(" {\n    const DISCRIMINATOR: &'static [u8] = &[");
        assert(template.subrange(118, 164) =~= words[6]);
    }
    assert(stands_at(template, words[7], 166, 5)) by {
        reveal_strlit("];\n}\n");
        assert(template.subrange(166, 171) =~= words[7]);
    }
    assert(stands_at(template, words[4], 173, 6)) by {
        reveal_strlit("\nimpl ");
        assert(template.subrange(173, 179) =~= words[4]);
    }
    assert(stands_at(template, words[8], 181, 34)) by {
        reveal_strlit(" anchor_lang::InstructionData for ");
        assert(template.subrange(181, 215) =~= words[8]);
    }
    assert(stands_at(template, words[1], 217, 1)) by {
        reveal_strlit(" ");
        assert(template.subrange(217, 218) =~= words[1]);
    }
    assert(stands_at(template, words[9], 220, 382)) by {
        reveal_strlit(" {\n    fn data(&self) -> alloc::vec::Vec<u8> {\n        let mut data = alloc::vec::Vec::with_capacity(256);\n        data.extend_from_slice(Self::DISCRIMINATOR);\n        anchor_lang::wincode::config::serialize_into(\n            &mut data,\n            self,\n            anchor_lang::BORSH_CONFIG,\n        )\n            .expect(\"instruction serialization failed\");\n        data\n    }\n}\n");
        assert(template.subrange(220, 602) =~= words[9]);
    }
    assert(stands_at(template, words[4], 604, 6)) by {
        reveal_strlit("\nimpl ");
        assert(template.subrange(604, 610) =~= words[4]);
    }
    assert(stands_at(template, words[1], 612, 1)) by {
        reveal_strlit(" ");
        assert(template.subrange(612, 613) =~= words[1]);
    }
    assert(stands_at(template, words[1], 615, 1)) by {
        reveal_strlit(" ");
        assert(template.subrange(615, 616) =~= words[1]);
    }
    assert(stands_at(template, words[10], 618, 252)) by {
        reveal_strlit(" {\n    pub fn to_instruction(\n        self,\n        accounts: impl anchor_lang::ToAccountMetas,\n    ) -> anchor_lang::solana_program::instruction::Instruction {\n        anchor_lang::solana_program::instruction::Instruction::new_with_bytes(\n            ");
        assert(template.subrange(618, 870) =~= words[10]);
    }
    assert(stands_at(template, words[11], 872, 130)) by {
        reveal_strlit(",\n            &<Self as anchor_lang::InstructionData>::data(&self),\n            accounts.to_account_metas(None),\n        )\n    }\n}");
        assert(template.subrange(872, 1002) =~= words[11]);
    }
}

proof fn lemma_instruction_told_0(parts: Seq<Seq<char>>)
    requires
        parts.len() == 7,
    ensures
        filled(INSTRUCTION_STRUCT@.subrange(0, 171), parts) == parts[0] + "\n#[derive(anchor_lang::AnchorSerialize)]\npub struct "@ + parts[1] + " "@ + parts[2] + " {\n    "@ + parts[3] + "\n}\n"@ + parts[0] + "\nimpl "@ + parts[2] + " anchor_lang::Discriminator for "@ + parts[1] + " "@ + parts[4] + " {\n    const DISCRIMINATOR: &'static [u8] = &["@ + parts[5] + "];\n}\n"@,
{
    let template = INSTRUCTION_STRUCT@;
    let words = instruction_words();
    lemma_instruction_told_marks();
    let piece = template.subrange(0, 171);
    let told = filled(piece, parts);
    assert(piece.skip(0) =~= piece);
    let done0 = Seq::<char>::empty();
    assert(told =~= done0 + filled(piece.skip(0), parts));
    assert(piece.subrange(0, 0) =~= Seq::<char>::empty());
    lemma_filled_from(piece, 0, Seq::<char>::empty(), 'a', parts, done0, told);
    let done1 = parts[0];
    assert(done0 + Seq::<char>::empty() + parts[0] =~= done1);
    assert(piece.subrange(2, 54) =~= template.subrange(2, 54));
    lemma_filled_from(piece, 2, words[0], 'b', parts, done1, told);
    let done2 = done1 + words[0] + parts[1];
    assert(piece.subrange(56, 57) =~= template.subrange(56, 57));
    lemma_filled_from(piece, 56, words[1], 'c', parts, done2, told);
    let done3 = done2 + words[1] + parts[2];
    assert(piece.subrange(59, 66) =~= template.subrange(59, 66));
    lemma_filled_from(piece, 59, words[2], 'd', parts, done3, told);
    let done4 = done3 + words[2] + parts[3];
    assert(piece.subrange(68, 71) =~= template.subrange(68, 71));
    lemma_filled_from(piece, 68, words[3], 'a', parts, done4, told);
    let done5 = done4 + words[3] + parts[0];
    assert(piece.subrange(73, 79) =~= template.subrange(73, 79));
    lemma_filled_from(piece, 73, words[4], 'c', parts, done5, told);
    let done6 = done5 + words[4] + parts[2];
    assert(piece.subrange(81, 113) =~= template.subrange(81, 113));
    lemma_filled_from(piece, 81, words[5], 'b', parts, done6, told);
    let done7 = done6 + words[5] + parts[1];
    assert(piece.subrange(115, 116) =~= template.subrange(115, 116));
    lemma_filled_from(piece, 115, words[1], 'e', parts, done7, told);
    let done8 = done7 + words[1] + parts[4];
    assert(piece.subrange(118, 164) =~= template.subrange(118, 164));
    lemma_filled_from(piece, 118, words[6], 'f', parts, done8, told);
    let done9 = done8 + words[6] + parts[5];
    assert(piece.subrange(166, 171) =~= template.subrange(166, 171));
    lemma_filled_last(piece, 166, words[7], parts, done9, told);
}

proof fn lemma_instruction_told_1(parts: Seq<Seq<char>>)
    requires
        parts.len() == 7,
    ensures
        filled(INSTRUCTION_STRUCT@.subrange(171, 602), parts) == parts[0] + "\nimpl "@ + parts[2] + " anchor_lang::InstructionData for "@ + parts[1] + " "@ + parts[4] + " {\n    fn data(&self) -> alloc::vec::Vec<u8> {\n        let mut data = alloc::vec::Vec::with_capacity(256);\n        data.extend_from_slice(Self::DISCRIMINATOR);\n        anchor_lang::wincode::config::serialize_into(\n            &mut data,\n            self,\n            anchor_lang::BORSH_CONFIG,\n        )\n            .expect(\"instruction serialization failed\");\n        data\n    }\n}\n"@,
{
    let template = INSTRUCTION_STRUCT@;
    let words = instruction_words();
    lemma_instruction_told_marks();
    let piece = template.subrange(171, 602);
    let told = filled(piece, parts);
    assert(piece.skip(0) =~= piece);
    let done0 = Seq::<char>::empty();
    assert(told =~= done0 + filled(piece.skip(0), parts));
    assert(piece.subrange(0, 0) =~= Seq::<char>::empty());
    lemma_filled_from(piece, 0, Seq::<char>::empty(), 'a', parts, done0, told);
    let done1 = parts[0];
    assert(done0 + Seq::<char>::empty() + parts[0] =~= done1);
    assert(piece.subrange(2, 8) =~= template.subrange(173, 179));
    lemma_filled_from(piece, 2, words[4], 'c', parts, done1, told);
    let done2 = done1 + words[4] + parts[2];
    assert(piece.subrange(10, 44) =~= template.subrange(181, 215));
    lemma_filled_from(piece, 10, words[8], 'b', parts, done2, told);
    let done3 = done2 + words[8] + parts[1];
    assert(piece.subrange(46, 47) =~= template.subrange(217, 218));
    lemma_filled_from(piece, 46, words[1], 'e', parts, done3, told);
    let done4 = done3 + words[1] + parts[4];
    assert(piece.subrange(49, 431) =~= template.subrange(220, 602));
    lemma_filled_last(piece, 49, words[9], parts, done4, told);
}

proof fn lemma_instruction_told_2(parts: Seq<Seq<char>>)
    requires
        parts.len() == 7,
    ensures
        filled(INSTRUCTION_STRUCT@.subrange(602, 1002), parts) == parts[0] + "\nimpl "@ + parts[2] + " "@ + parts[1] + " "@ + parts[4] + " {\n    pub fn to_instruction(\n        self,\n        accounts: impl anchor_lang::ToAccountMetas,\n    ) -> anchor_lang::solana_program::instruction::Instruction {\n        anchor_lang::solana_program::instruction::Instruction::new_with_bytes(\n            "@ + parts[6] + ",\n            &<Self as anchor_lang::InstructionData>::data(&self),\n            accounts.to_account_metas(None),\n        )\n    }\n}"@,
{
    let template = INSTRUCTION_STRUCT@;
    let words = instruction_words();
    lemma_instruction_told_marks();
    let piece = template.subrange(602, 1002);
    let told = filled(piece, parts);
    assert(piece.skip(0) =~= piece);
    let done0 = Seq::<char>::empty();
    assert(told =~= done0 + filled(piece.skip(0), parts));
    assert(piece.subrange(0, 0) =~= Seq::<char>::empty());
    lemma_filled_from(piece, 0, Seq::<char>::empty(), 'a', parts, done0, told);
    let done1 = parts[0];
    assert(done0 + Seq::<char>::empty() + parts[0] =~= done1);
    assert(piece.subrange(2, 8) =~= template.subrange(604, 610));
    lemma_filled_from(piece, 2, words[4], 'c', parts, done1, told);
    let done2 = done1 + words[4] + parts[2];
    assert(piece.subrange(10, 11) =~= template.subrange(612, 613));
    lemma_filled_from(piece, 10, words[1], 'b', parts, done2, told);
    let done3 = done2 + words[1] + parts[1];
    assert(piece.subrange(13, 14) =~= template.subrange(615, 616));
    lemma_filled_from(piece, 13, words[1], 'e', parts, done3, told);
    let done4 = done3 + words[1] + parts[4];
    assert(piece.subrange(16, 268) =~= template.subrange(618, 870));
    lemma_filled_from(piece, 16, words[10], 'g', parts, done4, told);
    let done5 = done4 + words[10] + parts[6];
    assert(piece.subrange(270, 400) =~= template.subrange(872, 1002));
    lemma_filled_last(piece, 270, words[11], parts, done5, told);
}

/// The text of the template, with its holes filled.
pub proof fn lemma_instruction_told(parts: Seq<Seq<char>>)
    requires
        parts.len() == 7,
    ensures
        tells(
            filled(INSTRUCTION_STRUCT@, parts),
            seq![
                parts[0] + "\n#[derive(anchor_lang::AnchorSerialize)]\npub struct "@ + parts[1] + " "@ + parts[2] + " {\n    "@ + parts[3] + "\n}\n"@ + parts[0] + "\nimpl "@ + parts[2] + " anchor_lang::Discriminator for "@ + parts[1] + " "@ + parts[4] + " {\n    const DISCRIMINATOR: &'static [u8] = &["@ + parts[5] + "];\n}\n"@,
                parts[0] + "\nimpl "@ + parts[2] + " anchor_lang::InstructionData for "@ + parts[1] + " "@ + parts[4] + " {\n    fn data(&self) -> alloc::vec::Vec<u8> {\n        let mut data = alloc::vec::Vec::with_capacity(256);\n        data.extend_from_slice(Self::DISCRIMINATOR);\n        anchor_lang::wincode::config::serialize_into(\n            &mut data,\n            self,\n            anchor_lang::BORSH_CONFIG,\n        )\n            .expect(\"instruction serialization failed\");\n        data\n    }\n}\n"@,
                parts[0] + "\nimpl "@ + parts[2] + " "@ + parts[1] + " "@ + parts[4] + " {\n    pub fn to_instruction(\n        self,\n        accounts: impl anchor_lang::ToAccountMetas,\n    ) -> anchor_lang::solana_program::instruction::Instruction {\n        anchor_lang::solana_program::instruction::Instruction::new_with_bytes(\n            "@ + parts[6] + ",\n            &<Self as anchor_lang::InstructionData>::data(&self),\n            accounts.to_account_metas(None),\n        )\n    }\n}"@,
            ],
        ),
{
    let template = INSTRUCTION_STRUCT@;
    lemma_instruction_told_marks();
    lemma_instruction_told_0(parts);
    let piece0 = template.subrange(0, 171);
    lemma_instruction_told_1(parts);
    let piece1 = template.subrange(171, 602);
    lemma_instruction_told_2(parts);
    let piece2 = template.subrange(602, 1002);
    let at = seq![0int, 171int, 602int];
    let pieces = seq![piece0, piece1, piece2];
    assert(pieces_stand(template, at, pieces));
    lemma_filled_tells(template, parts, at, pieces);
    let told = pieces.map_values(|piece: Seq<char>| filled(piece, parts));
    assert(told =~= seq![told[0], told[1], told[2]]);
}

spec fn dispatch_byte_words() -> Seq<Seq<char>> {
    seq!["\nif __ix_data_len >= 1 && *__ix_data_ptr == "@, " {\n    let __ix_data: &[u8] =\n        ::core::slice::from_raw_parts(__ix_data_ptr.add(1), __ix_data_len - 1);\n    return __handlers::"@, "(__program_id, &mut __cursor, __ix_data, __num);\n}"@]
}

proof fn lemma_dispatch_byte_text_marks()
    ensures
        DISPATCH_BYTE@.len() == 233,
        DISPATCH_BYTE@[0] == '@' && DISPATCH_BYTE@[1] == 'a',
        stands_at(DISPATCH_BYTE@, dispatch_byte_words()[0], 2, 44),
        DISPATCH_BYTE@[46] == '@' && DISPATCH_BYTE@[47] == 'b',
        stands_at(DISPATCH_BYTE@, dispatch_byte_words()[1], 48, 133),
        DISPATCH_BYTE@[181] == '@' && DISPATCH_BYTE@[182] == 'c',
        stands_at(DISPATCH_BYTE@, dispatch_byte_words()[2], 183, 50),
{
    let template = DISPATCH_BYTE@;
    let words = dispatch_byte_words();
    reveal_strlit("@a\nif __ix_data_len >= 1 && *__ix_data_ptr == @b {\n    let __ix_data: &[u8] =\n        ::core::slice::from_raw_parts(__ix_data_ptr.add(1), __ix_data_len - 1);\n    return __handlers::@c(__program_id, &mut __cursor, __ix_data, __num);\n}");
    assert(stands_at(template, words[0], 2, 44)) by {
        reveal_strlit("\nif __ix_data_len >= 1 && *__ix_data_ptr == ");
        assert(template.subrange(2, 46) =~= words[0]);
    }
    assert(stands_at(template, words[1], 48, 133)) by {
        reveal_strlit(" {\n    let __ix_data: &[u8] =\n        ::core::slice::from_raw_parts(__ix_data_ptr.add(1), __ix_data_len - 1);\n    return __handlers::");
        assert(template.subrange(48, 181) =~= words[1]);
    }
    assert(stands_at(template, words[2], 183, 50)) by {
        reveal_strlit("(__program_id, &mut __cursor, __ix_data, __num);\n}");
        assert(template.subrange(183, 233) =~= words[2]);
    }
}

/// The text of the template, with its holes filled.
pub proof fn lemma_dispatch_byte_text(parts: Seq<Seq<char>>)
    requires
        parts.len() == 3,
    ensures
        filled(DISPATCH_BYTE@, parts) == parts[0] + "\nif __ix_data_len >= 1 && *__ix_data_ptr == "@ + parts[1] + " {\n    let __ix_data: &[u8] =\n        ::core::slice::from_raw_parts(__ix_data_ptr.add(1), __ix_data_len - 1);\n    return __handlers::"@ + parts[2] + "(__program_id, &mut __cursor, __ix_data, __num);\n}"@,
{
    let template = DISPATCH_BYTE@;
    let words = dispatch_byte_words();
    lemma_dispatch_byte_text_marks();
    let told = filled(template, parts);
    assert(template.skip(0) =~= template);
    let done0 = Seq::<char>::empty();
    assert(told =~= done0 + filled(template.skip(0), parts));
    assert(template.subrange(0, 0) =~= Seq::<char>::empty());
    lemma_filled_from(template, 0, Seq::<char>::empty(), 'a', parts, done0, told);
    let done1 = parts[0];
    assert(done0 + Seq::<char>::empty() + parts[0] =~= done1);
    lemma_filled_from(template, 2, words[0], 'b', parts, done1, told);
    let done2 = done1 + words[0] + parts[1];
    lemma_filled_from(template, 48, words[1], 'c', parts, done2, told);
    let done3 = done2 + words[1] + parts[2];
    lemma_filled_last(template, 183, words[2], parts, done3, told);
}

spec fn dispatch_word_words() -> Seq<Seq<char>> {
    seq!["\nif __ix_data_len >= 8\n    && u64::from_le_bytes(*(__ix_data_ptr as *const [u8; 8])) == "@, "\n{\n    let __ix_data: &[u8] =\n        ::core::slice::from_raw_parts(__ix_data_ptr.add(8), __ix_data_len - 8);\n    return __handlers::"@, "(__program_id, &mut __cursor, __ix_data, __num);\n}"@]
}

proof fn lemma_dispatch_word_text_marks()
    ensures
        DISPATCH_WORD@.len() == 277,
        DISPATCH_WORD@[0] == '@' && DISPATCH_WORD@[1] == 'a',
        stands_at(DISPATCH_WORD@, dispatch_word_words()[0], 2, 88),
        DISPATCH_WORD@[90] == '@' && DISPATCH_WORD@[91] == 'b',
        stands_at(DISPATCH_WORD@, dispatch_word_words()[1], 92, 133),
        DISPATCH_WORD@[225] == '@' && DISPATCH_WORD@[226] == 'c',
        stands_at(DISPATCH_WORD@, dispatch_word_words()[2], 227, 50),
{
    let template = DISPATCH_WORD@;
    let words = dispatch_word_words();
    reveal_strlit("@a\nif __ix_data_len >= 8\n    && u64::from_le_bytes(*(__ix_data_ptr as *const [u8; 8])) == @b\n{\n    let __ix_data: &[u8] =\n        ::core::slice::from_raw_parts(__ix_data_ptr.add(8), __ix_data_len - 8);\n    return __handlers::@c(__program_id, &mut __cursor, __ix_data, __num);\n}");
    assert(stands_at(template, words[0], 2, 88)) by {
        reveal_strlit("\nif __ix_data_len >= 8\n    && u64::from_le_bytes(*(__ix_data_ptr as *const [u8; 8])) == ");
        assert(template.subrange(2, 90) =~= words[0]);
    }
    assert(stands_at(template, words[1], 92, 133)) by {
        reveal_strlit("\n{\n    let __ix_data: &[u8] =\n        ::core::slice::from_raw_parts(__ix_data_ptr.add(8), __ix_data_len - 8);\n    return __handlers::");
        assert(template.subrange(92, 225) =~= words[1]);
    }
    assert(stands_at(template, words[2], 227, 50)) by {
        reveal_strlit("(__program_id, &mut __cursor, __ix_data, __num);\n}");
        assert(template.subrange(227, 277) =~= words[2]);
    }
}

/// The text of the template, with its holes filled.
pub proof fn lemma_dispatch_word_text(parts: Seq<Seq<char>>)
    requires
        parts.len() == 3,
    ensures
        filled(DISPATCH_WORD@, parts) == parts[0] + "\nif __ix_data_len >= 8\n    && u64::from_le_bytes(*(__ix_data_ptr as *const [u8; 8])) == "@ + parts[1] + "\n{\n    let __ix_data: &[u8] =\n        ::core::slice::from_raw_parts(__ix_data_ptr.add(8), __ix_data_len - 8);\n    return __handlers::"@ + parts[2] + "(__program_id, &mut __cursor, __ix_data, __num);\n}"@,
{
    let template = DISPATCH_WORD@;
    let words = dispatch_word_words();
    lemma_dispatch_word_text_marks();
    let told = filled(template, parts);
    assert(template.skip(0) =~= template);
    let done0 = Seq::<char>::empty();
    assert(told =~= done0 + filled(template.skip(0), parts));
    assert(template.subrange(0, 0) =~= Seq::<char>::empty());
    lemma_filled_from(template, 0, Seq::<char>::empty(), 'a', parts, done0, told);
    let done1 = parts[0];
    assert(done0 + Seq::<char>::empty() + parts[0] =~= done1);
    lemma_filled_from(template, 2, words[0], 'b', parts, done1, told);
    let done2 = done1 + words[0] + parts[1];
    lemma_filled_from(template, 92, words[1], 'c', parts, done2, told);
    let done3 = done2 + words[1] + parts[2];
    lemma_filled_last(template, 227, words[2], parts, done3, told);
}

spec fn accounts_reexport_words() -> Seq<Seq<char>> {
    seq!["pub use "@, "::"@, ";\npub use "@, ";"@]
}

proof fn lemma_accounts_reexport_text_marks()
    ensures
        ACCOUNTS_REEXPORT@.len() == 31,
        stands_at(ACCOUNTS_REEXPORT@, accounts_reexport_words()[0], 0, 8),
        ACCOUNTS_REEXPORT@[8] == '@' && ACCOUNTS_REEXPORT@[9] == 'a',
        stands_at(ACCOUNTS_REEXPORT@, accounts_reexport_words()[1], 10, 2),
        ACCOUNTS_REEXPORT@[12] == '@' && ACCOUNTS_REEXPORT@[13] == 'b',
        stands_at(ACCOUNTS_REEXPORT@, accounts_reexport_words()[2], 14, 10),
        ACCOUNTS_REEXPORT@[24] == '@' && ACCOUNTS_REEXPORT@[25] == 'a',
        stands_at(ACCOUNTS_REEXPORT@, accounts_reexport_words()[1], 26, 2),
        ACCOUNTS_REEXPORT@[28] == '@' && ACCOUNTS_REEXPORT@[29] == 'c',
        stands_at(ACCOUNTS_REEXPORT@, accounts_reexport_words()[3], 30, 1),
{
    let template = ACCOUNTS_REEXPORT@;
    let words = accounts_reexport_words();
    reveal_strlit("pub use @a::@b;\npub use @a::@c;");
    assert(stands_at(template, words[0], 0, 8)) by {
        reveal_strlit("pub use ");
        assert(template.subrange(0, 8) =~= words[0]);
    }
    assert(stands_at(template, words[1], 10, 2)) by {
        reveal_strlit("::");
        assert(template.subrange(10, 12) =~= words[1]);
    }
    assert(stands_at(template, words[2], 14, 10)) by {
        reveal_strlit(";\npub use ");
        assert(template.subrange(14, 24) =~= words[2]);
    }
    assert(stands_at(template, words[1], 26, 2)) by {
        reveal_strlit("::");
        assert(template.subrange(26, 28) =~= words[1]);
    }
    assert(stands_at(template, words[3], 30, 1)) by {
        reveal_strlit(";");
        assert(template.subrange(30, 31) =~= words[3]);
    }
}

/// The text of the template, with its holes filled.
pub proof fn lemma_accounts_reexport_text(parts: Seq<Seq<char>>)
    requires
        parts.len() == 3,
    ensures
        filled(ACCOUNTS_REEXPORT@, parts) == "pub use "@ + parts[0] + "::"@ + parts[1] + ";\npub use "@ + parts[0] + "::"@ + parts[2] + ";"@,
{
    let template = ACCOUNTS_REEXPORT@;
    let words = accounts_reexport_words();
    lemma_accounts_reexport_text_marks();
    let told = filled(template, parts);
    assert(template.skip(0) =~= template);
    let done0 = Seq::<char>::empty();
    assert(told =~= done0 + filled(template.skip(0), parts));
    lemma_filled_from(template, 0, words[0], 'a', parts, done0, told);
    let done1 = words[0] + parts[0];
    assert(done0 + words[0] + parts[0] =~= done1);
    lemma_filled_from(template, 10, words[1], 'b', parts, done1, told);
    let done2 = done1 + words[1] + parts[1];
    lemma_filled_from(template, 14, words[2], 'a', parts, done2, told);
    let done3 = done2 + words[2] + parts[0];
    lemma_filled_from(template, 26, words[1], 'c', parts, done3, told);
    let done4 = done3 + words[1] + parts[2];
    lemma_filled_last(template, 30, words[3], parts, done4, told);
}

spec fn cpi_accounts_reexport_words() -> Seq<Seq<char>> {
    seq!["pub use "@, "::"@, ";"@]
}

proof fn lemma_cpi_accounts_reexport_text_marks()
    ensures
        CPI_ACCOUNTS_REEXPORT@.len() == 15,
        stands_at(CPI_ACCOUNTS_REEXPORT@, cpi_accounts_reexport_words()[0], 0, 8),
        CPI_ACCOUNTS_REEXPORT@[8] == '@' && CPI_ACCOUNTS_REEXPORT@[9] == 'a',
        stands_at(CPI_ACCOUNTS_REEXPORT@, cpi_accounts_reexport_words()[1], 10, 2),
        CPI_ACCOUNTS_REEXPORT@[12] == '@' && CPI_ACCOUNTS_REEXPORT@[13] == 'b',
        stands_at(CPI_ACCOUNTS_REEXPORT@, cpi_accounts_reexport_words()[2], 14, 1),
{
    let template = CPI_ACCOUNTS_REEXPORT@;
    let words = cpi_accounts_reexport_words();
    reveal_strlit("pub use @a::@b;");
    assert(stands_at(template, words[0], 0, 8)) by {
        reveal_strlit("pub use ");
        assert(template.subrange(0, 8) =~= words[0]);
    }
    assert(stands_at(template, words[1], 10, 2)) by {
        reveal_strlit("::");
        assert(template.subrange(10, 12) =~= words[1]);
    }
    assert(stands_at(template, words[2], 14, 1)) by {
        reveal_strlit(";");
        assert(template.subrange(14, 15) =~= words[2]);
    }
}

/// The text of the template, with its holes filled.
pub proof fn lemma_cpi_accounts_reexport_text(parts: Seq<Seq<char>>)
    requires
        parts.len() == 2,
    ensures
        filled(CPI_ACCOUNTS_REEXPORT@, parts) == "pub use "@ + parts[0] + "::"@ + parts[1] + ";"@,
{
    let template = CPI_ACCOUNTS_REEXPORT@;
    let words = cpi_accounts_reexport_words();
    lemma_cpi_accounts_reexport_text_marks();
    let told = filled(template, parts);
    assert(template.skip(0) =~= template);
    let done0 = Seq::<char>::empty();
    assert(told =~= done0 + filled(template.skip(0), parts));
    lemma_filled_from(template, 0, words[0], 'a', parts, done0, told);
    let done1 = words[0] + parts[0];
    assert(done0 + words[0] + parts[0] =~= done1);
    lemma_filled_from(template, 10, words[1], 'b', parts, done1, told);
    let done2 = done1 + words[1] + parts[1];
    lemma_filled_last(template, 14, words[2], parts, done2, told);
}

spec fn returns_json_words() -> Seq<Seq<char>> {
    seq!["{\n    let mut __s = anchor_lang::__alloc::string::String::from(\",\\\"returns\\\":\");\n    __s.push_str("@, ");\n    __s\n}"@]
}

proof fn lemma_returns_json_text_marks()
    ensures
        RETURNS_JSON@.len() == 112,
        stands_at(RETURNS_JSON@, returns_json_words()[0], 0, 98),
        RETURNS_JSON@[98] == '@' && RETURNS_JSON@[99] == 'a',
        stands_at(RETURNS_JSON@, returns_json_words()[1], 100, 12),
{
    let template = RETURNS_JSON@;
    let words = returns_json_words();
    reveal_strlit("{\n    let mut __s = anchor_lang::__alloc::string::String::from(\",\\\"returns\\\":\");\n    __s.push_str(@a);\n    __s\n}");
    assert(stands_at(template, words[0], 0, 98)) by {
        reveal_strlit("{\n    let mut __s = anchor_lang::__alloc::string::String::from(\",\\\"returns\\\":\");\n    __s.push_str(");
        assert(template.subrange(0, 98) =~= words[0]);
    }
    assert(stands_at(template, words[1], 100, 12)) by {
        reveal_strlit(");\n    __s\n}");
        assert(template.subrange(100, 112) =~= words[1]);
    }
}

/// The text of the template, with its holes filled.
pub proof fn lemma_returns_json_text(parts: Seq<Seq<char>>)
    requires
        parts.len() == 1,
    ensures
        filled(RETURNS_JSON@, parts) == "{\n    let mut __s = anchor_lang::__alloc::string::String::from(\",\\\"returns\\\":\");\n    __s.push_str("@ + parts[0] + ");\n    __s\n}"@,
{
    let template = RETURNS_JSON@;
    let words = returns_json_words();
    lemma_returns_json_text_marks();
    let told = filled(template, parts);
    assert(template.skip(0) =~= template);
    let done0 = Seq::<char>::empty();
    assert(told =~= done0 + filled(template.skip(0), parts));
    lemma_filled_from(template, 0, words[0], 'a', parts, done0, told);
    let done1 = words[0] + parts[0];
    assert(done0 + words[0] + parts[0] =~= done1);
    lemma_filled_last(template, 100, words[1], parts, done1, told);
}

} // verus!
