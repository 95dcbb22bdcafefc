//! The texts of the code for accounts structs: each template, with its holes filled.

use crate::accounts::{
    ACTIVE_MUT_BIT, ACTIVE_MUT_MASK, BUMPS_STRUCT, BUMP_LOCAL, CLIENT_META, CLIENT_META_NESTED,
    CLIENT_META_OPTIONAL, CLIENT_MODULE, CLIENT_SIGNER, CPI_CONSTRUCTOR, CPI_FIELD, CPI_MODULE,
    CPI_NESTED_FIELD, CPI_OPTIONAL_FIELD, CPI_OPTIONAL_WRITABLE_FIELD, CPI_SIGNER,
    CPI_WRITABLE_FIELD, DERIVED_PDA, IDL_DEPS, IDL_IMPL, MUT_BIT, MUT_MASK, NESTED_ACTIVE_MUT_BITS,
    NESTED_BUMP_LOCAL, NESTED_IDL_DEPS, NESTED_MUT_BITS, OPTIONAL_BUMP_LOCAL, RESOLVED_STRUCT,
    TRY_ACCOUNTS_HEAD, TRY_ACCOUNTS_STEPS,
};
use crate::passages::{
    in_hole, lemma_filled_from, lemma_filled_last, lemma_filled_tells, pieces_stand, stands_at,
    tells,
};
use crate::template::filled;
use vstd::prelude::*;

verus! {

spec fn steps_words() -> Seq<Seq<char>> {
    seq!["    #[inline]\n    fn validate_accounts<'ix>(\n        __program_id: &anchor_lang::Address,\n        __views: &[anchor_lang::AccountView],\n        __duplicates: ::core::option::Option<&anchor_lang::AccountBitvec>,\n        __base_offset: usize,\n        __ix_data: &'ix [u8],\n    ) -> anchor_lang::Result<(Self, "@, ", Self::IxArgs<'ix>)> {\n        "@, "\n        "@, "\n        Ok((Self { "@, " }, __bumps, "@, "))\n    }\n\n"@, "    #[inline(always)]\n    fn update_accounts(&mut self) -> anchor_lang::Result<()> {\n        "@, "\n        Ok(())\n    }\n\n"@, "    #[inline(always)]\n    fn exit_accounts<'ix>(&mut self, __ix_data: &'ix [u8]) -> anchor_lang::Result<()> {\n        "@, "\n        Ok(())\n    }\n"@]
}

proof fn lemma_steps_told_marks()
    ensures
        TRY_ACCOUNTS_STEPS@.len() == 716,
        !in_hole(TRY_ACCOUNTS_STEPS@, 0),
        !in_hole(TRY_ACCOUNTS_STEPS@, 445),
        stands_at(TRY_ACCOUNTS_STEPS@, steps_words()[0], 0, 307),
        TRY_ACCOUNTS_STEPS@[307] == '@' && TRY_ACCOUNTS_STEPS@[308] == 'a',
        stands_at(TRY_ACCOUNTS_STEPS@, steps_words()[1], 309, 32),
        TRY_ACCOUNTS_STEPS@[341] == '@' && TRY_ACCOUNTS_STEPS@[342] == 'b',
        stands_at(TRY_ACCOUNTS_STEPS@, steps_words()[2], 343, 9),
        TRY_ACCOUNTS_STEPS@[352] == '@' && TRY_ACCOUNTS_STEPS@[353] == 'c',
        stands_at(TRY_ACCOUNTS_STEPS@, steps_words()[2], 354, 9),
        TRY_ACCOUNTS_STEPS@[363] == '@' && TRY_ACCOUNTS_STEPS@[364] == 'd',
        stands_at(TRY_ACCOUNTS_STEPS@, steps_words()[2], 365, 9),
        TRY_ACCOUNTS_STEPS@[374] == '@' && TRY_ACCOUNTS_STEPS@[375] == 'e',
        stands_at(TRY_ACCOUNTS_STEPS@, steps_words()[2], 376, 9),
        TRY_ACCOUNTS_STEPS@[385] == '@' && TRY_ACCOUNTS_STEPS@[386] == 'f',
        stands_at(TRY_ACCOUNTS_STEPS@, steps_words()[2], 387, 9),
        TRY_ACCOUNTS_STEPS@[396] == '@' && TRY_ACCOUNTS_STEPS@[397] == 'g',
        stands_at(TRY_ACCOUNTS_STEPS@, steps_words()[3], 398, 20),
        TRY_ACCOUNTS_STEPS@[418] == '@' && TRY_ACCOUNTS_STEPS@[419] == 'h',
        stands_at(TRY_ACCOUNTS_STEPS@, steps_words()[4], 420, 13),
        TRY_ACCOUNTS_STEPS@[433] == '@' && TRY_ACCOUNTS_STEPS@[434] == 'i',
        stands_at(TRY_ACCOUNTS_STEPS@, steps_words()[5], 435, 10),
        !in_hole(TRY_ACCOUNTS_STEPS@, 563),
        stands_at(TRY_ACCOUNTS_STEPS@, steps_words()[6], 445, 93),
        TRY_ACCOUNTS_STEPS@[538] == '@' && TRY_ACCOUNTS_STEPS@[539] == 'j',
        stands_at(TRY_ACCOUNTS_STEPS@, steps_words()[7], 540, 23),
        !in_hole(TRY_ACCOUNTS_STEPS@, 716),
        stands_at(TRY_ACCOUNTS_STEPS@, steps_words()[8], 563, 118),
        TRY_ACCOUNTS_STEPS@[681] == '@' && TRY_ACCOUNTS_STEPS@[682] == 'b',
        stands_at(TRY_ACCOUNTS_STEPS@, steps_words()[2], 683, 9),
        TRY_ACCOUNTS_STEPS@[692] == '@' && TRY_ACCOUNTS_STEPS@[693] == 'k',
        stands_at(TRY_ACCOUNTS_STEPS@, steps_words()[9], 694, 22),
{
    let template = TRY_ACCOUNTS_STEPS@;
    let words = steps_words();
    reveal_strlit("    #[inline]\n    fn validate_accounts<'ix>(\n        __program_id: &anchor_lang::Address,\n        __views: &[anchor_lang::AccountView],\n        __duplicates: ::core::option::Option<&anchor_lang::AccountBitvec>,\n        __base_offset: usize,\n        __ix_data: &'ix [u8],\n    ) -> anchor_lang::Result<(Self, @a, Self::IxArgs<'ix>)> {\n        @b\n        @c\n        @d\n        @e\n        @f\n        @g\n        Ok((Self { @h }, __bumps, @i))\n    }\n\n    #[inline(always)]\n    fn update_accounts(&mut self) -> anchor_lang::Result<()> {\n        @j\n        Ok(())\n    }\n\n    #[inline(always)]\n    fn exit_accounts<'ix>(&mut self, __ix_data: &'ix [u8]) -> anchor_lang::Result<()> {\n        @b\n        @k\n        Ok(())\n    }\n");
    assert(stands_at(template, words[0], 0, 307)) by {
        reveal_strlit("    #[inline]\n    fn validate_accounts<'ix>(\n        __program_id: &anchor_lang::Address,\n        __views: &[anchor_lang::AccountView],\n        __duplicates: ::core::option::Option<&anchor_lang::AccountBitvec>,\n        __base_offset: usize,\n        __ix_data: &'ix [u8],\n    ) -> anchor_lang::Result<(Self, ");
        assert(template.subrange(0, 307) =~= words[0]);
    }
    assert(stands_at(template, words[1], 309, 32)) by {
        reveal_strlit(", Self::IxArgs<'ix>)> {\n        ");
        assert(template.subrange(309, 341) =~= words[1]);
    }
    assert(stands_at(template, words[2], 343, 9)) by {
        reveal_strlit("\n        ");
        assert(template.subrange(343, 352) =~= words[2]);
    }
    assert(stands_at(template, words[2], 354, 9)) by {
        reveal_strlit("\n        ");
        assert(template.subrange(354, 363) =~= words[2]);
    }
    assert(stands_at(template, words[2], 365, 9)) by {
        reveal_strlit("\n        ");
        assert(template.subrange(365, 374) =~= words[2]);
    }
    assert(stands_at(template, words[2], 376, 9)) by {
        reveal_strlit("\n        ");
        assert(template.subrange(376, 385) =~= words[2]);
    }
    assert(stands_at(template, words[2], 387, 9)) by {
        reveal_strlit("\n        ");
        assert(template.subrange(387, 396) =~= words[2]);
    }
    assert(stands_at(template, words[3], 398, 20)) by {
        reveal_strlit("\n        Ok((Self { ");
        assert(template.subrange(398, 418) =~= words[3]);
    }
    assert(stands_at(template, words[4], 420, 13)) by {
        reveal_strlit(" }, __bumps, ");
        assert(template.subrange(420, 433) =~= words[4]);
    }
    assert(stands_at(template, words[5], 435, 10)) by {
        reveal_strlit("))\n    }\n\n");
        assert(template.subrange(435, 445) =~= words[5]);
    }
    assert(stands_at(template, words[6], 445, 93)) by {
        reveal_strlit("    #[inline(always)]\n    fn update_accounts(&mut self) -> anchor_lang::Result<()> {\n        ");
        assert(template.subrange(445, 538) =~= words[6]);
    }
    assert(stands_at(template, words[7], 540, 23)) by {
        reveal_strlit("\n        Ok(())\n    }\n\n");
        assert(template.subrange(540, 563) =~= words[7]);
    }
    assert(stands_at(template, words[8], 563, 118)) by {
        reveal_strlit("    #[inline(always)]\n    fn exit_accounts<'ix>(&mut self, __ix_data: &'ix [u8]) -> anchor_lang::Result<()> {\n        ");
        assert(template.subrange(563, 681) =~= words[8]);
    }
    assert(stands_at(template, words[2], 683, 9)) by {
        reveal_strlit("\n        ");
        assert(template.subrange(683, 692) =~= words[2]);
    }
    assert(stands_at(template, words[9], 694, 22)) by {
        reveal_strlit("\n        Ok(())\n    }\n");
        assert(template.subrange(694, 716) =~= words[9]);
    }
}

proof fn lemma_steps_told_0(parts: Seq<Seq<char>>)
    requires
        parts.len() == 11,
    ensures
        filled(TRY_ACCOUNTS_STEPS@.subrange(0, 445), parts) == "    #[inline]\n    fn validate_accounts<'ix>(\n        __program_id: &anchor_lang::Address,\n        __views: &[anchor_lang::AccountView],\n        __duplicates: ::core::option::Option<&anchor_lang::AccountBitvec>,\n        __base_offset: usize,\n        __ix_data: &'ix [u8],\n    ) -> anchor_lang::Result<(Self, "@ + parts[0] + ", Self::IxArgs<'ix>)> {\n        "@ + parts[1] + "\n        "@ + parts[2] + "\n        "@ + parts[3] + "\n        "@ + parts[4] + "\n        "@ + parts[5] + "\n        "@ + parts[6] + "\n        Ok((Self { "@ + parts[7] + " }, __bumps, "@ + parts[8] + "))\n    }\n\n"@,
{
    let template = TRY_ACCOUNTS_STEPS@;
    let words = steps_words();
    lemma_steps_told_marks();
    let piece = template.subrange(0, 445);
    let told = filled(piece, parts);
    assert(piece.skip(0) =~= piece);
    let done0 = Seq::<char>::empty();
    assert(told =~= done0 + filled(piece.skip(0), parts));
    assert(piece.subrange(0, 307) =~= template.subrange(0, 307));
    lemma_filled_from(piece, 0, words[0], 'a', parts, done0, told);
    let done1 = words[0] + parts[0];
    assert(done0 + words[0] + parts[0] =~= done1);
    assert(piece.subrange(309, 341) =~= template.subrange(309, 341));
    lemma_filled_from(piece, 309, words[1], 'b', parts, done1, told);
    let done2 = done1 + words[1] + parts[1];
    assert(piece.subrange(343, 352) =~= template.subrange(343, 352));
    lemma_filled_from(piece, 343, words[2], 'c', parts, done2, told);
    let done3 = done2 + words[2] + parts[2];
    assert(piece.subrange(354, 363) =~= template.subrange(354, 363));
    lemma_filled_from(piece, 354, words[2], 'd', parts, done3, told);
    let done4 = done3 + words[2] + parts[3];
    assert(piece.subrange(365, 374) =~= template.subrange(365, 374));
    lemma_filled_from(piece, 365, words[2], 'e', parts, done4, told);
    let done5 = done4 + words[2] + parts[4];
    assert(piece.subrange(376, 385) =~= template.subrange(376, 385));
    lemma_filled_from(piece, 376, words[2], 'f', parts, done5, told);
    let done6 = done5 + words[2] + parts[5];
    assert(piece.subrange(387, 396) =~= template.subrange(387, 396));
    lemma_filled_from(piece, 387, words[2], 'g', parts, done6, told);
    let done7 = done6 + words[2] + parts[6];
    assert(piece.subrange(398, 418) =~= template.subrange(398, 418));
    lemma_filled_from(piece, 398, words[3], 'h', parts, done7, told);
    let done8 = done7 + words[3] + parts[7];
    assert(piece.subrange(420, 433) =~= template.subrange(420, 433));
    lemma_filled_from(piece, 420, words[4], 'i', parts, done8, told);
    let done9 = done8 + words[4] + parts[8];
    assert(piece.subrange(435, 445) =~= template.subrange(435, 445));
    lemma_filled_last(piece, 435, words[5], parts, done9, told);
}

proof fn lemma_steps_told_1(parts: Seq<Seq<char>>)
    requires
        parts.len() == 11,
    ensures
        filled(TRY_ACCOUNTS_STEPS@.subrange(445, 563), parts) == "    #[inline(always)]\n    fn update_accounts(&mut self) -> anchor_lang::Result<()> {\n        "@ + parts[9] + "\n        Ok(())\n    }\n\n"@,
{
    let template = TRY_ACCOUNTS_STEPS@;
    let words = steps_words();
    lemma_steps_told_marks();
    let piece = template.subrange(445, 563);
    let told = filled(piece, parts);
    assert(piece.skip(0) =~= piece);
    let done0 = Seq::<char>::empty();
    assert(told =~= done0 + filled(piece.skip(0), parts));
    assert(piece.subrange(0, 93) =~= template.subrange(445, 538));
    lemma_filled_from(piece, 0, words[6], 'j', parts, done0, told);
    let done1 = words[6] + parts[9];
    assert(done0 + words[6] + parts[9] =~= done1);
    assert(piece.subrange(95, 118) =~= template.subrange(540, 563));
    lemma_filled_last(piece, 95, words[7], parts, done1, told);
}

proof fn lemma_steps_told_2(parts: Seq<Seq<char>>)
    requires
        parts.len() == 11,
    ensures
        filled(TRY_ACCOUNTS_STEPS@.subrange(563, 716), parts) == "    #[inline(always)]\n    fn exit_accounts<'ix>(&mut self, __ix_data: &'ix [u8]) -> anchor_lang::Result<()> {\n        "@ + parts[1] + "\n        "@ + parts[10] + "\n        Ok(())\n    }\n"@,
{
    let template = TRY_ACCOUNTS_STEPS@;
    let words = steps_words();
    lemma_steps_told_marks();
    let piece = template.subrange(563, 716);
    let told = filled(piece, parts);
    assert(piece.skip(0) =~= piece);
    let done0 = Seq::<char>::empty();
    assert(told =~= done0 + filled(piece.skip(0), parts));
    assert(piece.subrange(0, 118) =~= template.subrange(563, 681));
    lemma_filled_from(piece, 0, words[8], 'b', parts, done0, told);
    let done1 = words[8] + parts[1];
    assert(done0 + words[8] + parts[1] =~= done1);
    assert(piece.subrange(120, 129) =~= template.subrange(683, 692));
    lemma_filled_from(piece, 120, words[2], 'k', parts, done1, told);
    let done2 = done1 + words[2] + parts[10];
    assert(piece.subrange(131, 153) =~= template.subrange(694, 716));
    lemma_filled_last(piece, 131, words[9], parts, done2, told);
}

/// The text of the template, with its holes filled.
pub proof fn lemma_steps_told(parts: Seq<Seq<char>>)
    requires
        parts.len() == 11,
    ensures
        tells(
            filled(TRY_ACCOUNTS_STEPS@, parts),
            seq![
                "    #[inline]\n    fn validate_accounts<'ix>(\n        __program_id: &anchor_lang::Address,\n        __views: &[anchor_lang::AccountView],\n        __duplicates: ::core::option::Option<&anchor_lang::AccountBitvec>,\n        __base_offset: usize,\n        __ix_data: &'ix [u8],\n    ) -> anchor_lang::Result<(Self, "@ + parts[0] + ", Self::IxArgs<'ix>)> {\n        "@ + parts[1] + "\n        "@ + parts[2] + "\n        "@ + parts[3] + "\n        "@ + parts[4] + "\n        "@ + parts[5] + "\n        "@ + parts[6] + "\n        Ok((Self { "@ + parts[7] + " }, __bumps, "@ + parts[8] + "))\n    }\n\n"@,
                "    #[inline(always)]\n    fn update_accounts(&mut self) -> anchor_lang::Result<()> {\n        "@ + parts[9] + "\n        Ok(())\n    }\n\n"@,
                "    #[inline(always)]\n    fn exit_accounts<'ix>(&mut self, __ix_data: &'ix [u8]) -> anchor_lang::Result<()> {\n        "@ + parts[1] + "\n        "@ + parts[10] + "\n        Ok(())\n    }\n"@,
            ],
        ),
{
    let template = TRY_ACCOUNTS_STEPS@;
    lemma_steps_told_marks();
    lemma_steps_told_0(parts);
    let piece0 = template.subrange(0, 445);
    lemma_steps_told_1(parts);
    let piece1 = template.subrange(445, 563);
    lemma_steps_told_2(parts);
    let piece2 = template.subrange(563, 716);
    let at = seq![0int, 445int, 563int];
    let pieces = seq![piece0, piece1, piece2];
    assert(pieces_stand(template, at, pieces));
    lemma_filled_tells(template, parts, at, pieces);
    let told = pieces.map_values(|piece: Seq<char>| filled(piece, parts));
    assert(told =~= seq![told[0], told[1], told[2]]);
}

spec fn head_words() -> Seq<Seq<char>> {
    seq!["impl anchor_lang::Bumps for "@, " {\n    type Bumps = "@, ";\n}\n\nimpl anchor_lang::TryAccounts for "@, " {\n    const HEADER_SIZE: usize = "@, ";\n    const MUT_MASK: [u64; 4] = "@, ";\n    const HAS_DYNAMIC_MUT_MASK: bool = "@, ";\n\n    #[inline(always)]\n    fn active_mut_mask(&self) -> [u64; 4] {\n        "@, "\n    }\n\n    "@, "\n\n"@, "    #[inline]\n    fn try_accounts<'ix>(\n        __program_id: &anchor_lang::Address,\n        __views: &[anchor_lang::AccountView],\n        __duplicates: ::core::option::Option<&anchor_lang::AccountBitvec>,\n        __base_offset: usize,\n        __ix_data: &'ix [u8],\n    ) -> anchor_lang::Result<(Self, "@, ", Self::IxArgs<'ix>)> {\n        let (mut __accounts, __bumps, __ix_args) =\n            <Self as anchor_lang::TryAccounts>::validate_accounts(\n                __program_id,\n                __views,\n                __duplicates,\n                __base_offset,\n                __ix_data,\n            )?;\n        <Self as anchor_lang::TryAccounts>::update_accounts(&mut __accounts)?;\n        Ok((__accounts, __bumps, __ix_args))\n    }\n"@, "\n}\n"@]
}

proof fn lemma_head_told_marks()
    ensures
        TRY_ACCOUNTS_HEAD@.len() == 1042,
        !in_hole(TRY_ACCOUNTS_HEAD@, 0),
        !in_hole(TRY_ACCOUNTS_HEAD@, 302),
        stands_at(TRY_ACCOUNTS_HEAD@, head_words()[0], 0, 28),
        TRY_ACCOUNTS_HEAD@[28] == '@' && TRY_ACCOUNTS_HEAD@[29] == 'a',
        stands_at(TRY_ACCOUNTS_HEAD@, head_words()[1], 30, 20),
        TRY_ACCOUNTS_HEAD@[50] == '@' && TRY_ACCOUNTS_HEAD@[51] == 'b',
        stands_at(TRY_ACCOUNTS_HEAD@, head_words()[2], 52, 39),
        TRY_ACCOUNTS_HEAD@[91] == '@' && TRY_ACCOUNTS_HEAD@[92] == 'a',
        stands_at(TRY_ACCOUNTS_HEAD@, head_words()[3], 93, 34),
        TRY_ACCOUNTS_HEAD@[127] == '@' && TRY_ACCOUNTS_HEAD@[128] == 'c',
        stands_at(TRY_ACCOUNTS_HEAD@, head_words()[4], 129, 33),
        TRY_ACCOUNTS_HEAD@[162] == '@' && TRY_ACCOUNTS_HEAD@[163] == 'd',
        stands_at(TRY_ACCOUNTS_HEAD@, head_words()[5], 164, 41),
        TRY_ACCOUNTS_HEAD@[205] == '@' && TRY_ACCOUNTS_HEAD@[206] == 'e',
        stands_at(TRY_ACCOUNTS_HEAD@, head_words()[6], 207, 77),
        TRY_ACCOUNTS_HEAD@[284] == '@' && TRY_ACCOUNTS_HEAD@[285] == 'f',
        stands_at(TRY_ACCOUNTS_HEAD@, head_words()[7], 286, 12),
        TRY_ACCOUNTS_HEAD@[298] == '@' && TRY_ACCOUNTS_HEAD@[299] == 'g',
        stands_at(TRY_ACCOUNTS_HEAD@, head_words()[8], 300, 2),
        !in_hole(TRY_ACCOUNTS_HEAD@, 1037),
        stands_at(TRY_ACCOUNTS_HEAD@, head_words()[9], 302, 302),
        TRY_ACCOUNTS_HEAD@[604] == '@' && TRY_ACCOUNTS_HEAD@[605] == 'b',
        stands_at(TRY_ACCOUNTS_HEAD@, head_words()[10], 606, 431),
        !in_hole(TRY_ACCOUNTS_HEAD@, 1042),
        TRY_ACCOUNTS_HEAD@[1037] == '@' && TRY_ACCOUNTS_HEAD@[1038] == 'h',
        stands_at(TRY_ACCOUNTS_HEAD@, head_words()[11], 1039, 3),
{
    let template = TRY_ACCOUNTS_HEAD@;
    let words = head_words();
    reveal_strlit("impl anchor_lang::Bumps for @a {\n    type Bumps = @b;\n}\n\nimpl anchor_lang::TryAccounts for @a {\n    const HEADER_SIZE: usize = @c;\n    const MUT_MASK: [u64; 4] = @d;\n    const HAS_DYNAMIC_MUT_MASK: bool = @e;\n\n    #[inline(always)]\n    fn active_mut_mask(&self) -> [u64; 4] {\n        @f\n    }\n\n    @g\n\n    #[inline]\n    fn try_accounts<'ix>(\n        __program_id: &anchor_lang::Address,\n        __views: &[anchor_lang::AccountView],\n        __duplicates: ::core::option::Option<&anchor_lang::AccountBitvec>,\n        __base_offset: usize,\n        __ix_data: &'ix [u8],\n    ) -> anchor_lang::Result<(Self, @b, Self::IxArgs<'ix>)> {\n        let (mut __accounts, __bumps, __ix_args) =\n            <Self as anchor_lang::TryAccounts>::validate_accounts(\n                __program_id,\n                __views,\n                __duplicates,\n                __base_offset,\n                __ix_data,\n            )?;\n        <Self as anchor_lang::TryAccounts>::update_accounts(&mut __accounts)?;\n        Ok((__accounts, __bumps, __ix_args))\n    }\n@h\n}\n");
    assert(stands_at(template, words[0], 0, 28)) by {
        reveal_strlit("impl anchor_lang::Bumps for ");
        assert(template.subrange(0, 28) =~= words[0]);
    }
    assert(stands_at(template, words[1], 30, 20)) by {
        reveal_strlit(" {\n    type Bumps = ");
        assert(template.subrange(30, 50) =~= words[1]);
    }
    assert(stands_at(template, words[2], 52, 39)) by {
        reveal_strlit(";\n}\n\nimpl anchor_lang::TryAccounts for ");
        assert(template.subrange(52, 91) =~= words[2]);
    }
    assert(stands_at(template, words[3], 93, 34)) by {
        reveal_strlit(" {\n    const HEADER_SIZE: usize = ");
        assert(template.subrange(93, 127) =~= words[3]);
    }
    assert(stands_at(template, words[4], 129, 33)) by {
        reveal_strlit(";\n    const MUT_MASK: [u64; 4] = ");
        assert(template.subrange(129, 162) =~= words[4]);
    }
    assert(stands_at(template, words[5], 164, 41)) by {
        reveal_strlit(";\n    const HAS_DYNAMIC_MUT_MASK: bool = ");
        assert(template.subrange(164, 205) =~= words[5]);
    }
    assert(stands_at(template, words[6], 207, 77)) by {
        reveal_strlit(";\n\n    #[inline(always)]\n    fn active_mut_mask(&self) -> [u64; 4] {\n        ");
        assert(template.subrange(207, 284) =~= words[6]);
    }
    assert(stands_at(template, words[7], 286, 12)) by {
        reveal_strlit("\n    }\n\n    ");
        assert(template.subrange(286, 298) =~= words[7]);
    }
    assert(stands_at(template, words[8], 300, 2)) by {
        reveal_strlit("\n\n");
        assert(template.subrange(300, 302) =~= words[8]);
    }
    assert(stands_at(template, words[9], 302, 302)) by {
        reveal_strlit("    #[inline]\n    fn try_accounts<'ix>(\n        __program_id: &anchor_lang::Address,\n        __views: &[anchor_lang::AccountView],\n        __duplicates: ::core::option::Option<&anchor_lang::AccountBitvec>,\n        __base_offset: usize,\n        __ix_data: &'ix [u8],\n    ) -> anchor_lang::Result<(Self, ");
        assert(template.subrange(302, 604) =~= words[9]);
    }
    assert(stands_at(template, words[10], 606, 431)) by {
        reveal_strlit(", Self::IxArgs<'ix>)> {\n        let (mut __accounts, __bumps, __ix_args) =\n            <Self as anchor_lang::TryAccounts>::validate_accounts(\n                __program_id,\n                __views,\n                __duplicates,\n                __base_offset,\n                __ix_data,\n            )?;\n        <Self as anchor_lang::TryAccounts>::update_accounts(&mut __accounts)?;\n        Ok((__accounts, __bumps, __ix_args))\n    }\n");
        assert(template.subrange(606, 1037) =~= words[10]);
    }
    assert(stands_at(template, words[11], 1039, 3)) by {
        reveal_strlit("\n}\n");
        assert(template.subrange(1039, 1042) =~= words[11]);
    }
}

proof fn lemma_head_told_0(parts: Seq<Seq<char>>)
    requires
        parts.len() == 8,
    ensures
        filled(TRY_ACCOUNTS_HEAD@.subrange(0, 302), parts) == "impl anchor_lang::Bumps for "@ + parts[0] + " {\n    type Bumps = "@ + parts[1] + ";\n}\n\nimpl anchor_lang::TryAccounts for "@ + parts[0] + " {\n    const HEADER_SIZE: usize = "@ + parts[2] + ";\n    const MUT_MASK: [u64; 4] = "@ + parts[3] + ";\n    const HAS_DYNAMIC_MUT_MASK: bool = "@ + parts[4] + ";\n\n    #[inline(always)]\n    fn active_mut_mask(&self) -> [u64; 4] {\n        "@ + parts[5] + "\n    }\n\n    "@ + parts[6] + "\n\n"@,
{
    let template = TRY_ACCOUNTS_HEAD@;
    let words = head_words();
    lemma_head_told_marks();
    let piece = template.subrange(0, 302);
    let told = filled(piece, parts);
    assert(piece.skip(0) =~= piece);
    let done0 = Seq::<char>::empty();
    assert(told =~= done0 + filled(piece.skip(0), parts));
    assert(piece.subrange(0, 28) =~= template.subrange(0, 28));
    lemma_filled_from(piece, 0, words[0], 'a', parts, done0, told);
    let done1 = words[0] + parts[0];
    assert(done0 + words[0] + parts[0] =~= done1);
    assert(piece.subrange(30, 50) =~= template.subrange(30, 50));
    lemma_filled_from(piece, 30, words[1], 'b', parts, done1, told);
    let done2 = done1 + words[1] + parts[1];
    assert(piece.subrange(52, 91) =~= template.subrange(52, 91));
    lemma_filled_from(piece, 52, words[2], 'a', parts, done2, told);
    let done3 = done2 + words[2] + parts[0];
    assert(piece.subrange(93, 127) =~= template.subrange(93, 127));
    lemma_filled_from(piece, 93, words[3], 'c', parts, done3, told);
    let done4 = done3 + words[3] + parts[2];
    assert(piece.subrange(129, 162) =~= template.subrange(129, 162));
    lemma_filled_from(piece, 129, words[4], 'd', parts, done4, told);
    let done5 = done4 + words[4] + parts[3];
    assert(piece.subrange(164, 205) =~= template.subrange(164, 205));
    lemma_filled_from(piece, 164, words[5], 'e', parts, done5, told);
    let done6 = done5 + words[5] + parts[4];
    assert(piece.subrange(207, 284) =~= template.subrange(207, 284));
    lemma_filled_from(piece, 207, words[6], 'f', parts, done6, told);
    let done7 = done6 + words[6] + parts[5];
    assert(piece.subrange(286, 298) =~= template.subrange(286, 298));
    lemma_filled_from(piece, 286, words[7], 'g', parts, done7, told);
    let done8 = done7 + words[7] + parts[6];
    assert(piece.subrange(300, 302) =~= template.subrange(300, 302));
    lemma_filled_last(piece, 300, words[8], parts, done8, told);
}

proof fn lemma_head_told_1(parts: Seq<Seq<char>>)
    requires
        parts.len() == 8,
    ensures
        filled(TRY_ACCOUNTS_HEAD@.subrange(302, 1037), parts) == "    #[inline]\n    fn try_accounts<'ix>(\n        __program_id: &anchor_lang::Address,\n        __views: &[anchor_lang::AccountView],\n        __duplicates: ::core::option::Option<&anchor_lang::AccountBitvec>,\n        __base_offset: usize,\n        __ix_data: &'ix [u8],\n    ) -> anchor_lang::Result<(Self, "@ + parts[1] + ", Self::IxArgs<'ix>)> {\n        let (mut __accounts, __bumps, __ix_args) =\n            <Self as anchor_lang::TryAccounts>::validate_accounts(\n                __program_id,\n                __views,\n                __duplicates,\n                __base_offset,\n                __ix_data,\n            )?;\n        <Self as anchor_lang::TryAccounts>::update_accounts(&mut __accounts)?;\n        Ok((__accounts, __bumps, __ix_args))\n    }\n"@,
{
    let template = TRY_ACCOUNTS_HEAD@;
    let words = head_words();
    lemma_head_told_marks();
    let piece = template.subrange(302, 1037);
    let told = filled(piece, parts);
    assert(piece.skip(0) =~= piece);
    let done0 = Seq::<char>::empty();
    assert(told =~= done0 + filled(piece.skip(0), parts));
    assert(piece.subrange(0, 302) =~= template.subrange(302, 604));
    lemma_filled_from(piece, 0, words[9], 'b', parts, done0, told);
    let done1 = words[9] + parts[1];
    assert(done0 + words[9] + parts[1] =~= done1);
    assert(piece.subrange(304, 735) =~= template.subrange(606, 1037));
    lemma_filled_last(piece, 304, words[10], parts, done1, told);
}

proof fn lemma_head_told_2(parts: Seq<Seq<char>>)
    requires
        parts.len() == 8,
    ensures
        filled(TRY_ACCOUNTS_HEAD@.subrange(1037, 1042), parts) == parts[7] + "\n}\n"@,
{
    let template = TRY_ACCOUNTS_HEAD@;
    let words = head_words();
    lemma_head_told_marks();
    let piece = template.subrange(1037, 1042);
    let told = filled(piece, parts);
    assert(piece.skip(0) =~= piece);
    let done0 = Seq::<char>::empty();
    assert(told =~= done0 + filled(piece.skip(0), parts));
    assert(piece.subrange(0, 0) =~= Seq::<char>::empty());
    lemma_filled_from(piece, 0, Seq::<char>::empty(), 'h', parts, done0, told);
    let done1 = parts[7];
    assert(done0 + Seq::<char>::empty() + parts[7] =~= done1);
    assert(piece.subrange(2, 5) =~= template.subrange(1039, 1042));
    lemma_filled_last(piece, 2, words[11], parts, done1, told);
}

/// The text of the template, with its holes filled.
pub proof fn lemma_head_told(parts: Seq<Seq<char>>)
    requires
        parts.len() == 8,
    ensures
        tells(
            filled(TRY_ACCOUNTS_HEAD@, parts),
            seq![
                "impl anchor_lang::Bumps for "@ + parts[0] + " {\n    type Bumps = "@ + parts[1] + ";\n}\n\nimpl anchor_lang::TryAccounts for "@ + parts[0] + " {\n    const HEADER_SIZE: usize = "@ + parts[2] + ";\n    const MUT_MASK: [u64; 4] = "@ + parts[3] + ";\n    const HAS_DYNAMIC_MUT_MASK: bool = "@ + parts[4] + ";\n\n    #[inline(always)]\n    fn active_mut_mask(&self) -> [u64; 4] {\n        "@ + parts[5] + "\n    }\n\n    "@ + parts[6] + "\n\n"@,
                "    #[inline]\n    fn try_accounts<'ix>(\n        __program_id: &anchor_lang::Address,\n        __views: &[anchor_lang::AccountView],\n        __duplicates: ::core::option::Option<&anchor_lang::AccountBitvec>,\n        __base_offset: usize,\n        __ix_data: &'ix [u8],\n    ) -> anchor_lang::Result<(Self, "@ + parts[1] + ", Self::IxArgs<'ix>)> {\n        let (mut __accounts, __bumps, __ix_args) =\n            <Self as anchor_lang::TryAccounts>::validate_accounts(\n                __program_id,\n                __views,\n                __duplicates,\n                __base_offset,\n                __ix_data,\n            )?;\n        <Self as anchor_lang::TryAccounts>::update_accounts(&mut __accounts)?;\n        Ok((__accounts, __bumps, __ix_args))\n    }\n"@,
                parts[7] + "\n}\n"@,
            ],
        ),
{
    let template = TRY_ACCOUNTS_HEAD@;
    lemma_head_told_marks();
    lemma_head_told_0(parts);
    let piece0 = template.subrange(0, 302);
    lemma_head_told_1(parts);
    let piece1 = template.subrange(302, 1037);
    lemma_head_told_2(parts);
    let piece2 = template.subrange(1037, 1042);
    let at = seq![0int, 302int, 1037int];
    let pieces = seq![piece0, piece1, piece2];
    assert(pieces_stand(template, at, pieces));
    lemma_filled_tells(template, parts, at, pieces);
    let told = pieces.map_values(|piece: Seq<char>| filled(piece, parts));
    assert(told =~= seq![told[0], told[1], told[2]]);
}

spec fn client_words() -> Seq<Seq<char>> {
    seq!["pub mod "@, " {\n    extern crate alloc;\n    use super::*;\n    pub struct "@, " {\n        "@, "\n    }\n    impl anchor_lang::ToAccountMetas for "@, " {\n        fn to_account_metas(&self, _is_signer: Option<bool>) -> alloc::vec::Vec<anchor_lang::AccountMeta> {\n            let mut __metas = alloc::vec::Vec::new();\n            "@, "\n            __metas\n        }\n    }\n"@, "    "@, "\n"@, "    impl "@, "\n    }\n}\n"@]
}

proof fn lemma_client_told_marks()
    ensures
        CLIENT_MODULE@.len() == 391,
        !in_hole(CLIENT_MODULE@, 0),
        !in_hole(CLIENT_MODULE@, 351),
        stands_at(CLIENT_MODULE@, client_words()[0], 0, 8),
        CLIENT_MODULE@[8] == '@' && CLIENT_MODULE@[9] == 'a',
        stands_at(CLIENT_MODULE@, client_words()[1], 10, 60),
        CLIENT_MODULE@[70] == '@' && CLIENT_MODULE@[71] == 'b',
        stands_at(CLIENT_MODULE@, client_words()[2], 72, 11),
        CLIENT_MODULE@[83] == '@' && CLIENT_MODULE@[84] == 'c',
        stands_at(CLIENT_MODULE@, client_words()[3], 85, 48),
        CLIENT_MODULE@[133] == '@' && CLIENT_MODULE@[134] == 'b',
        stands_at(CLIENT_MODULE@, client_words()[4], 135, 177),
        CLIENT_MODULE@[312] == '@' && CLIENT_MODULE@[313] == 'd',
        stands_at(CLIENT_MODULE@, client_words()[5], 314, 37),
        !in_hole(CLIENT_MODULE@, 358),
        stands_at(CLIENT_MODULE@, client_words()[6], 351, 4),
        CLIENT_MODULE@[355] == '@' && CLIENT_MODULE@[356] == 'e',
        stands_at(CLIENT_MODULE@, client_words()[7], 357, 1),
        !in_hole(CLIENT_MODULE@, 391),
        stands_at(CLIENT_MODULE@, client_words()[8], 358, 9),
        CLIENT_MODULE@[367] == '@' && CLIENT_MODULE@[368] == 'b',
        stands_at(CLIENT_MODULE@, client_words()[2], 369, 11),
        CLIENT_MODULE@[380] == '@' && CLIENT_MODULE@[381] == 'f',
        stands_at(CLIENT_MODULE@, client_words()[9], 382, 9),
{
    let template = CLIENT_MODULE@;
    let words = client_words();
    reveal_strlit("pub mod @a {\n    extern crate alloc;\n    use super::*;\n    pub struct @b {\n        @c\n    }\n    impl anchor_lang::ToAccountMetas for @b {\n        fn to_account_metas(&self, _is_signer: Option<bool>) -> alloc::vec::Vec<anchor_lang::AccountMeta> {\n            let mut __metas = alloc::vec::Vec::new();\n            @d\n            __metas\n        }\n    }\n    @e\n    impl @b {\n        @f\n    }\n}\n");
    assert(stands_at(template, words[0], 0, 8)) by {
        reveal_strlit("pub mod ");
        assert(template.subrange(0, 8) =~= words[0]);
    }
    assert(stands_at(template, words[1], 10, 60)) by {
        reveal_strlit(" {\n    extern crate alloc;\n    use super::*;\n    pub struct ");
        assert(template.subrange(10, 70) =~= words[1]);
    }
    assert(stands_at(template, words[2], 72, 11)) by {
        reveal_strlit(" {\n        ");
        assert(template.subrange(72, 83) =~= words[2]);
    }
    assert(stands_at(template, words[3], 85, 48)) by {
        reveal_strlit("\n    }\n    impl anchor_lang::ToAccountMetas for ");
        assert(template.subrange(85, 133) =~= words[3]);
    }
    assert(stands_at(template, words[4], 135, 177)) by {
        reveal_strlit(" {\n        fn to_account_metas(&self, _is_signer: Option<bool>) -> alloc::vec::Vec<anchor_lang::AccountMeta> {\n            let mut __metas = alloc::vec::Vec::new();\n            ");
        assert(template.subrange(135, 312) =~= words[4]);
    }
    assert(stands_at(template, words[5], 314, 37)) by {
        reveal_strlit("\n            __metas\n        }\n    }\n");
        assert(template.subrange(314, 351) =~= words[5]);
    }
    assert(stands_at(template, words[6], 351, 4)) by {
        reveal_strlit("    ");
        assert(template.subrange(351, 355) =~= words[6]);
    }
    assert(stands_at(template, words[7], 357, 1)) by {
        reveal_strlit("\n");
        assert(template.subrange(357, 358) =~= words[7]);
    }
    assert(stands_at(template, words[8], 358, 9)) by {
        reveal_strlit("    impl ");
        assert(template.subrange(358, 367) =~= words[8]);
    }
    assert(stands_at(template, words[2], 369, 11)) by {
        reveal_strlit(" {\n        ");
        assert(template.subrange(369, 380) =~= words[2]);
    }
    assert(stands_at(template, words[9], 382, 9)) by {
        reveal_strlit("\n    }\n}\n");
        assert(template.subrange(382, 391) =~= words[9]);
    }
}

proof fn lemma_client_told_0(parts: Seq<Seq<char>>)
    requires
        parts.len() == 6,
    ensures
        filled(CLIENT_MODULE@.subrange(0, 351), parts) == "pub mod "@ + parts[0] + " {\n    extern crate alloc;\n    use super::*;\n    pub struct "@ + parts[1] + " {\n        "@ + parts[2] + "\n    }\n    impl anchor_lang::ToAccountMetas for "@ + parts[1] + " {\n        fn to_account_metas(&self, _is_signer: Option<bool>) -> alloc::vec::Vec<anchor_lang::AccountMeta> {\n            let mut __metas = alloc::vec::Vec::new();\n            "@ + parts[3] + "\n            __metas\n        }\n    }\n"@,
{
    let template = CLIENT_MODULE@;
    let words = client_words();
    lemma_client_told_marks();
    let piece = template.subrange(0, 351);
    let told = filled(piece, parts);
    assert(piece.skip(0) =~= piece);
    let done0 = Seq::<char>::empty();
    assert(told =~= done0 + filled(piece.skip(0), parts));
    assert(piece.subrange(0, 8) =~= template.subrange(0, 8));
    lemma_filled_from(piece, 0, words[0], 'a', parts, done0, told);
    let done1 = words[0] + parts[0];
    assert(done0 + words[0] + parts[0] =~= done1);
    assert(piece.subrange(10, 70) =~= template.subrange(10, 70));
    lemma_filled_from(piece, 10, words[1], 'b', parts, done1, told);
    let done2 = done1 + words[1] + parts[1];
    assert(piece.subrange(72, 83) =~= template.subrange(72, 83));
    lemma_filled_from(piece, 72, words[2], 'c', parts, done2, told);
    let done3 = done2 + words[2] + parts[2];
    assert(piece.subrange(85, 133) =~= template.subrange(85, 133));
    lemma_filled_from(piece, 85, words[3], 'b', parts, done3, told);
    let done4 = done3 + words[3] + parts[1];
    assert(piece.subrange(135, 312) =~= template.subrange(135, 312));
    lemma_filled_from(piece, 135, words[4], 'd', parts, done4, told);
    let done5 = done4 + words[4] + parts[3];
    assert(piece.subrange(314, 351) =~= template.subrange(314, 351));
    lemma_filled_last(piece, 314, words[5], parts, done5, told);
}

proof fn lemma_client_told_1(parts: Seq<Seq<char>>)
    requires
        parts.len() == 6,
    ensures
        filled(CLIENT_MODULE@.subrange(351, 358), parts) == "    "@ + parts[4] + "\n"@,
{
    let template = CLIENT_MODULE@;
    let words = client_words();
    lemma_client_told_marks();
    let piece = template.subrange(351, 358);
    let told = filled(piece, parts);
    assert(piece.skip(0) =~= piece);
    let done0 = Seq::<char>::empty();
    assert(told =~= done0 + filled(piece.skip(0), parts));
    assert(piece.subrange(0, 4) =~= template.subrange(351, 355));
    lemma_filled_from(piece, 0, words[6], 'e', parts, done0, told);
    let done1 = words[6] + parts[4];
    assert(done0 + words[6] + parts[4] =~= done1);
    assert(piece.subrange(6, 7) =~= template.subrange(357, 358));
    lemma_filled_last(piece, 6, words[7], parts, done1, told);
}

proof fn lemma_client_told_2(parts: Seq<Seq<char>>)
    requires
        parts.len() == 6,
    ensures
        filled(CLIENT_MODULE@.subrange(358, 391), parts) == "    impl "@ + parts[1] + " {\n        "@ + parts[5] + "\n    }\n}\n"@,
{
    let template = CLIENT_MODULE@;
    let words = client_words();
    lemma_client_told_marks();
    let piece = template.subrange(358, 391);
    let told = filled(piece, parts);
    assert(piece.skip(0) =~= piece);
    let done0 = Seq::<char>::empty();
    assert(told =~= done0 + filled(piece.skip(0), parts));
    assert(piece.subrange(0, 9) =~= template.subrange(358, 367));
    lemma_filled_from(piece, 0, words[8], 'b', parts, done0, told);
    let done1 = words[8] + parts[1];
    assert(done0 + words[8] + parts[1] =~= done1);
    assert(piece.subrange(11, 22) =~= template.subrange(369, 380));
    lemma_filled_from(piece, 11, words[2], 'f', parts, done1, told);
    let done2 = done1 + words[2] + parts[5];
    assert(piece.subrange(24, 33) =~= template.subrange(382, 391));
    lemma_filled_last(piece, 24, words[9], parts, done2, told);
}

/// The text of the template, with its holes filled.
pub proof fn lemma_client_told(parts: Seq<Seq<char>>)
    requires
        parts.len() == 6,
    ensures
        tells(
            filled(CLIENT_MODULE@, parts),
            seq![
                "pub mod "@ + parts[0] + " {\n    extern crate alloc;\n    use super::*;\n    pub struct "@ + parts[1] + " {\n        "@ + parts[2] + "\n    }\n    impl anchor_lang::ToAccountMetas for "@ + parts[1] + " {\n        fn to_account_metas(&self, _is_signer: Option<bool>) -> alloc::vec::Vec<anchor_lang::AccountMeta> {\n            let mut __metas = alloc::vec::Vec::new();\n            "@ + parts[3] + "\n            __metas\n        }\n    }\n"@,
                "    "@ + parts[4] + "\n"@,
                "    impl "@ + parts[1] + " {\n        "@ + parts[5] + "\n    }\n}\n"@,
            ],
        ),
{
    let template = CLIENT_MODULE@;
    lemma_client_told_marks();
    lemma_client_told_0(parts);
    let piece0 = template.subrange(0, 351);
    lemma_client_told_1(parts);
    let piece1 = template.subrange(351, 358);
    lemma_client_told_2(parts);
    let piece2 = template.subrange(358, 391);
    let at = seq![0int, 351int, 358int];
    let pieces = seq![piece0, piece1, piece2];
    assert(pieces_stand(template, at, pieces));
    lemma_filled_tells(template, parts, at, pieces);
    let told = pieces.map_values(|piece: Seq<char>| filled(piece, parts));
    assert(told =~= seq![told[0], told[1], told[2]]);
}

spec fn cpi_module_words() -> Seq<Seq<char>> {
    seq!["pub mod "@, " {\n    extern crate alloc;\n    use super::*;\n    #[derive(anchor_lang::ToCpiAccounts)]\n    #[accounts_program_id("@, ")]\n    pub struct "@, "<'a> {\n        "@, "\n        "@, "\n    }\n    "@, "\n}"@]
}

proof fn lemma_cpi_module_text_marks()
    ensures
        CPI_MODULE@.len() == 188,
        stands_at(CPI_MODULE@, cpi_module_words()[0], 0, 8),
        CPI_MODULE@[8] == '@' && CPI_MODULE@[9] == 'a',
        stands_at(CPI_MODULE@, cpi_module_words()[1], 10, 113),
        CPI_MODULE@[123] == '@' && CPI_MODULE@[124] == 'b',
        stands_at(CPI_MODULE@, cpi_module_words()[2], 125, 18),
        CPI_MODULE@[143] == '@' && CPI_MODULE@[144] == 'c',
        stands_at(CPI_MODULE@, cpi_module_words()[3], 145, 15),
        CPI_MODULE@[160] == '@' && CPI_MODULE@[161] == 'd',
        stands_at(CPI_MODULE@, cpi_module_words()[4], 162, 9),
        CPI_MODULE@[171] == '@' && CPI_MODULE@[172] == 'e',
        stands_at(CPI_MODULE@, cpi_module_words()[5], 173, 11),
        CPI_MODULE@[184] == '@' && CPI_MODULE@[185] == 'f',
        stands_at(CPI_MODULE@, cpi_module_words()[6], 186, 2),
{
    let template = CPI_MODULE@;
    let words = cpi_module_words();
    reveal_strlit("pub mod @a {\n    extern crate alloc;\n    use super::*;\n    #[derive(anchor_lang::ToCpiAccounts)]\n    #[accounts_program_id(@b)]\n    pub struct @c<'a> {\n        @d\n        @e\n    }\n    @f\n}");
    assert(stands_at(template, words[0], 0, 8)) by {
        reveal_strlit("pub mod ");
        assert(template.subrange(0, 8) =~= words[0]);
    }
    assert(stands_at(template, words[1], 10, 113)) by {
        reveal_strlit(" {\n    extern crate alloc;\n    use super::*;\n    #[derive(anchor_lang::ToCpiAccounts)]\n    #[accounts_program_id(");
        assert(template.subrange(10, 123) =~= words[1]);
    }
    assert(stands_at(template, words[2], 125, 18)) by {
        reveal_strlit(")]\n    pub struct ");
        assert(template.subrange(125, 143) =~= words[2]);
    }
    assert(stands_at(template, words[3], 145, 15)) by {
        reveal_strlit("<'a> {\n        ");
        assert(template.subrange(145, 160) =~= words[3]);
    }
    assert(stands_at(template, words[4], 162, 9)) by {
        reveal_strlit("\n        ");
        assert(template.subrange(162, 171) =~= words[4]);
    }
    assert(stands_at(template, words[5], 173, 11)) by {
        reveal_strlit("\n    }\n    ");
        assert(template.subrange(173, 184) =~= words[5]);
    }
    assert(stands_at(template, words[6], 186, 2)) by {
        reveal_strlit("\n}");
        assert(template.subrange(186, 188) =~= words[6]);
    }
}

/// The text of the template, with its holes filled.
pub proof fn lemma_cpi_module_text(parts: Seq<Seq<char>>)
    requires
        parts.len() == 6,
    ensures
        filled(CPI_MODULE@, parts) == "pub mod "@ + parts[0] + " {\n    extern crate alloc;\n    use super::*;\n    #[derive(anchor_lang::ToCpiAccounts)]\n    #[accounts_program_id("@ + parts[1] + ")]\n    pub struct "@ + parts[2] + "<'a> {\n        "@ + parts[3] + "\n        "@ + parts[4] + "\n    }\n    "@ + parts[5] + "\n}"@,
{
    let template = CPI_MODULE@;
    let words = cpi_module_words();
    lemma_cpi_module_text_marks();
    let told = filled(template, parts);
    assert(template.skip(0) =~= template);
    let done0 = Seq::<char>::empty();
    assert(told =~= done0 + filled(template.skip(0), parts));
    lemma_filled_from(template, 0, words[0], 'a', parts, done0, told);
    let done1 = words[0] + parts[0];
    assert(done0 + words[0] + parts[0] =~= done1);
    lemma_filled_from(template, 10, words[1], 'b', parts, done1, told);
    let done2 = done1 + words[1] + parts[1];
    lemma_filled_from(template, 125, words[2], 'c', parts, done2, told);
    let done3 = done2 + words[2] + parts[2];
    lemma_filled_from(template, 145, words[3], 'd', parts, done3, told);
    let done4 = done3 + words[3] + parts[3];
    lemma_filled_from(template, 162, words[4], 'e', parts, done4, told);
    let done5 = done4 + words[4] + parts[4];
    lemma_filled_from(template, 173, words[5], 'f', parts, done5, told);
    let done6 = done5 + words[5] + parts[5];
    lemma_filled_last(template, 186, words[6], parts, done6, told);
}

spec fn resolved_struct_words() -> Seq<Seq<char>> {
    seq!["pub struct "@, " {\n    "@, "\n}\nimpl anchor_lang::ToAccountMetas for "@, " {\n    fn to_account_metas(&self, _is_signer: Option<bool>) -> alloc::vec::Vec<anchor_lang::AccountMeta> {\n        "@, "\n        "@, "\n        let mut __metas = alloc::vec::Vec::new();\n        "@, "\n        __metas\n    }\n}"@]
}

proof fn lemma_resolved_struct_text_marks()
    ensures
        RESOLVED_STRUCT@.len() == 277,
        stands_at(RESOLVED_STRUCT@, resolved_struct_words()[0], 0, 11),
        RESOLVED_STRUCT@[11] == '@' && RESOLVED_STRUCT@[12] == 'a',
        stands_at(RESOLVED_STRUCT@, resolved_struct_words()[1], 13, 7),
        RESOLVED_STRUCT@[20] == '@' && RESOLVED_STRUCT@[21] == 'b',
        stands_at(RESOLVED_STRUCT@, resolved_struct_words()[2], 22, 40),
        RESOLVED_STRUCT@[62] == '@' && RESOLVED_STRUCT@[63] == 'a',
        stands_at(RESOLVED_STRUCT@, resolved_struct_words()[3], 64, 115),
        RESOLVED_STRUCT@[179] == '@' && RESOLVED_STRUCT@[180] == 'c',
        stands_at(RESOLVED_STRUCT@, resolved_struct_words()[4], 181, 9),
        RESOLVED_STRUCT@[190] == '@' && RESOLVED_STRUCT@[191] == 'd',
        stands_at(RESOLVED_STRUCT@, resolved_struct_words()[5], 192, 59),
        RESOLVED_STRUCT@[251] == '@' && RESOLVED_STRUCT@[252] == 'e',
        stands_at(RESOLVED_STRUCT@, resolved_struct_words()[6], 253, 24),
{
    let template = RESOLVED_STRUCT@;
    let words = resolved_struct_words();
    reveal_strlit("pub struct @a {\n    @b\n}\nimpl anchor_lang::ToAccountMetas for @a {\n    fn to_account_metas(&self, _is_signer: Option<bool>) -> alloc::vec::Vec<anchor_lang::AccountMeta> {\n        @c\n        @d\n        let mut __metas = alloc::vec::Vec::new();\n        @e\n        __metas\n    }\n}");
    assert(stands_at(template, words[0], 0, 11)) by {
        reveal_strlit("pub struct ");
        assert(template.subrange(0, 11) =~= words[0]);
    }
    assert(stands_at(template, words[1], 13, 7)) by {
        reveal_strlit(" {\n    ");
        assert(template.subrange(13, 20) =~= words[1]);
    }
    assert(stands_at(template, words[2], 22, 40)) by {
        reveal_strlit("\n}\nimpl anchor_lang::ToAccountMetas for ");
        assert(template.subrange(22, 62) =~= words[2]);
    }
    assert(stands_at(template, words[3], 64, 115)) by {
        reveal_strlit(" {\n    fn to_account_metas(&self, _is_signer: Option<bool>) -> alloc::vec::Vec<anchor_lang::AccountMeta> {\n        ");
        assert(template.subrange(64, 179) =~= words[3]);
    }
    assert(stands_at(template, words[4], 181, 9)) by {
        reveal_strlit("\n        ");
        assert(template.subrange(181, 190) =~= words[4]);
    }
    assert(stands_at(template, words[5], 192, 59)) by {
        reveal_strlit("\n        let mut __metas = alloc::vec::Vec::new();\n        ");
        assert(template.subrange(192, 251) =~= words[5]);
    }
    assert(stands_at(template, words[6], 253, 24)) by {
        reveal_strlit("\n        __metas\n    }\n}");
        assert(template.subrange(253, 277) =~= words[6]);
    }
}

/// The text of the template, with its holes filled.
pub proof fn lemma_resolved_struct_text(parts: Seq<Seq<char>>)
    requires
        parts.len() == 5,
    ensures
        filled(RESOLVED_STRUCT@, parts) == "pub struct "@ + parts[0] + " {\n    "@ + parts[1] + "\n}\nimpl anchor_lang::ToAccountMetas for "@ + parts[0] + " {\n    fn to_account_metas(&self, _is_signer: Option<bool>) -> alloc::vec::Vec<anchor_lang::AccountMeta> {\n        "@ + parts[2] + "\n        "@ + parts[3] + "\n        let mut __metas = alloc::vec::Vec::new();\n        "@ + parts[4] + "\n        __metas\n    }\n}"@,
{
    let template = RESOLVED_STRUCT@;
    let words = resolved_struct_words();
    lemma_resolved_struct_text_marks();
    let told = filled(template, parts);
    assert(template.skip(0) =~= template);
    let done0 = Seq::<char>::empty();
    assert(told =~= done0 + filled(template.skip(0), parts));
    lemma_filled_from(template, 0, words[0], 'a', parts, done0, told);
    let done1 = words[0] + parts[0];
    assert(done0 + words[0] + parts[0] =~= done1);
    lemma_filled_from(template, 13, words[1], 'b', parts, done1, told);
    let done2 = done1 + words[1] + parts[1];
    lemma_filled_from(template, 22, words[2], 'a', parts, done2, told);
    let done3 = done2 + words[2] + parts[0];
    lemma_filled_from(template, 64, words[3], 'c', parts, done3, told);
    let done4 = done3 + words[3] + parts[2];
    lemma_filled_from(template, 181, words[4], 'd', parts, done4, told);
    let done5 = done4 + words[4] + parts[3];
    lemma_filled_from(template, 192, words[5], 'e', parts, done5, told);
    let done6 = done5 + words[5] + parts[4];
    lemma_filled_last(template, 253, words[6], parts, done6, told);
}

spec fn bumps_struct_words() -> Seq<Seq<char>> {
    seq!["#[derive(Clone)]\npub struct "@, " { "@, " }\n\nimpl ::core::default::Default for "@, "\nwhere\n    "@, "\n{\n    fn default() -> Self {\n        Self {\n            "@, "\n        }\n    }\n}"@]
}

proof fn lemma_bumps_struct_text_marks()
    ensures
        BUMPS_STRUCT@.len() == 165,
        stands_at(BUMPS_STRUCT@, bumps_struct_words()[0], 0, 28),
        BUMPS_STRUCT@[28] == '@' && BUMPS_STRUCT@[29] == 'a',
        stands_at(BUMPS_STRUCT@, bumps_struct_words()[1], 30, 3),
        BUMPS_STRUCT@[33] == '@' && BUMPS_STRUCT@[34] == 'b',
        stands_at(BUMPS_STRUCT@, bumps_struct_words()[2], 35, 38),
        BUMPS_STRUCT@[73] == '@' && BUMPS_STRUCT@[74] == 'a',
        stands_at(BUMPS_STRUCT@, bumps_struct_words()[3], 75, 11),
        BUMPS_STRUCT@[86] == '@' && BUMPS_STRUCT@[87] == 'c',
        stands_at(BUMPS_STRUCT@, bumps_struct_words()[4], 88, 57),
        BUMPS_STRUCT@[145] == '@' && BUMPS_STRUCT@[146] == 'd',
        stands_at(BUMPS_STRUCT@, bumps_struct_words()[5], 147, 18),
{
    let template = BUMPS_STRUCT@;
    let words = bumps_struct_words();
    reveal_strlit("#[derive(Clone)]\npub struct @a { @b }\n\nimpl ::core::default::Default for @a\nwhere\n    @c\n{\n    fn default() -> Self {\n        Self {\n            @d\n        }\n    }\n}");
    assert(stands_at(template, words[0], 0, 28)) by {
        reveal_strlit("#[derive(Clone)]\npub struct ");
        assert(template.subrange(0, 28) =~= words[0]);
    }
    assert(stands_at(template, words[1], 30, 3)) by {
        reveal_strlit(" { ");
        assert(template.subrange(30, 33) =~= words[1]);
    }
    assert(stands_at(template, words[2], 35, 38)) by {
        reveal_strlit(" }\n\nimpl ::core::default::Default for ");
        assert(template.subrange(35, 73) =~= words[2]);
    }
    assert(stands_at(template, words[3], 75, 11)) by {
        reveal_strlit("\nwhere\n    ");
        assert(template.subrange(75, 86) =~= words[3]);
    }
    assert(stands_at(template, words[4], 88, 57)) by {
        reveal_strlit("\n{\n    fn default() -> Self {\n        Self {\n            ");
        assert(template.subrange(88, 145) =~= words[4]);
    }
    assert(stands_at(template, words[5], 147, 18)) by {
        reveal_strlit("\n        }\n    }\n}");
        assert(template.subrange(147, 165) =~= words[5]);
    }
}

/// The text of the template, with its holes filled.
pub proof fn lemma_bumps_struct_text(parts: Seq<Seq<char>>)
    requires
        parts.len() == 4,
    ensures
        filled(BUMPS_STRUCT@, parts) == "#[derive(Clone)]\npub struct "@ + parts[0] + " { "@ + parts[1] + " }\n\nimpl ::core::default::Default for "@ + parts[0] + "\nwhere\n    "@ + parts[2] + "\n{\n    fn default() -> Self {\n        Self {\n            "@ + parts[3] + "\n        }\n    }\n}"@,
{
    let template = BUMPS_STRUCT@;
    let words = bumps_struct_words();
    lemma_bumps_struct_text_marks();
    let told = filled(template, parts);
    assert(template.skip(0) =~= template);
    let done0 = Seq::<char>::empty();
    assert(told =~= done0 + filled(template.skip(0), parts));
    lemma_filled_from(template, 0, words[0], 'a', parts, done0, told);
    let done1 = words[0] + parts[0];
    assert(done0 + words[0] + parts[0] =~= done1);
    lemma_filled_from(template, 30, words[1], 'b', parts, done1, told);
    let done2 = done1 + words[1] + parts[1];
    lemma_filled_from(template, 35, words[2], 'a', parts, done2, told);
    let done3 = done2 + words[2] + parts[0];
    lemma_filled_from(template, 75, words[3], 'c', parts, done3, told);
    let done4 = done3 + words[3] + parts[2];
    lemma_filled_from(template, 88, words[4], 'd', parts, done4, told);
    let done5 = done4 + words[4] + parts[3];
    lemma_filled_last(template, 147, words[5], parts, done5, told);
}

spec fn idl_impl_words() -> Seq<Seq<char>> {
    seq!["#[cfg(feature = \"idl-build\")]\n#[doc(hidden)]\nimpl "@, " {\n    "@, "\n\n    /// **Opaque / unstable.** Walks each account field's\n    /// [`IdlAccountType::__register_idl_deps`] so nested\n    /// user-defined types (plain `#[derive(IdlType)]` structs,\n    /// `#[account]` data types, `#[event]` payload types, etc.)\n    /// transitively register into the IDL's program-level\n    /// `accounts[]` and `types[]` arrays.\n    #[doc(hidden)]\n    pub fn __idl_register_deps(\n        accounts: &mut anchor_lang::__alloc::vec::Vec<&'static str>,\n        types: &mut anchor_lang::__alloc::vec::Vec<&'static str>,\n    ) {\n        "@, "\n    }\n}\n"@]
}

proof fn lemma_idl_impl_text_marks()
    ensures
        IDL_IMPL@.len() == 623,
        stands_at(IDL_IMPL@, idl_impl_words()[0], 0, 50),
        IDL_IMPL@[50] == '@' && IDL_IMPL@[51] == 'a',
        stands_at(IDL_IMPL@, idl_impl_words()[1], 52, 7),
        IDL_IMPL@[59] == '@' && IDL_IMPL@[60] == 'b',
        stands_at(IDL_IMPL@, idl_impl_words()[2], 61, 551),
        IDL_IMPL@[612] == '@' && IDL_IMPL@[613] == 'c',
        stands_at(IDL_IMPL@, idl_impl_words()[3], 614, 9),
{
    let template = IDL_IMPL@;
    let words = idl_impl_words();
    reveal_strlit("#[cfg(feature = \"idl-build\")]\n#[doc(hidden)]\nimpl @a {\n    @b\n\n    /// **Opaque / unstable.** Walks each account field's\n    /// [`IdlAccountType::__register_idl_deps`] so nested\n    /// user-defined types (plain `#[derive(IdlType)]` structs,\n    /// `#[account]` data types, `#[event]` payload types, etc.)\n    /// transitively register into the IDL's program-level\n    /// `accounts[]` and `types[]` arrays.\n    #[doc(hidden)]\n    pub fn __idl_register_deps(\n        accounts: &mut anchor_lang::__alloc::vec::Vec<&'static str>,\n        types: &mut anchor_lang::__alloc::vec::Vec<&'static str>,\n    ) {\n        @c\n    }\n}\n");
    assert(stands_at(template, words[0], 0, 50)) by {
        reveal_strlit("#[cfg(feature = \"idl-build\")]\n#[doc(hidden)]\nimpl ");
        assert(template.subrange(0, 50) =~= words[0]);
    }
    assert(stands_at(template, words[1], 52, 7)) by {
        reveal_strlit(" {\n    ");
        assert(template.subrange(52, 59) =~= words[1]);
    }
    assert(stands_at(template, words[2], 61, 551)) by {
        reveal_strlit("\n\n    /// **Opaque / unstable.** Walks each account field's\n    /// [`IdlAccountType::__register_idl_deps`] so nested\n    /// user-defined types (plain `#[derive(IdlType)]` structs,\n    /// `#[account]` data types, `#[event]` payload types, etc.)\n    /// transitively register into the IDL's program-level\n    /// `accounts[]` and `types[]` arrays.\n    #[doc(hidden)]\n    pub fn __idl_register_deps(\n        accounts: &mut anchor_lang::__alloc::vec::Vec<&'static str>,\n        types: &mut anchor_lang::__alloc::vec::Vec<&'static str>,\n    ) {\n        ");
        assert(template.subrange(61, 612) =~= words[2]);
    }
    assert(stands_at(template, words[3], 614, 9)) by {
        reveal_strlit("\n    }\n}\n");
        assert(template.subrange(614, 623) =~= words[3]);
    }
}

/// The text of the template, with its holes filled.
pub proof fn lemma_idl_impl_text(parts: Seq<Seq<char>>)
    requires
        parts.len() == 3,
    ensures
        filled(IDL_IMPL@, parts) == "#[cfg(feature = \"idl-build\")]\n#[doc(hidden)]\nimpl "@ + parts[0] + " {\n    "@ + parts[1] + "\n\n    /// **Opaque / unstable.** Walks each account field's\n    /// [`IdlAccountType::__register_idl_deps`] so nested\n    /// user-defined types (plain `#[derive(IdlType)]` structs,\n    /// `#[account]` data types, `#[event]` payload types, etc.)\n    /// transitively register into the IDL's program-level\n    /// `accounts[]` and `types[]` arrays.\n    #[doc(hidden)]\n    pub fn __idl_register_deps(\n        accounts: &mut anchor_lang::__alloc::vec::Vec<&'static str>,\n        types: &mut anchor_lang::__alloc::vec::Vec<&'static str>,\n    ) {\n        "@ + parts[2] + "\n    }\n}\n"@,
{
    let template = IDL_IMPL@;
    let words = idl_impl_words();
    lemma_idl_impl_text_marks();
    let told = filled(template, parts);
    assert(template.skip(0) =~= template);
    let done0 = Seq::<char>::empty();
    assert(told =~= done0 + filled(template.skip(0), parts));
    lemma_filled_from(template, 0, words[0], 'a', parts, done0, told);
    let done1 = words[0] + parts[0];
    assert(done0 + words[0] + parts[0] =~= done1);
    lemma_filled_from(template, 52, words[1], 'b', parts, done1, told);
    let done2 = done1 + words[1] + parts[1];
    lemma_filled_from(template, 61, words[2], 'c', parts, done2, told);
    let done3 = done2 + words[2] + parts[2];
    lemma_filled_last(template, 614, words[3], parts, done3, told);
}

spec fn nested_bump_local_words() -> Seq<Seq<char>> {
    seq!["let mut "@, ": <"@, " as anchor_lang::Bumps>::Bumps =\n    ::core::default::Default::default();"@]
}

proof fn lemma_nested_bump_local_text_marks()
    ensures
        NESTED_BUMP_LOCAL@.len() == 88,
        stands_at(NESTED_BUMP_LOCAL@, nested_bump_local_words()[0], 0, 8),
        NESTED_BUMP_LOCAL@[8] == '@' && NESTED_BUMP_LOCAL@[9] == 'a',
        stands_at(NESTED_BUMP_LOCAL@, nested_bump_local_words()[1], 10, 3),
        NESTED_BUMP_LOCAL@[13] == '@' && NESTED_BUMP_LOCAL@[14] == 'b',
        stands_at(NESTED_BUMP_LOCAL@, nested_bump_local_words()[2], 15, 73),
{
    let template = NESTED_BUMP_LOCAL@;
    let words = nested_bump_local_words();
    reveal_strlit("let mut @a: <@b as anchor_lang::Bumps>::Bumps =\n    ::core::default::Default::default();");
    assert(stands_at(template, words[0], 0, 8)) by {
        reveal_strlit("let mut ");
        assert(template.subrange(0, 8) =~= words[0]);
    }
    assert(stands_at(template, words[1], 10, 3)) by {
        reveal_strlit(": <");
        assert(template.subrange(10, 13) =~= words[1]);
    }
    assert(stands_at(template, words[2], 15, 73)) by {
        reveal_strlit(" as anchor_lang::Bumps>::Bumps =\n    ::core::default::Default::default();");
        assert(template.subrange(15, 88) =~= words[2]);
    }
}

/// The text of the template, with its holes filled.
pub proof fn lemma_nested_bump_local_text(parts: Seq<Seq<char>>)
    requires
        parts.len() == 2,
    ensures
        filled(NESTED_BUMP_LOCAL@, parts) == "let mut "@ + parts[0] + ": <"@ + parts[1] + " as anchor_lang::Bumps>::Bumps =\n    ::core::default::Default::default();"@,
{
    let template = NESTED_BUMP_LOCAL@;
    let words = nested_bump_local_words();
    lemma_nested_bump_local_text_marks();
    let told = filled(template, parts);
    assert(template.skip(0) =~= template);
    let done0 = Seq::<char>::empty();
    assert(told =~= done0 + filled(template.skip(0), parts));
    lemma_filled_from(template, 0, words[0], 'a', parts, done0, told);
    let done1 = words[0] + parts[0];
    assert(done0 + words[0] + parts[0] =~= done1);
    lemma_filled_from(template, 10, words[1], 'b', parts, done1, told);
    let done2 = done1 + words[1] + parts[1];
    lemma_filled_last(template, 15, words[2], parts, done2, told);
}

spec fn optional_bump_local_words() -> Seq<Seq<char>> {
    seq!["let mut "@, ": ::core::option::Option<u8> = ::core::default::Default::default();"@]
}

proof fn lemma_optional_bump_local_text_marks()
    ensures
        OPTIONAL_BUMP_LOCAL@.len() == 77,
        stands_at(OPTIONAL_BUMP_LOCAL@, optional_bump_local_words()[0], 0, 8),
        OPTIONAL_BUMP_LOCAL@[8] == '@' && OPTIONAL_BUMP_LOCAL@[9] == 'a',
        stands_at(OPTIONAL_BUMP_LOCAL@, optional_bump_local_words()[1], 10, 67),
{
    let template = OPTIONAL_BUMP_LOCAL@;
    let words = optional_bump_local_words();
    reveal_strlit("let mut @a: ::core::option::Option<u8> = ::core::default::Default::default();");
    assert(stands_at(template, words[0], 0, 8)) by {
        reveal_strlit("let mut ");
        assert(template.subrange(0, 8) =~= words[0]);
    }
    assert(stands_at(template, words[1], 10, 67)) by {
        reveal_strlit(": ::core::option::Option<u8> = ::core::default::Default::default();");
        assert(template.subrange(10, 77) =~= words[1]);
    }
}

/// The text of the template, with its holes filled.
pub proof fn lemma_optional_bump_local_text(parts: Seq<Seq<char>>)
    requires
        parts.len() == 1,
    ensures
        filled(OPTIONAL_BUMP_LOCAL@, parts) == "let mut "@ + parts[0] + ": ::core::option::Option<u8> = ::core::default::Default::default();"@,
{
    let template = OPTIONAL_BUMP_LOCAL@;
    let words = optional_bump_local_words();
    lemma_optional_bump_local_text_marks();
    let told = filled(template, parts);
    assert(template.skip(0) =~= template);
    let done0 = Seq::<char>::empty();
    assert(told =~= done0 + filled(template.skip(0), parts));
    lemma_filled_from(template, 0, words[0], 'a', parts, done0, told);
    let done1 = words[0] + parts[0];
    assert(done0 + words[0] + parts[0] =~= done1);
    lemma_filled_last(template, 10, words[1], parts, done1, told);
}

spec fn bump_local_words() -> Seq<Seq<char>> {
    seq!["let mut "@, ": u8 = ::core::default::Default::default();"@]
}

proof fn lemma_bump_local_text_marks()
    ensures
        BUMP_LOCAL@.len() == 53,
        stands_at(BUMP_LOCAL@, bump_local_words()[0], 0, 8),
        BUMP_LOCAL@[8] == '@' && BUMP_LOCAL@[9] == 'a',
        stands_at(BUMP_LOCAL@, bump_local_words()[1], 10, 43),
{
    let template = BUMP_LOCAL@;
    let words = bump_local_words();
    reveal_strlit("let mut @a: u8 = ::core::default::Default::default();");
    assert(stands_at(template, words[0], 0, 8)) by {
        reveal_strlit("let mut ");
        assert(template.subrange(0, 8) =~= words[0]);
    }
    assert(stands_at(template, words[1], 10, 43)) by {
        reveal_strlit(": u8 = ::core::default::Default::default();");
        assert(template.subrange(10, 53) =~= words[1]);
    }
}

/// The text of the template, with its holes filled.
pub proof fn lemma_bump_local_text(parts: Seq<Seq<char>>)
    requires
        parts.len() == 1,
    ensures
        filled(BUMP_LOCAL@, parts) == "let mut "@ + parts[0] + ": u8 = ::core::default::Default::default();"@,
{
    let template = BUMP_LOCAL@;
    let words = bump_local_words();
    lemma_bump_local_text_marks();
    let told = filled(template, parts);
    assert(template.skip(0) =~= template);
    let done0 = Seq::<char>::empty();
    assert(told =~= done0 + filled(template.skip(0), parts));
    lemma_filled_from(template, 0, words[0], 'a', parts, done0, told);
    let done1 = words[0] + parts[0];
    assert(done0 + words[0] + parts[0] =~= done1);
    lemma_filled_last(template, 10, words[1], parts, done1, told);
}

spec fn mut_bit_words() -> Seq<Seq<char>> {
    seq!["__mask = anchor_lang::mut_mask_set_bit(__mask, "@, ");"@]
}

proof fn lemma_mut_bit_text_marks()
    ensures
        MUT_BIT@.len() == 51,
        stands_at(MUT_BIT@, mut_bit_words()[0], 0, 47),
        MUT_BIT@[47] == '@' && MUT_BIT@[48] == 'a',
        stands_at(MUT_BIT@, mut_bit_words()[1], 49, 2),
{
    let template = MUT_BIT@;
    let words = mut_bit_words();
    reveal_strlit("__mask = anchor_lang::mut_mask_set_bit(__mask, @a);");
    assert(stands_at(template, words[0], 0, 47)) by {
        reveal_strlit("__mask = anchor_lang::mut_mask_set_bit(__mask, ");
        assert(template.subrange(0, 47) =~= words[0]);
    }
    assert(stands_at(template, words[1], 49, 2)) by {
        reveal_strlit(");");
        assert(template.subrange(49, 51) =~= words[1]);
    }
}

/// The text of the template, with its holes filled.
pub proof fn lemma_mut_bit_text(parts: Seq<Seq<char>>)
    requires
        parts.len() == 1,
    ensures
        filled(MUT_BIT@, parts) == "__mask = anchor_lang::mut_mask_set_bit(__mask, "@ + parts[0] + ");"@,
{
    let template = MUT_BIT@;
    let words = mut_bit_words();
    lemma_mut_bit_text_marks();
    let told = filled(template, parts);
    assert(template.skip(0) =~= template);
    let done0 = Seq::<char>::empty();
    assert(told =~= done0 + filled(template.skip(0), parts));
    lemma_filled_from(template, 0, words[0], 'a', parts, done0, told);
    let done1 = words[0] + parts[0];
    assert(done0 + words[0] + parts[0] =~= done1);
    lemma_filled_last(template, 49, words[1], parts, done1, told);
}

spec fn nested_mut_bits_words() -> Seq<Seq<char>> {
    seq!["__mask = anchor_lang::mut_mask_or_shifted(\n    __mask,\n    <"@, " as anchor_lang::TryAccounts>::MUT_MASK,\n    "@, ",\n);"@]
}

proof fn lemma_nested_mut_bits_text_marks()
    ensures
        NESTED_MUT_BITS@.len() == 113,
        stands_at(NESTED_MUT_BITS@, nested_mut_bits_words()[0], 0, 60),
        NESTED_MUT_BITS@[60] == '@' && NESTED_MUT_BITS@[61] == 'a',
        stands_at(NESTED_MUT_BITS@, nested_mut_bits_words()[1], 62, 45),
        NESTED_MUT_BITS@[107] == '@' && NESTED_MUT_BITS@[108] == 'b',
        stands_at(NESTED_MUT_BITS@, nested_mut_bits_words()[2], 109, 4),
{
    let template = NESTED_MUT_BITS@;
    let words = nested_mut_bits_words();
    reveal_strlit("__mask = anchor_lang::mut_mask_or_shifted(\n    __mask,\n    <@a as anchor_lang::TryAccounts>::MUT_MASK,\n    @b,\n);");
    assert(stands_at(template, words[0], 0, 60)) by {
        reveal_strlit("__mask = anchor_lang::mut_mask_or_shifted(\n    __mask,\n    <");
        assert(template.subrange(0, 60) =~= words[0]);
    }
    assert(stands_at(template, words[1], 62, 45)) by {
        reveal_strlit(" as anchor_lang::TryAccounts>::MUT_MASK,\n    ");
        assert(template.subrange(62, 107) =~= words[1]);
    }
    assert(stands_at(template, words[2], 109, 4)) by {
        reveal_strlit(",\n);");
        assert(template.subrange(109, 113) =~= words[2]);
    }
}

/// The text of the template, with its holes filled.
pub proof fn lemma_nested_mut_bits_text(parts: Seq<Seq<char>>)
    requires
        parts.len() == 2,
    ensures
        filled(NESTED_MUT_BITS@, parts) == "__mask = anchor_lang::mut_mask_or_shifted(\n    __mask,\n    <"@ + parts[0] + " as anchor_lang::TryAccounts>::MUT_MASK,\n    "@ + parts[1] + ",\n);"@,
{
    let template = NESTED_MUT_BITS@;
    let words = nested_mut_bits_words();
    lemma_nested_mut_bits_text_marks();
    let told = filled(template, parts);
    assert(template.skip(0) =~= template);
    let done0 = Seq::<char>::empty();
    assert(told =~= done0 + filled(template.skip(0), parts));
    lemma_filled_from(template, 0, words[0], 'a', parts, done0, told);
    let done1 = words[0] + parts[0];
    assert(done0 + words[0] + parts[0] =~= done1);
    lemma_filled_from(template, 62, words[1], 'b', parts, done1, told);
    let done2 = done1 + words[1] + parts[1];
    lemma_filled_last(template, 109, words[2], parts, done2, told);
}

spec fn mut_mask_words() -> Seq<Seq<char>> {
    seq!["{\n    let mut __mask = [0u64; 4];\n    "@, "\n    __mask\n}"@]
}

proof fn lemma_mut_mask_text_marks()
    ensures
        MUT_MASK@.len() == 53,
        stands_at(MUT_MASK@, mut_mask_words()[0], 0, 38),
        MUT_MASK@[38] == '@' && MUT_MASK@[39] == 'a',
        stands_at(MUT_MASK@, mut_mask_words()[1], 40, 13),
{
    let template = MUT_MASK@;
    let words = mut_mask_words();
    reveal_strlit("{\n    let mut __mask = [0u64; 4];\n    @a\n    __mask\n}");
    assert(stands_at(template, words[0], 0, 38)) by {
        reveal_strlit("{\n    let mut __mask = [0u64; 4];\n    ");
        assert(template.subrange(0, 38) =~= words[0]);
    }
    assert(stands_at(template, words[1], 40, 13)) by {
        reveal_strlit("\n    __mask\n}");
        assert(template.subrange(40, 53) =~= words[1]);
    }
}

/// The text of the template, with its holes filled.
pub proof fn lemma_mut_mask_text(parts: Seq<Seq<char>>)
    requires
        parts.len() == 1,
    ensures
        filled(MUT_MASK@, parts) == "{\n    let mut __mask = [0u64; 4];\n    "@ + parts[0] + "\n    __mask\n}"@,
{
    let template = MUT_MASK@;
    let words = mut_mask_words();
    lemma_mut_mask_text_marks();
    let told = filled(template, parts);
    assert(template.skip(0) =~= template);
    let done0 = Seq::<char>::empty();
    assert(told =~= done0 + filled(template.skip(0), parts));
    lemma_filled_from(template, 0, words[0], 'a', parts, done0, told);
    let done1 = words[0] + parts[0];
    assert(done0 + words[0] + parts[0] =~= done1);
    lemma_filled_last(template, 40, words[1], parts, done1, told);
}

spec fn active_mut_bit_words() -> Seq<Seq<char>> {
    seq!["if self."@, ".is_some() {\n    __mask = anchor_lang::mut_mask_set_bit(__mask, "@, ");\n}"@]
}

proof fn lemma_active_mut_bit_text_marks()
    ensures
        ACTIVE_MUT_BIT@.len() == 80,
        stands_at(ACTIVE_MUT_BIT@, active_mut_bit_words()[0], 0, 8),
        ACTIVE_MUT_BIT@[8] == '@' && ACTIVE_MUT_BIT@[9] == 'a',
        stands_at(ACTIVE_MUT_BIT@, active_mut_bit_words()[1], 10, 64),
        ACTIVE_MUT_BIT@[74] == '@' && ACTIVE_MUT_BIT@[75] == 'b',
        stands_at(ACTIVE_MUT_BIT@, active_mut_bit_words()[2], 76, 4),
{
    let template = ACTIVE_MUT_BIT@;
    let words = active_mut_bit_words();
    reveal_strlit("if self.@a.is_some() {\n    __mask = anchor_lang::mut_mask_set_bit(__mask, @b);\n}");
    assert(stands_at(template, words[0], 0, 8)) by {
        reveal_strlit("if self.");
        assert(template.subrange(0, 8) =~= words[0]);
    }
    assert(stands_at(template, words[1], 10, 64)) by {
        reveal_strlit(".is_some() {\n    __mask = anchor_lang::mut_mask_set_bit(__mask, ");
        assert(template.subrange(10, 74) =~= words[1]);
    }
    assert(stands_at(template, words[2], 76, 4)) by {
        reveal_strlit(");\n}");
        assert(template.subrange(76, 80) =~= words[2]);
    }
}

/// The text of the template, with its holes filled.
pub proof fn lemma_active_mut_bit_text(parts: Seq<Seq<char>>)
    requires
        parts.len() == 2,
    ensures
        filled(ACTIVE_MUT_BIT@, parts) == "if self."@ + parts[0] + ".is_some() {\n    __mask = anchor_lang::mut_mask_set_bit(__mask, "@ + parts[1] + ");\n}"@,
{
    let template = ACTIVE_MUT_BIT@;
    let words = active_mut_bit_words();
    lemma_active_mut_bit_text_marks();
    let told = filled(template, parts);
    assert(template.skip(0) =~= template);
    let done0 = Seq::<char>::empty();
    assert(told =~= done0 + filled(template.skip(0), parts));
    lemma_filled_from(template, 0, words[0], 'a', parts, done0, told);
    let done1 = words[0] + parts[0];
    assert(done0 + words[0] + parts[0] =~= done1);
    lemma_filled_from(template, 10, words[1], 'b', parts, done1, told);
    let done2 = done1 + words[1] + parts[1];
    lemma_filled_last(template, 76, words[2], parts, done2, told);
}

spec fn nested_active_mut_bits_words() -> Seq<Seq<char>> {
    seq!["if <"@, " as anchor_lang::TryAccounts>::HAS_DYNAMIC_MUT_MASK {\n    __mask = anchor_lang::mut_mask_or_shifted(\n        __mask,\n        <"@, " as anchor_lang::TryAccounts>::active_mut_mask(&self."@, ".0),\n        "@, ",\n    );\n}"@]
}

proof fn lemma_nested_active_mut_bits_text_marks()
    ensures
        NESTED_ACTIVE_MUT_BITS@.len() == 214,
        stands_at(NESTED_ACTIVE_MUT_BITS@, nested_active_mut_bits_words()[0], 0, 4),
        NESTED_ACTIVE_MUT_BITS@[4] == '@' && NESTED_ACTIVE_MUT_BITS@[5] == 'a',
        stands_at(NESTED_ACTIVE_MUT_BITS@, nested_active_mut_bits_words()[1], 6, 126),
        NESTED_ACTIVE_MUT_BITS@[132] == '@' && NESTED_ACTIVE_MUT_BITS@[133] == 'a',
        stands_at(NESTED_ACTIVE_MUT_BITS@, nested_active_mut_bits_words()[2], 134, 53),
        NESTED_ACTIVE_MUT_BITS@[187] == '@' && NESTED_ACTIVE_MUT_BITS@[188] == 'b',
        stands_at(NESTED_ACTIVE_MUT_BITS@, nested_active_mut_bits_words()[3], 189, 13),
        NESTED_ACTIVE_MUT_BITS@[202] == '@' && NESTED_ACTIVE_MUT_BITS@[203] == 'c',
        stands_at(NESTED_ACTIVE_MUT_BITS@, nested_active_mut_bits_words()[4], 204, 10),
{
    let template = NESTED_ACTIVE_MUT_BITS@;
    let words = nested_active_mut_bits_words();
    reveal_strlit("if <@a as anchor_lang::TryAccounts>::HAS_DYNAMIC_MUT_MASK {\n    __mask = anchor_lang::mut_mask_or_shifted(\n        __mask,\n        <@a as anchor_lang::TryAccounts>::active_mut_mask(&self.@b.0),\n        @c,\n    );\n}");
    assert(stands_at(template, words[0], 0, 4)) by {
        reveal_strlit("if <");
        assert(template.subrange(0, 4) =~= words[0]);
    }
    assert(stands_at(template, words[1], 6, 126)) by {
        reveal_strlit(" as anchor_lang::TryAccounts>::HAS_DYNAMIC_MUT_MASK {\n    __mask = anchor_lang::mut_mask_or_shifted(\n        __mask,\n        <");
        assert(template.subrange(6, 132) =~= words[1]);
    }
    assert(stands_at(template, words[2], 134, 53)) by {
        reveal_strlit(" as anchor_lang::TryAccounts>::active_mut_mask(&self.");
        assert(template.subrange(134, 187) =~= words[2]);
    }
    assert(stands_at(template, words[3], 189, 13)) by {
        reveal_strlit(".0),\n        ");
        assert(template.subrange(189, 202) =~= words[3]);
    }
    assert(stands_at(template, words[4], 204, 10)) by {
        reveal_strlit(",\n    );\n}");
        assert(template.subrange(204, 214) =~= words[4]);
    }
}

/// The text of the template, with its holes filled.
pub proof fn lemma_nested_active_mut_bits_text(parts: Seq<Seq<char>>)
    requires
        parts.len() == 3,
    ensures
        filled(NESTED_ACTIVE_MUT_BITS@, parts) == "if <"@ + parts[0] + " as anchor_lang::TryAccounts>::HAS_DYNAMIC_MUT_MASK {\n    __mask = anchor_lang::mut_mask_or_shifted(\n        __mask,\n        <"@ + parts[0] + " as anchor_lang::TryAccounts>::active_mut_mask(&self."@ + parts[1] + ".0),\n        "@ + parts[2] + ",\n    );\n}"@,
{
    let template = NESTED_ACTIVE_MUT_BITS@;
    let words = nested_active_mut_bits_words();
    lemma_nested_active_mut_bits_text_marks();
    let told = filled(template, parts);
    assert(template.skip(0) =~= template);
    let done0 = Seq::<char>::empty();
    assert(told =~= done0 + filled(template.skip(0), parts));
    lemma_filled_from(template, 0, words[0], 'a', parts, done0, told);
    let done1 = words[0] + parts[0];
    assert(done0 + words[0] + parts[0] =~= done1);
    lemma_filled_from(template, 6, words[1], 'a', parts, done1, told);
    let done2 = done1 + words[1] + parts[0];
    lemma_filled_from(template, 134, words[2], 'b', parts, done2, told);
    let done3 = done2 + words[2] + parts[1];
    lemma_filled_from(template, 189, words[3], 'c', parts, done3, told);
    let done4 = done3 + words[3] + parts[2];
    lemma_filled_last(template, 204, words[4], parts, done4, told);
}

spec fn active_mut_mask_words() -> Seq<Seq<char>> {
    seq!["let mut __mask = Self::MUT_MASK;\n"@, "\n__mask"@]
}

proof fn lemma_active_mut_mask_text_marks()
    ensures
        ACTIVE_MUT_MASK@.len() == 42,
        stands_at(ACTIVE_MUT_MASK@, active_mut_mask_words()[0], 0, 33),
        ACTIVE_MUT_MASK@[33] == '@' && ACTIVE_MUT_MASK@[34] == 'a',
        stands_at(ACTIVE_MUT_MASK@, active_mut_mask_words()[1], 35, 7),
{
    let template = ACTIVE_MUT_MASK@;
    let words = active_mut_mask_words();
    reveal_strlit("let mut __mask = Self::MUT_MASK;\n@a\n__mask");
    assert(stands_at(template, words[0], 0, 33)) by {
        reveal_strlit("let mut __mask = Self::MUT_MASK;\n");
        assert(template.subrange(0, 33) =~= words[0]);
    }
    assert(stands_at(template, words[1], 35, 7)) by {
        reveal_strlit("\n__mask");
        assert(template.subrange(35, 42) =~= words[1]);
    }
}

/// The text of the template, with its holes filled.
pub proof fn lemma_active_mut_mask_text(parts: Seq<Seq<char>>)
    requires
        parts.len() == 1,
    ensures
        filled(ACTIVE_MUT_MASK@, parts) == "let mut __mask = Self::MUT_MASK;\n"@ + parts[0] + "\n__mask"@,
{
    let template = ACTIVE_MUT_MASK@;
    let words = active_mut_mask_words();
    lemma_active_mut_mask_text_marks();
    let told = filled(template, parts);
    assert(template.skip(0) =~= template);
    let done0 = Seq::<char>::empty();
    assert(told =~= done0 + filled(template.skip(0), parts));
    lemma_filled_from(template, 0, words[0], 'a', parts, done0, told);
    let done1 = words[0] + parts[0];
    assert(done0 + words[0] + parts[0] =~= done1);
    lemma_filled_last(template, 35, words[1], parts, done1, told);
}

spec fn nested_idl_deps_words() -> Seq<Seq<char>> {
    seq!["<"@, ">::__idl_register_deps(accounts, types);"@]
}

proof fn lemma_nested_idl_deps_text_marks()
    ensures
        NESTED_IDL_DEPS@.len() == 43,
        stands_at(NESTED_IDL_DEPS@, nested_idl_deps_words()[0], 0, 1),
        NESTED_IDL_DEPS@[1] == '@' && NESTED_IDL_DEPS@[2] == 'a',
        stands_at(NESTED_IDL_DEPS@, nested_idl_deps_words()[1], 3, 40),
{
    let template = NESTED_IDL_DEPS@;
    let words = nested_idl_deps_words();
    reveal_strlit("<@a>::__idl_register_deps(accounts, types);");
    assert(stands_at(template, words[0], 0, 1)) by {
        reveal_strlit("<");
        assert(template.subrange(0, 1) =~= words[0]);
    }
    assert(stands_at(template, words[1], 3, 40)) by {
        reveal_strlit(">::__idl_register_deps(accounts, types);");
        assert(template.subrange(3, 43) =~= words[1]);
    }
}

/// The text of the template, with its holes filled.
pub proof fn lemma_nested_idl_deps_text(parts: Seq<Seq<char>>)
    requires
        parts.len() == 1,
    ensures
        filled(NESTED_IDL_DEPS@, parts) == "<"@ + parts[0] + ">::__idl_register_deps(accounts, types);"@,
{
    let template = NESTED_IDL_DEPS@;
    let words = nested_idl_deps_words();
    lemma_nested_idl_deps_text_marks();
    let told = filled(template, parts);
    assert(template.skip(0) =~= template);
    let done0 = Seq::<char>::empty();
    assert(told =~= done0 + filled(template.skip(0), parts));
    lemma_filled_from(template, 0, words[0], 'a', parts, done0, told);
    let done1 = words[0] + parts[0];
    assert(done0 + words[0] + parts[0] =~= done1);
    lemma_filled_last(template, 3, words[1], parts, done1, told);
}

spec fn idl_deps_words() -> Seq<Seq<char>> {
    seq!["<"@, " as anchor_lang::IdlAccountType>::__register_idl_deps(accounts, types);"@]
}

proof fn lemma_idl_deps_text_marks()
    ensures
        IDL_DEPS@.len() == 74,
        stands_at(IDL_DEPS@, idl_deps_words()[0], 0, 1),
        IDL_DEPS@[1] == '@' && IDL_DEPS@[2] == 'a',
        stands_at(IDL_DEPS@, idl_deps_words()[1], 3, 71),
{
    let template = IDL_DEPS@;
    let words = idl_deps_words();
    reveal_strlit("<@a as anchor_lang::IdlAccountType>::__register_idl_deps(accounts, types);");
    assert(stands_at(template, words[0], 0, 1)) by {
        reveal_strlit("<");
        assert(template.subrange(0, 1) =~= words[0]);
    }
    assert(stands_at(template, words[1], 3, 71)) by {
        reveal_strlit(" as anchor_lang::IdlAccountType>::__register_idl_deps(accounts, types);");
        assert(template.subrange(3, 74) =~= words[1]);
    }
}

/// The text of the template, with its holes filled.
pub proof fn lemma_idl_deps_text(parts: Seq<Seq<char>>)
    requires
        parts.len() == 1,
    ensures
        filled(IDL_DEPS@, parts) == "<"@ + parts[0] + " as anchor_lang::IdlAccountType>::__register_idl_deps(accounts, types);"@,
{
    let template = IDL_DEPS@;
    let words = idl_deps_words();
    lemma_idl_deps_text_marks();
    let told = filled(template, parts);
    assert(template.skip(0) =~= template);
    let done0 = Seq::<char>::empty();
    assert(told =~= done0 + filled(template.skip(0), parts));
    lemma_filled_from(template, 0, words[0], 'a', parts, done0, told);
    let done1 = words[0] + parts[0];
    assert(done0 + words[0] + parts[0] =~= done1);
    lemma_filled_last(template, 3, words[1], parts, done1, told);
}

spec fn client_meta_nested_words() -> Seq<Seq<char>> {
    seq!["__metas.extend(anchor_lang::ToAccountMetas::to_account_metas(\n    "@, ",\n    _is_signer,\n));"@]
}

proof fn lemma_client_meta_nested_text_marks()
    ensures
        CLIENT_META_NESTED@.len() == 89,
        stands_at(CLIENT_META_NESTED@, client_meta_nested_words()[0], 0, 66),
        CLIENT_META_NESTED@[66] == '@' && CLIENT_META_NESTED@[67] == 'a',
        stands_at(CLIENT_META_NESTED@, client_meta_nested_words()[1], 68, 21),
{
    let template = CLIENT_META_NESTED@;
    let words = client_meta_nested_words();
    reveal_strlit("__metas.extend(anchor_lang::ToAccountMetas::to_account_metas(\n    @a,\n    _is_signer,\n));");
    assert(stands_at(template, words[0], 0, 66)) by {
        reveal_strlit("__metas.extend(anchor_lang::ToAccountMetas::to_account_metas(\n    ");
        assert(template.subrange(0, 66) =~= words[0]);
    }
    assert(stands_at(template, words[1], 68, 21)) by {
        reveal_strlit(",\n    _is_signer,\n));");
        assert(template.subrange(68, 89) =~= words[1]);
    }
}

/// The text of the template, with its holes filled.
pub proof fn lemma_client_meta_nested_text(parts: Seq<Seq<char>>)
    requires
        parts.len() == 1,
    ensures
        filled(CLIENT_META_NESTED@, parts) == "__metas.extend(anchor_lang::ToAccountMetas::to_account_metas(\n    "@ + parts[0] + ",\n    _is_signer,\n));"@,
{
    let template = CLIENT_META_NESTED@;
    let words = client_meta_nested_words();
    lemma_client_meta_nested_text_marks();
    let told = filled(template, parts);
    assert(template.skip(0) =~= template);
    let done0 = Seq::<char>::empty();
    assert(told =~= done0 + filled(template.skip(0), parts));
    lemma_filled_from(template, 0, words[0], 'a', parts, done0, told);
    let done1 = words[0] + parts[0];
    assert(done0 + words[0] + parts[0] =~= done1);
    lemma_filled_last(template, 68, words[1], parts, done1, told);
}

spec fn client_meta_optional_words() -> Seq<Seq<char>> {
    seq!["match "@, " {\n    Some(__addr) => __metas.push(anchor_lang::AccountMeta {\n        pubkey: __addr,\n        is_writable: "@, ",\n        is_signer: "@, ",\n    }),\n    None => __metas.push(anchor_lang::AccountMeta {\n        pubkey: "@, ",\n        is_writable: false,\n        is_signer: false,\n    }),\n}"@]
}

proof fn lemma_client_meta_optional_text_marks()
    ensures
        CLIENT_META_OPTIONAL@.len() == 286,
        stands_at(CLIENT_META_OPTIONAL@, client_meta_optional_words()[0], 0, 6),
        CLIENT_META_OPTIONAL@[6] == '@' && CLIENT_META_OPTIONAL@[7] == 'a',
        stands_at(CLIENT_META_OPTIONAL@, client_meta_optional_words()[1], 8, 108),
        CLIENT_META_OPTIONAL@[116] == '@' && CLIENT_META_OPTIONAL@[117] == 'b',
        stands_at(CLIENT_META_OPTIONAL@, client_meta_optional_words()[2], 118, 21),
        CLIENT_META_OPTIONAL@[139] == '@' && CLIENT_META_OPTIONAL@[140] == 'c',
        stands_at(CLIENT_META_OPTIONAL@, client_meta_optional_words()[3], 141, 78),
        CLIENT_META_OPTIONAL@[219] == '@' && CLIENT_META_OPTIONAL@[220] == 'd',
        stands_at(CLIENT_META_OPTIONAL@, client_meta_optional_words()[4], 221, 65),
{
    let template = CLIENT_META_OPTIONAL@;
    let words = client_meta_optional_words();
    reveal_strlit("match @a {\n    Some(__addr) => __metas.push(anchor_lang::AccountMeta {\n        pubkey: __addr,\n        is_writable: @b,\n        is_signer: @c,\n    }),\n    None => __metas.push(anchor_lang::AccountMeta {\n        pubkey: @d,\n        is_writable: false,\n        is_signer: false,\n    }),\n}");
    assert(stands_at(template, words[0], 0, 6)) by {
        reveal_strlit("match ");
        assert(template.subrange(0, 6) =~= words[0]);
    }
    assert(stands_at(template, words[1], 8, 108)) by {
        reveal_strlit(" {\n    Some(__addr) => __metas.push(anchor_lang::AccountMeta {\n        pubkey: __addr,\n        is_writable: ");
        assert(template.subrange(8, 116) =~= words[1]);
    }
    assert(stands_at(template, words[2], 118, 21)) by {
        reveal_strlit(",\n        is_signer: ");
        assert(template.subrange(118, 139) =~= words[2]);
    }
    assert(stands_at(template, words[3], 141, 78)) by {
        reveal_strlit(",\n    }),\n    None => __metas.push(anchor_lang::AccountMeta {\n        pubkey: ");
        assert(template.subrange(141, 219) =~= words[3]);
    }
    assert(stands_at(template, words[4], 221, 65)) by {
        reveal_strlit(",\n        is_writable: false,\n        is_signer: false,\n    }),\n}");
        assert(template.subrange(221, 286) =~= words[4]);
    }
}

/// The text of the template, with its holes filled.
pub proof fn lemma_client_meta_optional_text(parts: Seq<Seq<char>>)
    requires
        parts.len() == 4,
    ensures
        filled(CLIENT_META_OPTIONAL@, parts) == "match "@ + parts[0] + " {\n    Some(__addr) => __metas.push(anchor_lang::AccountMeta {\n        pubkey: __addr,\n        is_writable: "@ + parts[1] + ",\n        is_signer: "@ + parts[2] + ",\n    }),\n    None => __metas.push(anchor_lang::AccountMeta {\n        pubkey: "@ + parts[3] + ",\n        is_writable: false,\n        is_signer: false,\n    }),\n}"@,
{
    let template = CLIENT_META_OPTIONAL@;
    let words = client_meta_optional_words();
    lemma_client_meta_optional_text_marks();
    let told = filled(template, parts);
    assert(template.skip(0) =~= template);
    let done0 = Seq::<char>::empty();
    assert(told =~= done0 + filled(template.skip(0), parts));
    lemma_filled_from(template, 0, words[0], 'a', parts, done0, told);
    let done1 = words[0] + parts[0];
    assert(done0 + words[0] + parts[0] =~= done1);
    lemma_filled_from(template, 8, words[1], 'b', parts, done1, told);
    let done2 = done1 + words[1] + parts[1];
    lemma_filled_from(template, 118, words[2], 'c', parts, done2, told);
    let done3 = done2 + words[2] + parts[2];
    lemma_filled_from(template, 141, words[3], 'd', parts, done3, told);
    let done4 = done3 + words[3] + parts[3];
    lemma_filled_last(template, 221, words[4], parts, done4, told);
}

spec fn client_meta_words() -> Seq<Seq<char>> {
    seq!["__metas.push(anchor_lang::AccountMeta {\n    pubkey: "@, ",\n    is_writable: "@, ",\n    is_signer: "@, ",\n});"@]
}

proof fn lemma_client_meta_text_marks()
    ensures
        CLIENT_META@.len() == 99,
        stands_at(CLIENT_META@, client_meta_words()[0], 0, 52),
        CLIENT_META@[52] == '@' && CLIENT_META@[53] == 'a',
        stands_at(CLIENT_META@, client_meta_words()[1], 54, 19),
        CLIENT_META@[73] == '@' && CLIENT_META@[74] == 'b',
        stands_at(CLIENT_META@, client_meta_words()[2], 75, 17),
        CLIENT_META@[92] == '@' && CLIENT_META@[93] == 'c',
        stands_at(CLIENT_META@, client_meta_words()[3], 94, 5),
{
    let template = CLIENT_META@;
    let words = client_meta_words();
    reveal_strlit("__metas.push(anchor_lang::AccountMeta {\n    pubkey: @a,\n    is_writable: @b,\n    is_signer: @c,\n});");
    assert(stands_at(template, words[0], 0, 52)) by {
        reveal_strlit("__metas.push(anchor_lang::AccountMeta {\n    pubkey: ");
        assert(template.subrange(0, 52) =~= words[0]);
    }
    assert(stands_at(template, words[1], 54, 19)) by {
        reveal_strlit(",\n    is_writable: ");
        assert(template.subrange(54, 73) =~= words[1]);
    }
    assert(stands_at(template, words[2], 75, 17)) by {
        reveal_strlit(",\n    is_signer: ");
        assert(template.subrange(75, 92) =~= words[2]);
    }
    assert(stands_at(template, words[3], 94, 5)) by {
        reveal_strlit(",\n});");
        assert(template.subrange(94, 99) =~= words[3]);
    }
}

/// The text of the template, with its holes filled.
pub proof fn lemma_client_meta_text(parts: Seq<Seq<char>>)
    requires
        parts.len() == 3,
    ensures
        filled(CLIENT_META@, parts) == "__metas.push(anchor_lang::AccountMeta {\n    pubkey: "@ + parts[0] + ",\n    is_writable: "@ + parts[1] + ",\n    is_signer: "@ + parts[2] + ",\n});"@,
{
    let template = CLIENT_META@;
    let words = client_meta_words();
    lemma_client_meta_text_marks();
    let told = filled(template, parts);
    assert(template.skip(0) =~= template);
    let done0 = Seq::<char>::empty();
    assert(told =~= done0 + filled(template.skip(0), parts));
    lemma_filled_from(template, 0, words[0], 'a', parts, done0, told);
    let done1 = words[0] + parts[0];
    assert(done0 + words[0] + parts[0] =~= done1);
    lemma_filled_from(template, 54, words[1], 'b', parts, done1, told);
    let done2 = done1 + words[1] + parts[1];
    lemma_filled_from(template, 75, words[2], 'c', parts, done2, told);
    let done3 = done2 + words[2] + parts[2];
    lemma_filled_last(template, 94, words[3], parts, done3, told);
}

spec fn cpi_nested_field_words() -> Seq<Seq<char>> {
    seq!["#[nested]\npub "@, ": "@, "<'a>"@]
}

proof fn lemma_cpi_nested_field_text_marks()
    ensures
        CPI_NESTED_FIELD@.len() == 24,
        stands_at(CPI_NESTED_FIELD@, cpi_nested_field_words()[0], 0, 14),
        CPI_NESTED_FIELD@[14] == '@' && CPI_NESTED_FIELD@[15] == 'a',
        stands_at(CPI_NESTED_FIELD@, cpi_nested_field_words()[1], 16, 2),
        CPI_NESTED_FIELD@[18] == '@' && CPI_NESTED_FIELD@[19] == 'b',
        stands_at(CPI_NESTED_FIELD@, cpi_nested_field_words()[2], 20, 4),
{
    let template = CPI_NESTED_FIELD@;
    let words = cpi_nested_field_words();
    reveal_strlit("#[nested]\npub @a: @b<'a>");
    assert(stands_at(template, words[0], 0, 14)) by {
        reveal_strlit("#[nested]\npub ");
        assert(template.subrange(0, 14) =~= words[0]);
    }
    assert(stands_at(template, words[1], 16, 2)) by {
        reveal_strlit(": ");
        assert(template.subrange(16, 18) =~= words[1]);
    }
    assert(stands_at(template, words[2], 20, 4)) by {
        reveal_strlit("<'a>");
        assert(template.subrange(20, 24) =~= words[2]);
    }
}

/// The text of the template, with its holes filled.
pub proof fn lemma_cpi_nested_field_text(parts: Seq<Seq<char>>)
    requires
        parts.len() == 2,
    ensures
        filled(CPI_NESTED_FIELD@, parts) == "#[nested]\npub "@ + parts[0] + ": "@ + parts[1] + "<'a>"@,
{
    let template = CPI_NESTED_FIELD@;
    let words = cpi_nested_field_words();
    lemma_cpi_nested_field_text_marks();
    let told = filled(template, parts);
    assert(template.skip(0) =~= template);
    let done0 = Seq::<char>::empty();
    assert(told =~= done0 + filled(template.skip(0), parts));
    lemma_filled_from(template, 0, words[0], 'a', parts, done0, told);
    let done1 = words[0] + parts[0];
    assert(done0 + words[0] + parts[0] =~= done1);
    lemma_filled_from(template, 16, words[1], 'b', parts, done1, told);
    let done2 = done1 + words[1] + parts[1];
    lemma_filled_last(template, 20, words[2], parts, done2, told);
}

spec fn cpi_optional_writable_field_words() -> Seq<Seq<char>> {
    seq!["#[signer("@, ")]\npub "@, ": ::core::option::Option<anchor_lang::CpiHandleMut<'a>>"@]
}

proof fn lemma_cpi_optional_writable_field_text_marks()
    ensures
        CPI_OPTIONAL_WRITABLE_FIELD@.len() == 75,
        stands_at(CPI_OPTIONAL_WRITABLE_FIELD@, cpi_optional_writable_field_words()[0], 0, 9),
        CPI_OPTIONAL_WRITABLE_FIELD@[9] == '@' && CPI_OPTIONAL_WRITABLE_FIELD@[10] == 'a',
        stands_at(CPI_OPTIONAL_WRITABLE_FIELD@, cpi_optional_writable_field_words()[1], 11, 7),
        CPI_OPTIONAL_WRITABLE_FIELD@[18] == '@' && CPI_OPTIONAL_WRITABLE_FIELD@[19] == 'b',
        stands_at(CPI_OPTIONAL_WRITABLE_FIELD@, cpi_optional_writable_field_words()[2], 20, 55),
{
    let template = CPI_OPTIONAL_WRITABLE_FIELD@;
    let words = cpi_optional_writable_field_words();
    reveal_strlit("#[signer(@a)]\npub @b: ::core::option::Option<anchor_lang::CpiHandleMut<'a>>");
    assert(stands_at(template, words[0], 0, 9)) by {
        reveal_strlit("#[signer(");
        assert(template.subrange(0, 9) =~= words[0]);
    }
    assert(stands_at(template, words[1], 11, 7)) by {
        reveal_strlit(")]\npub ");
        assert(template.subrange(11, 18) =~= words[1]);
    }
    assert(stands_at(template, words[2], 20, 55)) by {
        reveal_strlit(": ::core::option::Option<anchor_lang::CpiHandleMut<'a>>");
        assert(template.subrange(20, 75) =~= words[2]);
    }
}

/// The text of the template, with its holes filled.
pub proof fn lemma_cpi_optional_writable_field_text(parts: Seq<Seq<char>>)
    requires
        parts.len() == 2,
    ensures
        filled(CPI_OPTIONAL_WRITABLE_FIELD@, parts) == "#[signer("@ + parts[0] + ")]\npub "@ + parts[1] + ": ::core::option::Option<anchor_lang::CpiHandleMut<'a>>"@,
{
    let template = CPI_OPTIONAL_WRITABLE_FIELD@;
    let words = cpi_optional_writable_field_words();
    lemma_cpi_optional_writable_field_text_marks();
    let told = filled(template, parts);
    assert(template.skip(0) =~= template);
    let done0 = Seq::<char>::empty();
    assert(told =~= done0 + filled(template.skip(0), parts));
    lemma_filled_from(template, 0, words[0], 'a', parts, done0, told);
    let done1 = words[0] + parts[0];
    assert(done0 + words[0] + parts[0] =~= done1);
    lemma_filled_from(template, 11, words[1], 'b', parts, done1, told);
    let done2 = done1 + words[1] + parts[1];
    lemma_filled_last(template, 20, words[2], parts, done2, told);
}

spec fn cpi_optional_field_words() -> Seq<Seq<char>> {
    seq!["#[signer("@, ")]\npub "@, ": ::core::option::Option<anchor_lang::CpiHandle<'a>>"@]
}

proof fn lemma_cpi_optional_field_text_marks()
    ensures
        CPI_OPTIONAL_FIELD@.len() == 72,
        stands_at(CPI_OPTIONAL_FIELD@, cpi_optional_field_words()[0], 0, 9),
        CPI_OPTIONAL_FIELD@[9] == '@' && CPI_OPTIONAL_FIELD@[10] == 'a',
        stands_at(CPI_OPTIONAL_FIELD@, cpi_optional_field_words()[1], 11, 7),
        CPI_OPTIONAL_FIELD@[18] == '@' && CPI_OPTIONAL_FIELD@[19] == 'b',
        stands_at(CPI_OPTIONAL_FIELD@, cpi_optional_field_words()[2], 20, 52),
{
    let template = CPI_OPTIONAL_FIELD@;
    let words = cpi_optional_field_words();
    reveal_strlit("#[signer(@a)]\npub @b: ::core::option::Option<anchor_lang::CpiHandle<'a>>");
    assert(stands_at(template, words[0], 0, 9)) by {
        reveal_strlit("#[signer(");
        assert(template.subrange(0, 9) =~= words[0]);
    }
    assert(stands_at(template, words[1], 11, 7)) by {
        reveal_strlit(")]\npub ");
        assert(template.subrange(11, 18) =~= words[1]);
    }
    assert(stands_at(template, words[2], 20, 52)) by {
        reveal_strlit(": ::core::option::Option<anchor_lang::CpiHandle<'a>>");
        assert(template.subrange(20, 72) =~= words[2]);
    }
}

/// The text of the template, with its holes filled.
pub proof fn lemma_cpi_optional_field_text(parts: Seq<Seq<char>>)
    requires
        parts.len() == 2,
    ensures
        filled(CPI_OPTIONAL_FIELD@, parts) == "#[signer("@ + parts[0] + ")]\npub "@ + parts[1] + ": ::core::option::Option<anchor_lang::CpiHandle<'a>>"@,
{
    let template = CPI_OPTIONAL_FIELD@;
    let words = cpi_optional_field_words();
    lemma_cpi_optional_field_text_marks();
    let told = filled(template, parts);
    assert(template.skip(0) =~= template);
    let done0 = Seq::<char>::empty();
    assert(told =~= done0 + filled(template.skip(0), parts));
    lemma_filled_from(template, 0, words[0], 'a', parts, done0, told);
    let done1 = words[0] + parts[0];
    assert(done0 + words[0] + parts[0] =~= done1);
    lemma_filled_from(template, 11, words[1], 'b', parts, done1, told);
    let done2 = done1 + words[1] + parts[1];
    lemma_filled_last(template, 20, words[2], parts, done2, told);
}

spec fn cpi_writable_field_words() -> Seq<Seq<char>> {
    seq!["#[signer("@, ")]\npub "@, ": anchor_lang::CpiHandleMut<'a>"@]
}

proof fn lemma_cpi_writable_field_text_marks()
    ensures
        CPI_WRITABLE_FIELD@.len() == 51,
        stands_at(CPI_WRITABLE_FIELD@, cpi_writable_field_words()[0], 0, 9),
        CPI_WRITABLE_FIELD@[9] == '@' && CPI_WRITABLE_FIELD@[10] == 'a',
        stands_at(CPI_WRITABLE_FIELD@, cpi_writable_field_words()[1], 11, 7),
        CPI_WRITABLE_FIELD@[18] == '@' && CPI_WRITABLE_FIELD@[19] == 'b',
        stands_at(CPI_WRITABLE_FIELD@, cpi_writable_field_words()[2], 20, 31),
{
    let template = CPI_WRITABLE_FIELD@;
    let words = cpi_writable_field_words();
    reveal_strlit("#[signer(@a)]\npub @b: anchor_lang::CpiHandleMut<'a>");
    assert(stands_at(template, words[0], 0, 9)) by {
        reveal_strlit("#[signer(");
        assert(template.subrange(0, 9) =~= words[0]);
    }
    assert(stands_at(template, words[1], 11, 7)) by {
        reveal_strlit(")]\npub ");
        assert(template.subrange(11, 18) =~= words[1]);
    }
    assert(stands_at(template, words[2], 20, 31)) by {
        reveal_strlit(": anchor_lang::CpiHandleMut<'a>");
        assert(template.subrange(20, 51) =~= words[2]);
    }
}

/// The text of the template, with its holes filled.
pub proof fn lemma_cpi_writable_field_text(parts: Seq<Seq<char>>)
    requires
        parts.len() == 2,
    ensures
        filled(CPI_WRITABLE_FIELD@, parts) == "#[signer("@ + parts[0] + ")]\npub "@ + parts[1] + ": anchor_lang::CpiHandleMut<'a>"@,
{
    let template = CPI_WRITABLE_FIELD@;
    let words = cpi_writable_field_words();
    lemma_cpi_writable_field_text_marks();
    let told = filled(template, parts);
    assert(template.skip(0) =~= template);
    let done0 = Seq::<char>::empty();
    assert(told =~= done0 + filled(template.skip(0), parts));
    lemma_filled_from(template, 0, words[0], 'a', parts, done0, told);
    let done1 = words[0] + parts[0];
    assert(done0 + words[0] + parts[0] =~= done1);
    lemma_filled_from(template, 11, words[1], 'b', parts, done1, told);
    let done2 = done1 + words[1] + parts[1];
    lemma_filled_last(template, 20, words[2], parts, done2, told);
}

spec fn cpi_field_words() -> Seq<Seq<char>> {
    seq!["#[signer("@, ")]\npub "@, ": anchor_lang::CpiHandle<'a>"@]
}

proof fn lemma_cpi_field_text_marks()
    ensures
        CPI_FIELD@.len() == 48,
        stands_at(CPI_FIELD@, cpi_field_words()[0], 0, 9),
        CPI_FIELD@[9] == '@' && CPI_FIELD@[10] == 'a',
        stands_at(CPI_FIELD@, cpi_field_words()[1], 11, 7),
        CPI_FIELD@[18] == '@' && CPI_FIELD@[19] == 'b',
        stands_at(CPI_FIELD@, cpi_field_words()[2], 20, 28),
{
    let template = CPI_FIELD@;
    let words = cpi_field_words();
    reveal_strlit("#[signer(@a)]\npub @b: anchor_lang::CpiHandle<'a>");
    assert(stands_at(template, words[0], 0, 9)) by {
        reveal_strlit("#[signer(");
        assert(template.subrange(0, 9) =~= words[0]);
    }
    assert(stands_at(template, words[1], 11, 7)) by {
        reveal_strlit(")]\npub ");
        assert(template.subrange(11, 18) =~= words[1]);
    }
    assert(stands_at(template, words[2], 20, 28)) by {
        reveal_strlit(": anchor_lang::CpiHandle<'a>");
        assert(template.subrange(20, 48) =~= words[2]);
    }
}

/// The text of the template, with its holes filled.
pub proof fn lemma_cpi_field_text(parts: Seq<Seq<char>>)
    requires
        parts.len() == 2,
    ensures
        filled(CPI_FIELD@, parts) == "#[signer("@ + parts[0] + ")]\npub "@ + parts[1] + ": anchor_lang::CpiHandle<'a>"@,
{
    let template = CPI_FIELD@;
    let words = cpi_field_words();
    lemma_cpi_field_text_marks();
    let told = filled(template, parts);
    assert(template.skip(0) =~= template);
    let done0 = Seq::<char>::empty();
    assert(told =~= done0 + filled(template.skip(0), parts));
    lemma_filled_from(template, 0, words[0], 'a', parts, done0, told);
    let done1 = words[0] + parts[0];
    assert(done0 + words[0] + parts[0] =~= done1);
    lemma_filled_from(template, 11, words[1], 'b', parts, done1, told);
    let done2 = done1 + words[1] + parts[1];
    lemma_filled_last(template, 20, words[2], parts, done2, told);
}

spec fn cpi_constructor_words() -> Seq<Seq<char>> {
    seq!["impl<'a> "@, "<'a> {\n    #[inline]\n    pub const fn new() -> Self {\n        Self { _phantom: ::core::marker::PhantomData }\n    }\n}\nimpl<'a> ::core::default::Default for "@, "<'a> {\n    #[inline]\n    fn default() -> Self { Self::new() }\n}"@]
}

proof fn lemma_cpi_constructor_text_marks()
    ensures
        CPI_CONSTRUCTOR@.len() == 231,
        stands_at(CPI_CONSTRUCTOR@, cpi_constructor_words()[0], 0, 9),
        CPI_CONSTRUCTOR@[9] == '@' && CPI_CONSTRUCTOR@[10] == 'a',
        stands_at(CPI_CONSTRUCTOR@, cpi_constructor_words()[1], 11, 155),
        CPI_CONSTRUCTOR@[166] == '@' && CPI_CONSTRUCTOR@[167] == 'a',
        stands_at(CPI_CONSTRUCTOR@, cpi_constructor_words()[2], 168, 63),
{
    let template = CPI_CONSTRUCTOR@;
    let words = cpi_constructor_words();
    reveal_strlit("impl<'a> @a<'a> {\n    #[inline]\n    pub const fn new() -> Self {\n        Self { _phantom: ::core::marker::PhantomData }\n    }\n}\nimpl<'a> ::core::default::Default for @a<'a> {\n    #[inline]\n    fn default() -> Self { Self::new() }\n}");
    assert(stands_at(template, words[0], 0, 9)) by {
        reveal_strlit("impl<'a> ");
        assert(template.subrange(0, 9) =~= words[0]);
    }
    assert(stands_at(template, words[1], 11, 155)) by {
        reveal_strlit("<'a> {\n    #[inline]\n    pub const fn new() -> Self {\n        Self { _phantom: ::core::marker::PhantomData }\n    }\n}\nimpl<'a> ::core::default::Default for ");
        assert(template.subrange(11, 166) =~= words[1]);
    }
    assert(stands_at(template, words[2], 168, 63)) by {
        reveal_strlit("<'a> {\n    #[inline]\n    fn default() -> Self { Self::new() }\n}");
        assert(template.subrange(168, 231) =~= words[2]);
    }
}

/// The text of the template, with its holes filled.
pub proof fn lemma_cpi_constructor_text(parts: Seq<Seq<char>>)
    requires
        parts.len() == 1,
    ensures
        filled(CPI_CONSTRUCTOR@, parts) == "impl<'a> "@ + parts[0] + "<'a> {\n    #[inline]\n    pub const fn new() -> Self {\n        Self { _phantom: ::core::marker::PhantomData }\n    }\n}\nimpl<'a> ::core::default::Default for "@ + parts[0] + "<'a> {\n    #[inline]\n    fn default() -> Self { Self::new() }\n}"@,
{
    let template = CPI_CONSTRUCTOR@;
    let words = cpi_constructor_words();
    lemma_cpi_constructor_text_marks();
    let told = filled(template, parts);
    assert(template.skip(0) =~= template);
    let done0 = Seq::<char>::empty();
    assert(told =~= done0 + filled(template.skip(0), parts));
    lemma_filled_from(template, 0, words[0], 'a', parts, done0, told);
    let done1 = words[0] + parts[0];
    assert(done0 + words[0] + parts[0] =~= done1);
    lemma_filled_from(template, 11, words[1], 'a', parts, done1, told);
    let done2 = done1 + words[1] + parts[0];
    lemma_filled_last(template, 168, words[2], parts, done2, told);
}

spec fn client_signer_words() -> Seq<Seq<char>> {
    seq!["if <"@, " as anchor_lang::AnchorAccount>::IS_SIGNER || "@, " {\n    _is_signer.unwrap_or(true)\n} else {\n    false\n}"@]
}

proof fn lemma_client_signer_text_marks()
    ensures
        CLIENT_SIGNER@.len() == 108,
        stands_at(CLIENT_SIGNER@, client_signer_words()[0], 0, 4),
        CLIENT_SIGNER@[4] == '@' && CLIENT_SIGNER@[5] == 'a',
        stands_at(CLIENT_SIGNER@, client_signer_words()[1], 6, 46),
        CLIENT_SIGNER@[52] == '@' && CLIENT_SIGNER@[53] == 'b',
        stands_at(CLIENT_SIGNER@, client_signer_words()[2], 54, 54),
{
    let template = CLIENT_SIGNER@;
    let words = client_signer_words();
    reveal_strlit("if <@a as anchor_lang::AnchorAccount>::IS_SIGNER || @b {\n    _is_signer.unwrap_or(true)\n} else {\n    false\n}");
    assert(stands_at(template, words[0], 0, 4)) by {
        reveal_strlit("if <");
        assert(template.subrange(0, 4) =~= words[0]);
    }
    assert(stands_at(template, words[1], 6, 46)) by {
        reveal_strlit(" as anchor_lang::AnchorAccount>::IS_SIGNER || ");
        assert(template.subrange(6, 52) =~= words[1]);
    }
    assert(stands_at(template, words[2], 54, 54)) by {
        reveal_strlit(" {\n    _is_signer.unwrap_or(true)\n} else {\n    false\n}");
        assert(template.subrange(54, 108) =~= words[2]);
    }
}

/// The text of the template, with its holes filled.
pub proof fn lemma_client_signer_text(parts: Seq<Seq<char>>)
    requires
        parts.len() == 2,
    ensures
        filled(CLIENT_SIGNER@, parts) == "if <"@ + parts[0] + " as anchor_lang::AnchorAccount>::IS_SIGNER || "@ + parts[1] + " {\n    _is_signer.unwrap_or(true)\n} else {\n    false\n}"@,
{
    let template = CLIENT_SIGNER@;
    let words = client_signer_words();
    lemma_client_signer_text_marks();
    let told = filled(template, parts);
    assert(template.skip(0) =~= template);
    let done0 = Seq::<char>::empty();
    assert(told =~= done0 + filled(template.skip(0), parts));
    lemma_filled_from(template, 0, words[0], 'a', parts, done0, told);
    let done1 = words[0] + parts[0];
    assert(done0 + words[0] + parts[0] =~= done1);
    lemma_filled_from(template, 6, words[1], 'b', parts, done1, told);
    let done2 = done1 + words[1] + parts[1];
    lemma_filled_last(template, 54, words[2], parts, done2, told);
}

spec fn cpi_signer_words() -> Seq<Seq<char>> {
    seq!["<"@, " as anchor_lang::AnchorAccount>::IS_SIGNER || "@]
}

proof fn lemma_cpi_signer_text_marks()
    ensures
        CPI_SIGNER@.len() == 51,
        stands_at(CPI_SIGNER@, cpi_signer_words()[0], 0, 1),
        CPI_SIGNER@[1] == '@' && CPI_SIGNER@[2] == 'a',
        stands_at(CPI_SIGNER@, cpi_signer_words()[1], 3, 46),
        CPI_SIGNER@[49] == '@' && CPI_SIGNER@[50] == 'b',
{
    let template = CPI_SIGNER@;
    let words = cpi_signer_words();
    reveal_strlit("<@a as anchor_lang::AnchorAccount>::IS_SIGNER || @b");
    assert(stands_at(template, words[0], 0, 1)) by {
        reveal_strlit("<");
        assert(template.subrange(0, 1) =~= words[0]);
    }
    assert(stands_at(template, words[1], 3, 46)) by {
        reveal_strlit(" as anchor_lang::AnchorAccount>::IS_SIGNER || ");
        assert(template.subrange(3, 49) =~= words[1]);
    }
}

/// The text of the template, with its holes filled.
pub proof fn lemma_cpi_signer_text(parts: Seq<Seq<char>>)
    requires
        parts.len() == 2,
    ensures
        filled(CPI_SIGNER@, parts) == "<"@ + parts[0] + " as anchor_lang::AnchorAccount>::IS_SIGNER || "@ + parts[1],
{
    let template = CPI_SIGNER@;
    let words = cpi_signer_words();
    lemma_cpi_signer_text_marks();
    let told = filled(template, parts);
    assert(template.skip(0) =~= template);
    let done0 = Seq::<char>::empty();
    assert(told =~= done0 + filled(template.skip(0), parts));
    lemma_filled_from(template, 0, words[0], 'a', parts, done0, told);
    let done1 = words[0] + parts[0];
    assert(done0 + words[0] + parts[0] =~= done1);
    lemma_filled_from(template, 3, words[1], 'b', parts, done1, told);
    let done2 = done1 + words[1] + parts[1];
    assert(template.skip(51) =~= Seq::<char>::empty());
    assert(told =~= done2);
}

spec fn derived_pda_words() -> Seq<Seq<char>> {
    seq!["let ("@, ", _) = anchor_lang::find_program_address(\n    &["@, "], "@, ",\n);"@]
}

proof fn lemma_derived_pda_text_marks()
    ensures
        DERIVED_PDA@.len() == 66,
        stands_at(DERIVED_PDA@, derived_pda_words()[0], 0, 5),
        DERIVED_PDA@[5] == '@' && DERIVED_PDA@[6] == 'a',
        stands_at(DERIVED_PDA@, derived_pda_words()[1], 7, 48),
        DERIVED_PDA@[55] == '@' && DERIVED_PDA@[56] == 'b',
        stands_at(DERIVED_PDA@, derived_pda_words()[2], 57, 3),
        DERIVED_PDA@[60] == '@' && DERIVED_PDA@[61] == 'c',
        stands_at(DERIVED_PDA@, derived_pda_words()[3], 62, 4),
{
    let template = DERIVED_PDA@;
    let words = derived_pda_words();
    reveal_strlit("let (@a, _) = anchor_lang::find_program_address(\n    &[@b], @c,\n);");
    assert(stands_at(template, words[0], 0, 5)) by {
        reveal_strlit("let (");
        assert(template.subrange(0, 5) =~= words[0]);
    }
    assert(stands_at(template, words[1], 7, 48)) by {
        reveal_strlit(", _) = anchor_lang::find_program_address(\n    &[");
        assert(template.subrange(7, 55) =~= words[1]);
    }
    assert(stands_at(template, words[2], 57, 3)) by {
        reveal_strlit("], ");
        assert(template.subrange(57, 60) =~= words[2]);
    }
    assert(stands_at(template, words[3], 62, 4)) by {
        reveal_strlit(",\n);");
        assert(template.subrange(62, 66) =~= words[3]);
    }
}

/// The text of the template, with its holes filled.
pub proof fn lemma_derived_pda_text(parts: Seq<Seq<char>>)
    requires
        parts.len() == 3,
    ensures
        filled(DERIVED_PDA@, parts) == "let ("@ + parts[0] + ", _) = anchor_lang::find_program_address(\n    &["@ + parts[1] + "], "@ + parts[2] + ",\n);"@,
{
    let template = DERIVED_PDA@;
    let words = derived_pda_words();
    lemma_derived_pda_text_marks();
    let told = filled(template, parts);
    assert(template.skip(0) =~= template);
    let done0 = Seq::<char>::empty();
    assert(told =~= done0 + filled(template.skip(0), parts));
    lemma_filled_from(template, 0, words[0], 'a', parts, done0, told);
    let done1 = words[0] + parts[0];
    assert(done0 + words[0] + parts[0] =~= done1);
    lemma_filled_from(template, 7, words[1], 'b', parts, done1, told);
    let done2 = done1 + words[1] + parts[1];
    lemma_filled_from(template, 57, words[2], 'c', parts, done2, told);
    let done3 = done2 + words[2] + parts[2];
    lemma_filled_last(template, 62, words[3], parts, done3, told);
}

spec fn optional_bump_field_words() -> Seq<Seq<char>> {
    seq!["pub "@, ": Option<u8>"@]
}

proof fn lemma_optional_bump_field_text_marks()
    ensures
        "pub @a: Option<u8>"@.len() == 18,
        stands_at("pub @a: Option<u8>"@, optional_bump_field_words()[0], 0, 4),
        "pub @a: Option<u8>"@[4] == '@' && "pub @a: Option<u8>"@[5] == 'a',
        stands_at("pub @a: Option<u8>"@, optional_bump_field_words()[1], 6, 12),
{
    let template = "pub @a: Option<u8>"@;
    let words = optional_bump_field_words();
    reveal_strlit("pub @a: Option<u8>");
    assert(stands_at(template, words[0], 0, 4)) by {
        reveal_strlit("pub ");
        assert(template.subrange(0, 4) =~= words[0]);
    }
    assert(stands_at(template, words[1], 6, 12)) by {
        reveal_strlit(": Option<u8>");
        assert(template.subrange(6, 18) =~= words[1]);
    }
}

/// The text of the template, with its holes filled.
pub proof fn lemma_optional_bump_field_text(parts: Seq<Seq<char>>)
    requires
        parts.len() == 1,
    ensures
        filled("pub @a: Option<u8>"@, parts) == "pub "@ + parts[0] + ": Option<u8>"@,
{
    let template = "pub @a: Option<u8>"@;
    let words = optional_bump_field_words();
    lemma_optional_bump_field_text_marks();
    let told = filled(template, parts);
    assert(template.skip(0) =~= template);
    let done0 = Seq::<char>::empty();
    assert(told =~= done0 + filled(template.skip(0), parts));
    lemma_filled_from(template, 0, words[0], 'a', parts, done0, told);
    let done1 = words[0] + parts[0];
    assert(done0 + words[0] + parts[0] =~= done1);
    lemma_filled_last(template, 6, words[1], parts, done1, told);
}

spec fn bump_field_words() -> Seq<Seq<char>> {
    seq!["pub "@, ": u8"@]
}

proof fn lemma_bump_field_text_marks()
    ensures
        "pub @a: u8"@.len() == 10,
        stands_at("pub @a: u8"@, bump_field_words()[0], 0, 4),
        "pub @a: u8"@[4] == '@' && "pub @a: u8"@[5] == 'a',
        stands_at("pub @a: u8"@, bump_field_words()[1], 6, 4),
{
    let template = "pub @a: u8"@;
    let words = bump_field_words();
    reveal_strlit("pub @a: u8");
    assert(stands_at(template, words[0], 0, 4)) by {
        reveal_strlit("pub ");
        assert(template.subrange(0, 4) =~= words[0]);
    }
    assert(stands_at(template, words[1], 6, 4)) by {
        reveal_strlit(": u8");
        assert(template.subrange(6, 10) =~= words[1]);
    }
}

/// The text of the template, with its holes filled.
pub proof fn lemma_bump_field_text(parts: Seq<Seq<char>>)
    requires
        parts.len() == 1,
    ensures
        filled("pub @a: u8"@, parts) == "pub "@ + parts[0] + ": u8"@,
{
    let template = "pub @a: u8"@;
    let words = bump_field_words();
    lemma_bump_field_text_marks();
    let told = filled(template, parts);
    assert(template.skip(0) =~= template);
    let done0 = Seq::<char>::empty();
    assert(told =~= done0 + filled(template.skip(0), parts));
    lemma_filled_from(template, 0, words[0], 'a', parts, done0, told);
    let done1 = words[0] + parts[0];
    assert(done0 + words[0] + parts[0] =~= done1);
    lemma_filled_last(template, 6, words[1], parts, done1, told);
}

spec fn nested_bump_field_words() -> Seq<Seq<char>> {
    seq!["pub "@, ": <"@, " as anchor_lang::Bumps>::Bumps"@]
}

proof fn lemma_nested_bump_field_text_marks()
    ensures
        "pub @a: <@b as anchor_lang::Bumps>::Bumps"@.len() == 41,
        stands_at("pub @a: <@b as anchor_lang::Bumps>::Bumps"@, nested_bump_field_words()[0], 0, 4),
        "pub @a: <@b as anchor_lang::Bumps>::Bumps"@[4] == '@' && "pub @a: <@b as anchor_lang::Bumps>::Bumps"@[5] == 'a',
        stands_at("pub @a: <@b as anchor_lang::Bumps>::Bumps"@, nested_bump_field_words()[1], 6, 3),
        "pub @a: <@b as anchor_lang::Bumps>::Bumps"@[9] == '@' && "pub @a: <@b as anchor_lang::Bumps>::Bumps"@[10] == 'b',
        stands_at("pub @a: <@b as anchor_lang::Bumps>::Bumps"@, nested_bump_field_words()[2], 11, 30),
{
    let template = "pub @a: <@b as anchor_lang::Bumps>::Bumps"@;
    let words = nested_bump_field_words();
    reveal_strlit("pub @a: <@b as anchor_lang::Bumps>::Bumps");
    assert(stands_at(template, words[0], 0, 4)) by {
        reveal_strlit("pub ");
        assert(template.subrange(0, 4) =~= words[0]);
    }
    assert(stands_at(template, words[1], 6, 3)) by {
        reveal_strlit(": <");
        assert(template.subrange(6, 9) =~= words[1]);
    }
    assert(stands_at(template, words[2], 11, 30)) by {
        reveal_strlit(" as anchor_lang::Bumps>::Bumps");
        assert(template.subrange(11, 41) =~= words[2]);
    }
}

/// The text of the template, with its holes filled.
pub proof fn lemma_nested_bump_field_text(parts: Seq<Seq<char>>)
    requires
        parts.len() == 2,
    ensures
        filled("pub @a: <@b as anchor_lang::Bumps>::Bumps"@, parts) == "pub "@ + parts[0] + ": <"@ + parts[1] + " as anchor_lang::Bumps>::Bumps"@,
{
    let template = "pub @a: <@b as anchor_lang::Bumps>::Bumps"@;
    let words = nested_bump_field_words();
    lemma_nested_bump_field_text_marks();
    let told = filled(template, parts);
    assert(template.skip(0) =~= template);
    let done0 = Seq::<char>::empty();
    assert(told =~= done0 + filled(template.skip(0), parts));
    lemma_filled_from(template, 0, words[0], 'a', parts, done0, told);
    let done1 = words[0] + parts[0];
    assert(done0 + words[0] + parts[0] =~= done1);
    lemma_filled_from(template, 6, words[1], 'b', parts, done1, told);
    let done2 = done1 + words[1] + parts[1];
    lemma_filled_last(template, 11, words[2], parts, done2, told);
}

spec fn bump_bound_words() -> Seq<Seq<char>> {
    seq!["<"@, " as anchor_lang::Bumps>::Bumps: ::core::default::Default"@]
}

proof fn lemma_bump_bound_text_marks()
    ensures
        "<@a as anchor_lang::Bumps>::Bumps: ::core::default::Default"@.len() == 59,
        stands_at("<@a as anchor_lang::Bumps>::Bumps: ::core::default::Default"@, bump_bound_words()[0], 0, 1),
        "<@a as anchor_lang::Bumps>::Bumps: ::core::default::Default"@[1] == '@' && "<@a as anchor_lang::Bumps>::Bumps: ::core::default::Default"@[2] == 'a',
        stands_at("<@a as anchor_lang::Bumps>::Bumps: ::core::default::Default"@, bump_bound_words()[1], 3, 56),
{
    let template = "<@a as anchor_lang::Bumps>::Bumps: ::core::default::Default"@;
    let words = bump_bound_words();
    reveal_strlit("<@a as anchor_lang::Bumps>::Bumps: ::core::default::Default");
    assert(stands_at(template, words[0], 0, 1)) by {
        reveal_strlit("<");
        assert(template.subrange(0, 1) =~= words[0]);
    }
    assert(stands_at(template, words[1], 3, 56)) by {
        reveal_strlit(" as anchor_lang::Bumps>::Bumps: ::core::default::Default");
        assert(template.subrange(3, 59) =~= words[1]);
    }
}

/// The text of the template, with its holes filled.
pub proof fn lemma_bump_bound_text(parts: Seq<Seq<char>>)
    requires
        parts.len() == 1,
    ensures
        filled("<@a as anchor_lang::Bumps>::Bumps: ::core::default::Default"@, parts) == "<"@ + parts[0] + " as anchor_lang::Bumps>::Bumps: ::core::default::Default"@,
{
    let template = "<@a as anchor_lang::Bumps>::Bumps: ::core::default::Default"@;
    let words = bump_bound_words();
    lemma_bump_bound_text_marks();
    let told = filled(template, parts);
    assert(template.skip(0) =~= template);
    let done0 = Seq::<char>::empty();
    assert(told =~= done0 + filled(template.skip(0), parts));
    lemma_filled_from(template, 0, words[0], 'a', parts, done0, told);
    let done1 = words[0] + parts[0];
    assert(done0 + words[0] + parts[0] =~= done1);
    lemma_filled_last(template, 3, words[1], parts, done1, told);
}

spec fn bump_value_words() -> Seq<Seq<char>> {
    seq![": "@]
}

proof fn lemma_bump_value_text_marks()
    ensures
        "@a: @b"@.len() == 6,
        "@a: @b"@[0] == '@' && "@a: @b"@[1] == 'a',
        stands_at("@a: @b"@, bump_value_words()[0], 2, 2),
        "@a: @b"@[4] == '@' && "@a: @b"@[5] == 'b',
{
    let template = "@a: @b"@;
    let words = bump_value_words();
    reveal_strlit("@a: @b");
    assert(stands_at(template, words[0], 2, 2)) by {
        reveal_strlit(": ");
        assert(template.subrange(2, 4) =~= words[0]);
    }
}

/// The text of the template, with its holes filled.
pub proof fn lemma_bump_value_text(parts: Seq<Seq<char>>)
    requires
        parts.len() == 2,
    ensures
        filled("@a: @b"@, parts) == parts[0] + ": "@ + parts[1],
{
    let template = "@a: @b"@;
    let words = bump_value_words();
    lemma_bump_value_text_marks();
    let told = filled(template, parts);
    assert(template.skip(0) =~= template);
    let done0 = Seq::<char>::empty();
    assert(told =~= done0 + filled(template.skip(0), parts));
    assert(template.subrange(0, 0) =~= Seq::<char>::empty());
    lemma_filled_from(template, 0, Seq::<char>::empty(), 'a', parts, done0, told);
    let done1 = parts[0];
    assert(done0 + Seq::<char>::empty() + parts[0] =~= done1);
    lemma_filled_from(template, 2, words[0], 'b', parts, done1, told);
    let done2 = done1 + words[0] + parts[1];
    assert(template.skip(6) =~= Seq::<char>::empty());
    assert(told =~= done2);
}

spec fn bump_default_words() -> Seq<Seq<char>> {
    seq![": ::core::default::Default::default()"@]
}

proof fn lemma_bump_default_text_marks()
    ensures
        "@a: ::core::default::Default::default()"@.len() == 39,
        "@a: ::core::default::Default::default()"@[0] == '@' && "@a: ::core::default::Default::default()"@[1] == 'a',
        stands_at("@a: ::core::default::Default::default()"@, bump_default_words()[0], 2, 37),
{
    let template = "@a: ::core::default::Default::default()"@;
    let words = bump_default_words();
    reveal_strlit("@a: ::core::default::Default::default()");
    assert(stands_at(template, words[0], 2, 37)) by {
        reveal_strlit(": ::core::default::Default::default()");
        assert(template.subrange(2, 39) =~= words[0]);
    }
}

/// The text of the template, with its holes filled.
pub proof fn lemma_bump_default_text(parts: Seq<Seq<char>>)
    requires
        parts.len() == 1,
    ensures
        filled("@a: ::core::default::Default::default()"@, parts) == parts[0] + ": ::core::default::Default::default()"@,
{
    let template = "@a: ::core::default::Default::default()"@;
    let words = bump_default_words();
    lemma_bump_default_text_marks();
    let told = filled(template, parts);
    assert(template.skip(0) =~= template);
    let done0 = Seq::<char>::empty();
    assert(told =~= done0 + filled(template.skip(0), parts));
    assert(template.subrange(0, 0) =~= Seq::<char>::empty());
    lemma_filled_from(template, 0, Seq::<char>::empty(), 'a', parts, done0, told);
    let done1 = parts[0];
    assert(done0 + Seq::<char>::empty() + parts[0] =~= done1);
    lemma_filled_last(template, 2, words[0], parts, done1, told);
}

spec fn header_term_words() -> Seq<Seq<char>> {
    seq![" + <"@, " as anchor_lang::TryAccounts>::HEADER_SIZE"@]
}

proof fn lemma_header_term_text_marks()
    ensures
        " + <@a as anchor_lang::TryAccounts>::HEADER_SIZE"@.len() == 48,
        stands_at(" + <@a as anchor_lang::TryAccounts>::HEADER_SIZE"@, header_term_words()[0], 0, 4),
        " + <@a as anchor_lang::TryAccounts>::HEADER_SIZE"@[4] == '@' && " + <@a as anchor_lang::TryAccounts>::HEADER_SIZE"@[5] == 'a',
        stands_at(" + <@a as anchor_lang::TryAccounts>::HEADER_SIZE"@, header_term_words()[1], 6, 42),
{
    let template = " + <@a as anchor_lang::TryAccounts>::HEADER_SIZE"@;
    let words = header_term_words();
    reveal_strlit(" + <@a as anchor_lang::TryAccounts>::HEADER_SIZE");
    assert(stands_at(template, words[0], 0, 4)) by {
        reveal_strlit(" + <");
        assert(template.subrange(0, 4) =~= words[0]);
    }
    assert(stands_at(template, words[1], 6, 42)) by {
        reveal_strlit(" as anchor_lang::TryAccounts>::HEADER_SIZE");
        assert(template.subrange(6, 48) =~= words[1]);
    }
}

/// The text of the template, with its holes filled.
pub proof fn lemma_header_term_text(parts: Seq<Seq<char>>)
    requires
        parts.len() == 1,
    ensures
        filled(" + <@a as anchor_lang::TryAccounts>::HEADER_SIZE"@, parts) == " + <"@ + parts[0] + " as anchor_lang::TryAccounts>::HEADER_SIZE"@,
{
    let template = " + <@a as anchor_lang::TryAccounts>::HEADER_SIZE"@;
    let words = header_term_words();
    lemma_header_term_text_marks();
    let told = filled(template, parts);
    assert(template.skip(0) =~= template);
    let done0 = Seq::<char>::empty();
    assert(told =~= done0 + filled(template.skip(0), parts));
    lemma_filled_from(template, 0, words[0], 'a', parts, done0, told);
    let done1 = words[0] + parts[0];
    assert(done0 + words[0] + parts[0] =~= done1);
    lemma_filled_last(template, 6, words[1], parts, done1, told);
}

spec fn dynamic_term_words() -> Seq<Seq<char>> {
    seq![" || <"@, " as anchor_lang::TryAccounts>::HAS_DYNAMIC_MUT_MASK"@]
}

proof fn lemma_dynamic_term_text_marks()
    ensures
        " || <@a as anchor_lang::TryAccounts>::HAS_DYNAMIC_MUT_MASK"@.len() == 58,
        stands_at(" || <@a as anchor_lang::TryAccounts>::HAS_DYNAMIC_MUT_MASK"@, dynamic_term_words()[0], 0, 5),
        " || <@a as anchor_lang::TryAccounts>::HAS_DYNAMIC_MUT_MASK"@[5] == '@' && " || <@a as anchor_lang::TryAccounts>::HAS_DYNAMIC_MUT_MASK"@[6] == 'a',
        stands_at(" || <@a as anchor_lang::TryAccounts>::HAS_DYNAMIC_MUT_MASK"@, dynamic_term_words()[1], 7, 51),
{
    let template = " || <@a as anchor_lang::TryAccounts>::HAS_DYNAMIC_MUT_MASK"@;
    let words = dynamic_term_words();
    reveal_strlit(" || <@a as anchor_lang::TryAccounts>::HAS_DYNAMIC_MUT_MASK");
    assert(stands_at(template, words[0], 0, 5)) by {
        reveal_strlit(" || <");
        assert(template.subrange(0, 5) =~= words[0]);
    }
    assert(stands_at(template, words[1], 7, 51)) by {
        reveal_strlit(" as anchor_lang::TryAccounts>::HAS_DYNAMIC_MUT_MASK");
        assert(template.subrange(7, 58) =~= words[1]);
    }
}

/// The text of the template, with its holes filled.
pub proof fn lemma_dynamic_term_text(parts: Seq<Seq<char>>)
    requires
        parts.len() == 1,
    ensures
        filled(" || <@a as anchor_lang::TryAccounts>::HAS_DYNAMIC_MUT_MASK"@, parts) == " || <"@ + parts[0] + " as anchor_lang::TryAccounts>::HAS_DYNAMIC_MUT_MASK"@,
{
    let template = " || <@a as anchor_lang::TryAccounts>::HAS_DYNAMIC_MUT_MASK"@;
    let words = dynamic_term_words();
    lemma_dynamic_term_text_marks();
    let told = filled(template, parts);
    assert(template.skip(0) =~= template);
    let done0 = Seq::<char>::empty();
    assert(told =~= done0 + filled(template.skip(0), parts));
    lemma_filled_from(template, 0, words[0], 'a', parts, done0, told);
    let done1 = words[0] + parts[0];
    assert(done0 + words[0] + parts[0] =~= done1);
    lemma_filled_last(template, 7, words[1], parts, done1, told);
}

spec fn nested_client_field_words() -> Seq<Seq<char>> {
    seq!["pub "@, ": "@]
}

proof fn lemma_nested_client_field_text_marks()
    ensures
        "pub @a: @b"@.len() == 10,
        stands_at("pub @a: @b"@, nested_client_field_words()[0], 0, 4),
        "pub @a: @b"@[4] == '@' && "pub @a: @b"@[5] == 'a',
        stands_at("pub @a: @b"@, nested_client_field_words()[1], 6, 2),
        "pub @a: @b"@[8] == '@' && "pub @a: @b"@[9] == 'b',
{
    let template = "pub @a: @b"@;
    let words = nested_client_field_words();
    reveal_strlit("pub @a: @b");
    assert(stands_at(template, words[0], 0, 4)) by {
        reveal_strlit("pub ");
        assert(template.subrange(0, 4) =~= words[0]);
    }
    assert(stands_at(template, words[1], 6, 2)) by {
        reveal_strlit(": ");
        assert(template.subrange(6, 8) =~= words[1]);
    }
}

/// The text of the template, with its holes filled.
pub proof fn lemma_nested_client_field_text(parts: Seq<Seq<char>>)
    requires
        parts.len() == 2,
    ensures
        filled("pub @a: @b"@, parts) == "pub "@ + parts[0] + ": "@ + parts[1],
{
    let template = "pub @a: @b"@;
    let words = nested_client_field_words();
    lemma_nested_client_field_text_marks();
    let told = filled(template, parts);
    assert(template.skip(0) =~= template);
    let done0 = Seq::<char>::empty();
    assert(told =~= done0 + filled(template.skip(0), parts));
    lemma_filled_from(template, 0, words[0], 'a', parts, done0, told);
    let done1 = words[0] + parts[0];
    assert(done0 + words[0] + parts[0] =~= done1);
    lemma_filled_from(template, 6, words[1], 'b', parts, done1, told);
    let done2 = done1 + words[1] + parts[1];
    assert(template.skip(10) =~= Seq::<char>::empty());
    assert(told =~= done2);
}

spec fn optional_client_field_words() -> Seq<Seq<char>> {
    seq!["pub "@, ": Option<anchor_lang::Address>"@]
}

proof fn lemma_optional_client_field_text_marks()
    ensures
        "pub @a: Option<anchor_lang::Address>"@.len() == 36,
        stands_at("pub @a: Option<anchor_lang::Address>"@, optional_client_field_words()[0], 0, 4),
        "pub @a: Option<anchor_lang::Address>"@[4] == '@' && "pub @a: Option<anchor_lang::Address>"@[5] == 'a',
        stands_at("pub @a: Option<anchor_lang::Address>"@, optional_client_field_words()[1], 6, 30),
{
    let template = "pub @a: Option<anchor_lang::Address>"@;
    let words = optional_client_field_words();
    reveal_strlit("pub @a: Option<anchor_lang::Address>");
    assert(stands_at(template, words[0], 0, 4)) by {
        reveal_strlit("pub ");
        assert(template.subrange(0, 4) =~= words[0]);
    }
    assert(stands_at(template, words[1], 6, 30)) by {
        reveal_strlit(": Option<anchor_lang::Address>");
        assert(template.subrange(6, 36) =~= words[1]);
    }
}

/// The text of the template, with its holes filled.
pub proof fn lemma_optional_client_field_text(parts: Seq<Seq<char>>)
    requires
        parts.len() == 1,
    ensures
        filled("pub @a: Option<anchor_lang::Address>"@, parts) == "pub "@ + parts[0] + ": Option<anchor_lang::Address>"@,
{
    let template = "pub @a: Option<anchor_lang::Address>"@;
    let words = optional_client_field_words();
    lemma_optional_client_field_text_marks();
    let told = filled(template, parts);
    assert(template.skip(0) =~= template);
    let done0 = Seq::<char>::empty();
    assert(told =~= done0 + filled(template.skip(0), parts));
    lemma_filled_from(template, 0, words[0], 'a', parts, done0, told);
    let done1 = words[0] + parts[0];
    assert(done0 + words[0] + parts[0] =~= done1);
    lemma_filled_last(template, 6, words[1], parts, done1, told);
}

spec fn client_field_words() -> Seq<Seq<char>> {
    seq!["pub "@, ": anchor_lang::Address"@]
}

proof fn lemma_client_field_text_marks()
    ensures
        "pub @a: anchor_lang::Address"@.len() == 28,
        stands_at("pub @a: anchor_lang::Address"@, client_field_words()[0], 0, 4),
        "pub @a: anchor_lang::Address"@[4] == '@' && "pub @a: anchor_lang::Address"@[5] == 'a',
        stands_at("pub @a: anchor_lang::Address"@, client_field_words()[1], 6, 22),
{
    let template = "pub @a: anchor_lang::Address"@;
    let words = client_field_words();
    reveal_strlit("pub @a: anchor_lang::Address");
    assert(stands_at(template, words[0], 0, 4)) by {
        reveal_strlit("pub ");
        assert(template.subrange(0, 4) =~= words[0]);
    }
    assert(stands_at(template, words[1], 6, 22)) by {
        reveal_strlit(": anchor_lang::Address");
        assert(template.subrange(6, 28) =~= words[1]);
    }
}

/// The text of the template, with its holes filled.
pub proof fn lemma_client_field_text(parts: Seq<Seq<char>>)
    requires
        parts.len() == 1,
    ensures
        filled("pub @a: anchor_lang::Address"@, parts) == "pub "@ + parts[0] + ": anchor_lang::Address"@,
{
    let template = "pub @a: anchor_lang::Address"@;
    let words = client_field_words();
    lemma_client_field_text_marks();
    let told = filled(template, parts);
    assert(template.skip(0) =~= template);
    let done0 = Seq::<char>::empty();
    assert(told =~= done0 + filled(template.skip(0), parts));
    lemma_filled_from(template, 0, words[0], 'a', parts, done0, told);
    let done1 = words[0] + parts[0];
    assert(done0 + words[0] + parts[0] =~= done1);
    lemma_filled_last(template, 6, words[1], parts, done1, told);
}

spec fn nested_local_words() -> Seq<Seq<char>> {
    seq!["let "@, " = &self."@, "; "@]
}

proof fn lemma_nested_local_text_marks()
    ensures
        "let @a = &self.@b; "@.len() == 19,
        stands_at("let @a = &self.@b; "@, nested_local_words()[0], 0, 4),
        "let @a = &self.@b; "@[4] == '@' && "let @a = &self.@b; "@[5] == 'a',
        stands_at("let @a = &self.@b; "@, nested_local_words()[1], 6, 9),
        "let @a = &self.@b; "@[15] == '@' && "let @a = &self.@b; "@[16] == 'b',
        stands_at("let @a = &self.@b; "@, nested_local_words()[2], 17, 2),
{
    let template = "let @a = &self.@b; "@;
    let words = nested_local_words();
    reveal_strlit("let @a = &self.@b; ");
    assert(stands_at(template, words[0], 0, 4)) by {
        reveal_strlit("let ");
        assert(template.subrange(0, 4) =~= words[0]);
    }
    assert(stands_at(template, words[1], 6, 9)) by {
        reveal_strlit(" = &self.");
        assert(template.subrange(6, 15) =~= words[1]);
    }
    assert(stands_at(template, words[2], 17, 2)) by {
        reveal_strlit("; ");
        assert(template.subrange(17, 19) =~= words[2]);
    }
}

/// The text of the template, with its holes filled.
pub proof fn lemma_nested_local_text(parts: Seq<Seq<char>>)
    requires
        parts.len() == 2,
    ensures
        filled("let @a = &self.@b; "@, parts) == "let "@ + parts[0] + " = &self."@ + parts[1] + "; "@,
{
    let template = "let @a = &self.@b; "@;
    let words = nested_local_words();
    lemma_nested_local_text_marks();
    let told = filled(template, parts);
    assert(template.skip(0) =~= template);
    let done0 = Seq::<char>::empty();
    assert(told =~= done0 + filled(template.skip(0), parts));
    lemma_filled_from(template, 0, words[0], 'a', parts, done0, told);
    let done1 = words[0] + parts[0];
    assert(done0 + words[0] + parts[0] =~= done1);
    lemma_filled_from(template, 6, words[1], 'b', parts, done1, told);
    let done2 = done1 + words[1] + parts[1];
    lemma_filled_last(template, 17, words[2], parts, done2, told);
}

spec fn local_words() -> Seq<Seq<char>> {
    seq!["let "@, " = self."@, "; "@]
}

proof fn lemma_local_text_marks()
    ensures
        "let @a = self.@b; "@.len() == 18,
        stands_at("let @a = self.@b; "@, local_words()[0], 0, 4),
        "let @a = self.@b; "@[4] == '@' && "let @a = self.@b; "@[5] == 'a',
        stands_at("let @a = self.@b; "@, local_words()[1], 6, 8),
        "let @a = self.@b; "@[14] == '@' && "let @a = self.@b; "@[15] == 'b',
        stands_at("let @a = self.@b; "@, local_words()[2], 16, 2),
{
    let template = "let @a = self.@b; "@;
    let words = local_words();
    reveal_strlit("let @a = self.@b; ");
    assert(stands_at(template, words[0], 0, 4)) by {
        reveal_strlit("let ");
        assert(template.subrange(0, 4) =~= words[0]);
    }
    assert(stands_at(template, words[1], 6, 8)) by {
        reveal_strlit(" = self.");
        assert(template.subrange(6, 14) =~= words[1]);
    }
    assert(stands_at(template, words[2], 16, 2)) by {
        reveal_strlit("; ");
        assert(template.subrange(16, 18) =~= words[2]);
    }
}

/// The text of the template, with its holes filled.
pub proof fn lemma_local_text(parts: Seq<Seq<char>>)
    requires
        parts.len() == 2,
    ensures
        filled("let @a = self.@b; "@, parts) == "let "@ + parts[0] + " = self."@ + parts[1] + "; "@,
{
    let template = "let @a = self.@b; "@;
    let words = local_words();
    lemma_local_text_marks();
    let told = filled(template, parts);
    assert(template.skip(0) =~= template);
    let done0 = Seq::<char>::empty();
    assert(told =~= done0 + filled(template.skip(0), parts));
    lemma_filled_from(template, 0, words[0], 'a', parts, done0, told);
    let done1 = words[0] + parts[0];
    assert(done0 + words[0] + parts[0] =~= done1);
    lemma_filled_from(template, 6, words[1], 'b', parts, done1, told);
    let done2 = done1 + words[1] + parts[1];
    lemma_filled_last(template, 16, words[2], parts, done2, told);
}

} // verus!
