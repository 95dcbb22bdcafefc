//! The texts of the code for declared programs: each template, with its holes filled.

use crate::declared_errors::ERRORS;
use crate::declared_events::{
    EVENTS, EVENT_DATA_BORSH, EVENT_DATA_POD, EVENT_IMPLS, PARSERS, PARSE_BORSH, PARSE_BRANCH,
    PARSE_POD,
};
use crate::declared_program::{ACCOUNTS_STRUCT, HANDLER, PROGRAM};
use crate::passages::{
    in_hole, lemma_filled_from, lemma_filled_last, lemma_filled_tells, pieces_stand, stands_at,
    tells,
};
use crate::template::filled;
use vstd::prelude::*;

verus! {

spec fn program_words() -> Seq<Seq<char>> {
    seq!["pub mod "@, " {\n    use super::*;\n\n    #[allow(dead_code)]\n    const __ANCHOR_DECLARE_PROGRAM_IDL_BYTES: &[u8] = include_bytes!("@, ");\n\n    pub const ID: anchor_lang::Address =\n        anchor_lang::address!("@, ");\n\n    pub mod program {\n        pub struct "@, ";\n\n        impl anchor_lang::Id for "@, " {\n            const IDL_ADDRESS: &'static str = "@, ";\n\n            fn id() -> anchor_lang::Address {\n                super::ID\n            }\n        }\n    }\n\n"@, "    "@, "\n    pub mod types {\n        "@, "\n    }\n    pub mod constants {\n        "@, "\n    }\n"@, "\n    "@, "\n"@, "\n\n"@, "    #[anchor_lang::program(interface, program_id = ID)]\n    pub mod __program {\n        use super::*;\n        "@, "\n    }\n}"@]
}

proof fn lemma_program_told_marks()
    ensures
        PROGRAM@.len() == 673,
        !in_hole(PROGRAM@, 0),
        !in_hole(PROGRAM@, 446),
        stands_at(PROGRAM@, program_words()[0], 0, 8),
        PROGRAM@[8] == '@' && PROGRAM@[9] == 'a',
        stands_at(PROGRAM@, program_words()[1], 10, 115),
        PROGRAM@[125] == '@' && PROGRAM@[126] == 'b',
        stands_at(PROGRAM@, program_words()[2], 127, 75),
        PROGRAM@[202] == '@' && PROGRAM@[203] == 'c',
        stands_at(PROGRAM@, program_words()[3], 204, 45),
        PROGRAM@[249] == '@' && PROGRAM@[250] == 'd',
        stands_at(PROGRAM@, program_words()[4], 251, 36),
        PROGRAM@[287] == '@' && PROGRAM@[288] == 'd',
        stands_at(PROGRAM@, program_words()[5], 289, 49),
        PROGRAM@[338] == '@' && PROGRAM@[339] == 'c',
        stands_at(PROGRAM@, program_words()[6], 340, 106),
        !in_hole(PROGRAM@, 531),
        stands_at(PROGRAM@, program_words()[7], 446, 4),
        PROGRAM@[450] == '@' && PROGRAM@[451] == 'e',
        stands_at(PROGRAM@, program_words()[8], 452, 29),
        PROGRAM@[481] == '@' && PROGRAM@[482] == 'f',
        stands_at(PROGRAM@, program_words()[9], 483, 39),
        PROGRAM@[522] == '@' && PROGRAM@[523] == 'g',
        stands_at(PROGRAM@, program_words()[10], 524, 7),
        !in_hole(PROGRAM@, 545),
        stands_at(PROGRAM@, program_words()[7], 531, 4),
        PROGRAM@[535] == '@' && PROGRAM@[536] == 'h',
        stands_at(PROGRAM@, program_words()[11], 537, 5),
        PROGRAM@[542] == '@' && PROGRAM@[543] == 'i',
        stands_at(PROGRAM@, program_words()[12], 544, 1),
        !in_hole(PROGRAM@, 553),
        stands_at(PROGRAM@, program_words()[7], 545, 4),
        PROGRAM@[549] == '@' && PROGRAM@[550] == 'j',
        stands_at(PROGRAM@, program_words()[13], 551, 2),
        !in_hole(PROGRAM@, 673),
        stands_at(PROGRAM@, program_words()[14], 553, 110),
        PROGRAM@[663] == '@' && PROGRAM@[664] == 'k',
        stands_at(PROGRAM@, program_words()[15], 665, 8),
{
    let template = PROGRAM@;
    let words = program_words();
    reveal_strlit("pub mod @a {\n    use super::*;\n\n    #[allow(dead_code)]\n    const __ANCHOR_DECLARE_PROGRAM_IDL_BYTES: &[u8] = include_bytes!(@b);\n\n    pub const ID: anchor_lang::Address =\n        anchor_lang::address!(@c);\n\n    pub mod program {\n        pub struct @d;\n\n        impl anchor_lang::Id for @d {\n            const IDL_ADDRESS: &'static str = @c;\n\n            fn id() -> anchor_lang::Address {\n                super::ID\n            }\n        }\n    }\n\n    @e\n    pub mod types {\n        @f\n    }\n    pub mod constants {\n        @g\n    }\n    @h\n    @i\n    @j\n\n    #[anchor_lang::program(interface, program_id = ID)]\n    pub mod __program {\n        use super::*;\n        @k\n    }\n}");
    assert(stands_at(template, words[0], 0, 8)) by {
        reveal_strlit("pub mod ");
        assert(template.subrange(0, 8) =~= words[0]);
    }
    assert(stands_at(template, words[1], 10, 115)) by {
        reveal_strlit(" {\n    use super::*;\n\n    #[allow(dead_code)]\n    const __ANCHOR_DECLARE_PROGRAM_IDL_BYTES: &[u8] = include_bytes!(");
        assert(template.subrange(10, 125) =~= words[1]);
    }
    assert(stands_at(template, words[2], 127, 75)) by {
        reveal_strlit(");\n\n    pub const ID: anchor_lang::Address =\n        anchor_lang::address!(");
        assert(template.subrange(127, 202) =~= words[2]);
    }
    assert(stands_at(template, words[3], 204, 45)) by {
        reveal_strlit(");\n\n    pub mod program {\n        pub struct ");
        assert(template.subrange(204, 249) =~= words[3]);
    }
    assert(stands_at(template, words[4], 251, 36)) by {
        reveal_strlit(";\n\n        impl anchor_lang::Id for ");
        assert(template.subrange(251, 287) =~= words[4]);
    }
    assert(stands_at(template, words[5], 289, 49)) by {
        reveal_strlit(" {\n            const IDL_ADDRESS: &'static str = ");
        assert(template.subrange(289, 338) =~= words[5]);
    }
    assert(stands_at(template, words[6], 340, 106)) by {
        reveal_strlit(";\n\n            fn id() -> anchor_lang::Address {\n                super::ID\n            }\n        }\n    }\n\n");
        assert(template.subrange(340, 446) =~= words[6]);
    }
    assert(stands_at(template, words[7], 446, 4)) by {
        reveal_strlit("    ");
        assert(template.subrange(446, 450) =~= words[7]);
    }
    assert(stands_at(template, words[8], 452, 29)) by {
        reveal_strlit("\n    pub mod types {\n        ");
        assert(template.subrange(452, 481) =~= words[8]);
    }
    assert(stands_at(template, words[9], 483, 39)) by {
        reveal_strlit("\n    }\n    pub mod constants {\n        ");
        assert(template.subrange(483, 522) =~= words[9]);
    }
    assert(stands_at(template, words[10], 524, 7)) by {
        reveal_strlit("\n    }\n");
        assert(template.subrange(524, 531) =~= words[10]);
    }
    assert(stands_at(template, words[7], 531, 4)) by {
        reveal_strlit("    ");
        assert(template.subrange(531, 535) =~= words[7]);
    }
    assert(stands_at(template, words[11], 537, 5)) by {
        reveal_strlit("\n    ");
        assert(template.subrange(537, 542) =~= words[11]);
    }
    assert(stands_at(template, words[12], 544, 1)) by {
        reveal_strlit("\n");
        assert(template.subrange(544, 545) =~= words[12]);
    }
    assert(stands_at(template, words[7], 545, 4)) by {
        reveal_strlit("    ");
        assert(template.subrange(545, 549) =~= words[7]);
    }
    assert(stands_at(template, words[13], 551, 2)) by {
        reveal_strlit("\n\n");
        assert(template.subrange(551, 553) =~= words[13]);
    }
    assert(stands_at(template, words[14], 553, 110)) by {
        reveal_strlit("    #[anchor_lang::program(interface, program_id = ID)]\n    pub mod __program {\n        use super::*;\n        ");
        assert(template.subrange(553, 663) =~= words[14]);
    }
    assert(stands_at(template, words[15], 665, 8)) by {
        reveal_strlit("\n    }\n}");
        assert(template.subrange(665, 673) =~= words[15]);
    }
}

proof fn lemma_program_told_0(parts: Seq<Seq<char>>)
    requires
        parts.len() == 11,
    ensures
        filled(PROGRAM@.subrange(0, 446), parts) == "pub mod "@ + parts[0] + " {\n    use super::*;\n\n    #[allow(dead_code)]\n    const __ANCHOR_DECLARE_PROGRAM_IDL_BYTES: &[u8] = include_bytes!("@ + parts[1] + ");\n\n    pub const ID: anchor_lang::Address =\n        anchor_lang::address!("@ + parts[2] + ");\n\n    pub mod program {\n        pub struct "@ + parts[3] + ";\n\n        impl anchor_lang::Id for "@ + parts[3] + " {\n            const IDL_ADDRESS: &'static str = "@ + parts[2] + ";\n\n            fn id() -> anchor_lang::Address {\n                super::ID\n            }\n        }\n    }\n\n"@,
{
    let template = PROGRAM@;
    let words = program_words();
    lemma_program_told_marks();
    let piece = template.subrange(0, 446);
    let told = filled(piece, parts);
    assert(piece.skip(0) =~= piece);
    let done0 = Seq::<char>::empty();
    assert(told =~= done0 + filled(piece.skip(0), parts));
    assert(piece.subrange(0, 8) =~= template.subrange(0, 8));
    lemma_filled_from(piece, 0, words[0], 'a', parts, done0, told);
    let done1 = words[0] + parts[0];
    assert(done0 + words[0] + parts[0] =~= done1);
    assert(piece.subrange(10, 125) =~= template.subrange(10, 125));
    lemma_filled_from(piece, 10, words[1], 'b', parts, done1, told);
    let done2 = done1 + words[1] + parts[1];
    assert(piece.subrange(127, 202) =~= template.subrange(127, 202));
    lemma_filled_from(piece, 127, words[2], 'c', parts, done2, told);
    let done3 = done2 + words[2] + parts[2];
    assert(piece.subrange(204, 249) =~= template.subrange(204, 249));
    lemma_filled_from(piece, 204, words[3], 'd', parts, done3, told);
    let done4 = done3 + words[3] + parts[3];
    assert(piece.subrange(251, 287) =~= template.subrange(251, 287));
    lemma_filled_from(piece, 251, words[4], 'd', parts, done4, told);
    let done5 = done4 + words[4] + parts[3];
    assert(piece.subrange(289, 338) =~= template.subrange(289, 338));
    lemma_filled_from(piece, 289, words[5], 'c', parts, done5, told);
    let done6 = done5 + words[5] + parts[2];
    assert(piece.subrange(340, 446) =~= template.subrange(340, 446));
    lemma_filled_last(piece, 340, words[6], parts, done6, told);
}

proof fn lemma_program_told_1(parts: Seq<Seq<char>>)
    requires
        parts.len() == 11,
    ensures
        filled(PROGRAM@.subrange(446, 531), parts) == "    "@ + parts[4] + "\n    pub mod types {\n        "@ + parts[5] + "\n    }\n    pub mod constants {\n        "@ + parts[6] + "\n    }\n"@,
{
    let template = PROGRAM@;
    let words = program_words();
    lemma_program_told_marks();
    let piece = template.subrange(446, 531);
    let told = filled(piece, parts);
    assert(piece.skip(0) =~= piece);
    let done0 = Seq::<char>::empty();
    assert(told =~= done0 + filled(piece.skip(0), parts));
    assert(piece.subrange(0, 4) =~= template.subrange(446, 450));
    lemma_filled_from(piece, 0, words[7], 'e', parts, done0, told);
    let done1 = words[7] + parts[4];
    assert(done0 + words[7] + parts[4] =~= done1);
    assert(piece.subrange(6, 35) =~= template.subrange(452, 481));
    lemma_filled_from(piece, 6, words[8], 'f', parts, done1, told);
    let done2 = done1 + words[8] + parts[5];
    assert(piece.subrange(37, 76) =~= template.subrange(483, 522));
    lemma_filled_from(piece, 37, words[9], 'g', parts, done2, told);
    let done3 = done2 + words[9] + parts[6];
    assert(piece.subrange(78, 85) =~= template.subrange(524, 531));
    lemma_filled_last(piece, 78, words[10], parts, done3, told);
}

proof fn lemma_program_told_2(parts: Seq<Seq<char>>)
    requires
        parts.len() == 11,
    ensures
        filled(PROGRAM@.subrange(531, 545), parts) == "    "@ + parts[7] + "\n    "@ + parts[8] + "\n"@,
{
    let template = PROGRAM@;
    let words = program_words();
    lemma_program_told_marks();
    let piece = template.subrange(531, 545);
    let told = filled(piece, parts);
    assert(piece.skip(0) =~= piece);
    let done0 = Seq::<char>::empty();
    assert(told =~= done0 + filled(piece.skip(0), parts));
    assert(piece.subrange(0, 4) =~= template.subrange(531, 535));
    lemma_filled_from(piece, 0, words[7], 'h', parts, done0, told);
    let done1 = words[7] + parts[7];
    assert(done0 + words[7] + parts[7] =~= done1);
    assert(piece.subrange(6, 11) =~= template.subrange(537, 542));
    lemma_filled_from(piece, 6, words[11], 'i', parts, done1, told);
    let done2 = done1 + words[11] + parts[8];
    assert(piece.subrange(13, 14) =~= template.subrange(544, 545));
    lemma_filled_last(piece, 13, words[12], parts, done2, told);
}

proof fn lemma_program_told_3(parts: Seq<Seq<char>>)
    requires
        parts.len() == 11,
    ensures
        filled(PROGRAM@.subrange(545, 553), parts) == "    "@ + parts[9] + "\n\n"@,
{
    let template = PROGRAM@;
    let words = program_words();
    lemma_program_told_marks();
    let piece = template.subrange(545, 553);
    let told = filled(piece, parts);
    assert(piece.skip(0) =~= piece);
    let done0 = Seq::<char>::empty();
    assert(told =~= done0 + filled(piece.skip(0), parts));
    assert(piece.subrange(0, 4) =~= template.subrange(545, 549));
    lemma_filled_from(piece, 0, words[7], 'j', parts, done0, told);
    let done1 = words[7] + parts[9];
    assert(done0 + words[7] + parts[9] =~= done1);
    assert(piece.subrange(6, 8) =~= template.subrange(551, 553));
    lemma_filled_last(piece, 6, words[13], parts, done1, told);
}

proof fn lemma_program_told_4(parts: Seq<Seq<char>>)
    requires
        parts.len() == 11,
    ensures
        filled(PROGRAM@.subrange(553, 673), parts) == "    #[anchor_lang::program(interface, program_id = ID)]\n    pub mod __program {\n        use super::*;\n        "@ + parts[10] + "\n    }\n}"@,
{
    let template = PROGRAM@;
    let words = program_words();
    lemma_program_told_marks();
    let piece = template.subrange(553, 673);
    let told = filled(piece, parts);
    assert(piece.skip(0) =~= piece);
    let done0 = Seq::<char>::empty();
    assert(told =~= done0 + filled(piece.skip(0), parts));
    assert(piece.subrange(0, 110) =~= template.subrange(553, 663));
    lemma_filled_from(piece, 0, words[14], 'k', parts, done0, told);
    let done1 = words[14] + parts[10];
    assert(done0 + words[14] + parts[10] =~= done1);
    assert(piece.subrange(112, 120) =~= template.subrange(665, 673));
    lemma_filled_last(piece, 112, words[15], parts, done1, told);
}

/// The text of the template, with its holes filled.
pub proof fn lemma_program_told(parts: Seq<Seq<char>>)
    requires
        parts.len() == 11,
    ensures
        tells(
            filled(PROGRAM@, parts),
            seq![
                "pub mod "@ + parts[0] + " {\n    use super::*;\n\n    #[allow(dead_code)]\n    const __ANCHOR_DECLARE_PROGRAM_IDL_BYTES: &[u8] = include_bytes!("@ + parts[1] + ");\n\n    pub const ID: anchor_lang::Address =\n        anchor_lang::address!("@ + parts[2] + ");\n\n    pub mod program {\n        pub struct "@ + parts[3] + ";\n\n        impl anchor_lang::Id for "@ + parts[3] + " {\n            const IDL_ADDRESS: &'static str = "@ + parts[2] + ";\n\n            fn id() -> anchor_lang::Address {\n                super::ID\n            }\n        }\n    }\n\n"@,
                "    "@ + parts[4] + "\n    pub mod types {\n        "@ + parts[5] + "\n    }\n    pub mod constants {\n        "@ + parts[6] + "\n    }\n"@,
                "    "@ + parts[7] + "\n    "@ + parts[8] + "\n"@,
                "    "@ + parts[9] + "\n\n"@,
                "    #[anchor_lang::program(interface, program_id = ID)]\n    pub mod __program {\n        use super::*;\n        "@ + parts[10] + "\n    }\n}"@,
            ],
        ),
{
    let template = PROGRAM@;
    lemma_program_told_marks();
    lemma_program_told_0(parts);
    let piece0 = template.subrange(0, 446);
    lemma_program_told_1(parts);
    let piece1 = template.subrange(446, 531);
    lemma_program_told_2(parts);
    let piece2 = template.subrange(531, 545);
    lemma_program_told_3(parts);
    let piece3 = template.subrange(545, 553);
    lemma_program_told_4(parts);
    let piece4 = template.subrange(553, 673);
    let at = seq![0int, 446int, 531int, 545int, 553int];
    let pieces = seq![piece0, piece1, piece2, piece3, piece4];
    assert(pieces_stand(template, at, pieces));
    lemma_filled_tells(template, parts, at, pieces);
    let told = pieces.map_values(|piece: Seq<char>| filled(piece, parts));
    assert(told =~= seq![told[0], told[1], told[2], told[3], told[4]]);
}

spec fn handler_words() -> Seq<Seq<char>> {
    seq!["#[discrim = ["@, "]]\npub fn "@, "(_ctx: &mut anchor_lang::Context<"@, ">, "@, ") -> anchor_lang::Result<"@, "> {\n    "@, "\n    unreachable!()\n}"@]
}

proof fn lemma_handler_text_marks()
    ensures
        HANDLER@.len() == 125,
        stands_at(HANDLER@, handler_words()[0], 0, 13),
        HANDLER@[13] == '@' && HANDLER@[14] == 'a',
        stands_at(HANDLER@, handler_words()[1], 15, 10),
        HANDLER@[25] == '@' && HANDLER@[26] == 'b',
        stands_at(HANDLER@, handler_words()[2], 27, 33),
        HANDLER@[60] == '@' && HANDLER@[61] == 'c',
        stands_at(HANDLER@, handler_words()[3], 62, 3),
        HANDLER@[65] == '@' && HANDLER@[66] == 'd',
        stands_at(HANDLER@, handler_words()[4], 67, 25),
        HANDLER@[92] == '@' && HANDLER@[93] == 'e',
        stands_at(HANDLER@, handler_words()[5], 94, 8),
        HANDLER@[102] == '@' && HANDLER@[103] == 'f',
        stands_at(HANDLER@, handler_words()[6], 104, 21),
{
    let template = HANDLER@;
    let words = handler_words();
    reveal_strlit("#[discrim = [@a]]\npub fn @b(_ctx: &mut anchor_lang::Context<@c>, @d) -> anchor_lang::Result<@e> {\n    @f\n    unreachable!()\n}");
    assert(stands_at(template, words[0], 0, 13)) by {
        reveal_strlit("#[discrim = [");
        assert(template.subrange(0, 13) =~= words[0]);
    }
    assert(stands_at(template, words[1], 15, 10)) by {
        reveal_strlit("]]\npub fn ");
        assert(template.subrange(15, 25) =~= words[1]);
    }
    assert(stands_at(template, words[2], 27, 33)) by {
        reveal_strlit("(_ctx: &mut anchor_lang::Context<");
        assert(template.subrange(27, 60) =~= words[2]);
    }
    assert(stands_at(template, words[3], 62, 3)) by {
        reveal_strlit(">, ");
        assert(template.subrange(62, 65) =~= words[3]);
    }
    assert(stands_at(template, words[4], 67, 25)) by {
        reveal_strlit(") -> anchor_lang::Result<");
        assert(template.subrange(67, 92) =~= words[4]);
    }
    assert(stands_at(template, words[5], 94, 8)) by {
        reveal_strlit("> {\n    ");
        assert(template.subrange(94, 102) =~= words[5]);
    }
    assert(stands_at(template, words[6], 104, 21)) by {
        reveal_strlit("\n    unreachable!()\n}");
        assert(template.subrange(104, 125) =~= words[6]);
    }
}

/// The text of the template, with its holes filled.
pub proof fn lemma_handler_text(parts: Seq<Seq<char>>)
    requires
        parts.len() == 6,
    ensures
        filled(HANDLER@, parts) == "#[discrim = ["@ + parts[0] + "]]\npub fn "@ + parts[1] + "(_ctx: &mut anchor_lang::Context<"@ + parts[2] + ">, "@ + parts[3] + ") -> anchor_lang::Result<"@ + parts[4] + "> {\n    "@ + parts[5] + "\n    unreachable!()\n}"@,
{
    let template = HANDLER@;
    let words = handler_words();
    lemma_handler_text_marks();
    let told = filled(template, parts);
    assert(template.skip(0) =~= template);
    let done0 = Seq::<char>::empty();
    assert(told =~= done0 + filled(template.skip(0), parts));
    lemma_filled_from(template, 0, words[0], 'a', parts, done0, told);
    let done1 = words[0] + parts[0];
    assert(done0 + words[0] + parts[0] =~= done1);
    lemma_filled_from(template, 15, words[1], 'b', parts, done1, told);
    let done2 = done1 + words[1] + parts[1];
    lemma_filled_from(template, 27, words[2], 'c', parts, done2, told);
    let done3 = done2 + words[2] + parts[2];
    lemma_filled_from(template, 62, words[3], 'd', parts, done3, told);
    let done4 = done3 + words[3] + parts[3];
    lemma_filled_from(template, 67, words[4], 'e', parts, done4, told);
    let done5 = done4 + words[4] + parts[4];
    lemma_filled_from(template, 94, words[5], 'f', parts, done5, told);
    let done6 = done5 + words[5] + parts[5];
    lemma_filled_last(template, 104, words[6], parts, done6, told);
}

spec fn accounts_struct_words() -> Seq<Seq<char>> {
    seq!["#[derive(anchor_lang::Accounts)]\n#[accounts_program_id(ID)]\npub struct "@, " {\n    "@, "\n}"@]
}

proof fn lemma_accounts_struct_text_marks()
    ensures
        ACCOUNTS_STRUCT@.len() == 84,
        stands_at(ACCOUNTS_STRUCT@, accounts_struct_words()[0], 0, 71),
        ACCOUNTS_STRUCT@[71] == '@' && ACCOUNTS_STRUCT@[72] == 'a',
        stands_at(ACCOUNTS_STRUCT@, accounts_struct_words()[1], 73, 7),
        ACCOUNTS_STRUCT@[80] == '@' && ACCOUNTS_STRUCT@[81] == 'b',
        stands_at(ACCOUNTS_STRUCT@, accounts_struct_words()[2], 82, 2),
{
    let template = ACCOUNTS_STRUCT@;
    let words = accounts_struct_words();
    reveal_strlit("#[derive(anchor_lang::Accounts)]\n#[accounts_program_id(ID)]\npub struct @a {\n    @b\n}");
    assert(stands_at(template, words[0], 0, 71)) by {
        reveal_strlit("#[derive(anchor_lang::Accounts)]\n#[accounts_program_id(ID)]\npub struct ");
        assert(template.subrange(0, 71) =~= words[0]);
    }
    assert(stands_at(template, words[1], 73, 7)) by {
        reveal_strlit(" {\n    ");
        assert(template.subrange(73, 80) =~= words[1]);
    }
    assert(stands_at(template, words[2], 82, 2)) by {
        reveal_strlit("\n}");
        assert(template.subrange(82, 84) =~= words[2]);
    }
}

/// The text of the template, with its holes filled.
pub proof fn lemma_accounts_struct_text(parts: Seq<Seq<char>>)
    requires
        parts.len() == 2,
    ensures
        filled(ACCOUNTS_STRUCT@, parts) == "#[derive(anchor_lang::Accounts)]\n#[accounts_program_id(ID)]\npub struct "@ + parts[0] + " {\n    "@ + parts[1] + "\n}"@,
{
    let template = ACCOUNTS_STRUCT@;
    let words = accounts_struct_words();
    lemma_accounts_struct_text_marks();
    let told = filled(template, parts);
    assert(template.skip(0) =~= template);
    let done0 = Seq::<char>::empty();
    assert(told =~= done0 + filled(template.skip(0), parts));
    lemma_filled_from(template, 0, words[0], 'a', parts, done0, told);
    let done1 = words[0] + parts[0];
    assert(done0 + words[0] + parts[0] =~= done1);
    lemma_filled_from(template, 73, words[1], 'b', parts, done1, told);
    let done2 = done1 + words[1] + parts[1];
    lemma_filled_last(template, 82, words[2], parts, done2, told);
}

spec fn event_data_pod_words() -> Seq<Seq<char>> {
    seq!["impl anchor_lang::Event for "@, " {\n    fn data(&self) -> anchor_lang::__alloc::vec::Vec<u8> {\n        let disc = <Self as anchor_lang::Discriminator>::DISCRIMINATOR;\n        let payload = anchor_lang::bytemuck::bytes_of(self);\n        let mut data =\n            anchor_lang::__alloc::vec::Vec::with_capacity(disc.len() + payload.len());\n        data.extend_from_slice(disc);\n        data.extend_from_slice(payload);\n        data\n    }\n}"@]
}

proof fn lemma_event_data_pod_text_marks()
    ensures
        EVENT_DATA_POD@.len() == 434,
        stands_at(EVENT_DATA_POD@, event_data_pod_words()[0], 0, 28),
        EVENT_DATA_POD@[28] == '@' && EVENT_DATA_POD@[29] == 'a',
        stands_at(EVENT_DATA_POD@, event_data_pod_words()[1], 30, 404),
{
    let template = EVENT_DATA_POD@;
    let words = event_data_pod_words();
    reveal_strlit("impl anchor_lang::Event for @a {\n    fn data(&self) -> anchor_lang::__alloc::vec::Vec<u8> {\n        let disc = <Self as anchor_lang::Discriminator>::DISCRIMINATOR;\n        let payload = anchor_lang::bytemuck::bytes_of(self);\n        let mut data =\n            anchor_lang::__alloc::vec::Vec::with_capacity(disc.len() + payload.len());\n        data.extend_from_slice(disc);\n        data.extend_from_slice(payload);\n        data\n    }\n}");
    assert(stands_at(template, words[0], 0, 28)) by {
        reveal_strlit("impl anchor_lang::Event for ");
        assert(template.subrange(0, 28) =~= words[0]);
    }
    assert(stands_at(template, words[1], 30, 404)) by {
        reveal_strlit(" {\n    fn data(&self) -> anchor_lang::__alloc::vec::Vec<u8> {\n        let disc = <Self as anchor_lang::Discriminator>::DISCRIMINATOR;\n        let payload = anchor_lang::bytemuck::bytes_of(self);\n        let mut data =\n            anchor_lang::__alloc::vec::Vec::with_capacity(disc.len() + payload.len());\n        data.extend_from_slice(disc);\n        data.extend_from_slice(payload);\n        data\n    }\n}");
        assert(template.subrange(30, 434) =~= words[1]);
    }
}

/// The text of the template, with its holes filled.
pub proof fn lemma_event_data_pod_text(parts: Seq<Seq<char>>)
    requires
        parts.len() == 1,
    ensures
        filled(EVENT_DATA_POD@, parts) == "impl anchor_lang::Event for "@ + parts[0] + " {\n    fn data(&self) -> anchor_lang::__alloc::vec::Vec<u8> {\n        let disc = <Self as anchor_lang::Discriminator>::DISCRIMINATOR;\n        let payload = anchor_lang::bytemuck::bytes_of(self);\n        let mut data =\n            anchor_lang::__alloc::vec::Vec::with_capacity(disc.len() + payload.len());\n        data.extend_from_slice(disc);\n        data.extend_from_slice(payload);\n        data\n    }\n}"@,
{
    let template = EVENT_DATA_POD@;
    let words = event_data_pod_words();
    lemma_event_data_pod_text_marks();
    let told = filled(template, parts);
    assert(template.skip(0) =~= template);
    let done0 = Seq::<char>::empty();
    assert(told =~= done0 + filled(template.skip(0), parts));
    lemma_filled_from(template, 0, words[0], 'a', parts, done0, told);
    let done1 = words[0] + parts[0];
    assert(done0 + words[0] + parts[0] =~= done1);
    lemma_filled_last(template, 30, words[1], parts, done1, told);
}

spec fn event_data_borsh_words() -> Seq<Seq<char>> {
    seq!["impl anchor_lang::Event for "@, " {\n    fn data(&self) -> anchor_lang::__alloc::vec::Vec<u8> {\n        let disc = <Self as anchor_lang::Discriminator>::DISCRIMINATOR;\n        let mut data =\n            anchor_lang::__alloc::vec::Vec::with_capacity(disc.len() + 256);\n        data.extend_from_slice(disc);\n        anchor_lang::wincode::config::serialize_into(\n            &mut data,\n            self,\n            anchor_lang::BORSH_CONFIG,\n        )\n        .expect(\"declared event serialization cannot fail for derived AnchorSerialize types\");\n        data\n    }\n}"@]
}

proof fn lemma_event_data_borsh_text_marks()
    ensures
        EVENT_DATA_BORSH@.len() == 561,
        stands_at(EVENT_DATA_BORSH@, event_data_borsh_words()[0], 0, 28),
        EVENT_DATA_BORSH@[28] == '@' && EVENT_DATA_BORSH@[29] == 'a',
        stands_at(EVENT_DATA_BORSH@, event_data_borsh_words()[1], 30, 531),
{
    let template = EVENT_DATA_BORSH@;
    let words = event_data_borsh_words();
    reveal_strlit("impl anchor_lang::Event for @a {\n    fn data(&self) -> anchor_lang::__alloc::vec::Vec<u8> {\n        let disc = <Self as anchor_lang::Discriminator>::DISCRIMINATOR;\n        let mut data =\n            anchor_lang::__alloc::vec::Vec::with_capacity(disc.len() + 256);\n        data.extend_from_slice(disc);\n        anchor_lang::wincode::config::serialize_into(\n            &mut data,\n            self,\n            anchor_lang::BORSH_CONFIG,\n        )\n        .expect(\"declared event serialization cannot fail for derived AnchorSerialize types\");\n        data\n    }\n}");
    assert(stands_at(template, words[0], 0, 28)) by {
        reveal_strlit("impl anchor_lang::Event for ");
        assert(template.subrange(0, 28) =~= words[0]);
    }
    assert(stands_at(template, words[1], 30, 531)) by {
        reveal_strlit(" {\n    fn data(&self) -> anchor_lang::__alloc::vec::Vec<u8> {\n        let disc = <Self as anchor_lang::Discriminator>::DISCRIMINATOR;\n        let mut data =\n            anchor_lang::__alloc::vec::Vec::with_capacity(disc.len() + 256);\n        data.extend_from_slice(disc);\n        anchor_lang::wincode::config::serialize_into(\n            &mut data,\n            self,\n            anchor_lang::BORSH_CONFIG,\n        )\n        .expect(\"declared event serialization cannot fail for derived AnchorSerialize types\");\n        data\n    }\n}");
        assert(template.subrange(30, 561) =~= words[1]);
    }
}

/// The text of the template, with its holes filled.
pub proof fn lemma_event_data_borsh_text(parts: Seq<Seq<char>>)
    requires
        parts.len() == 1,
    ensures
        filled(EVENT_DATA_BORSH@, parts) == "impl anchor_lang::Event for "@ + parts[0] + " {\n    fn data(&self) -> anchor_lang::__alloc::vec::Vec<u8> {\n        let disc = <Self as anchor_lang::Discriminator>::DISCRIMINATOR;\n        let mut data =\n            anchor_lang::__alloc::vec::Vec::with_capacity(disc.len() + 256);\n        data.extend_from_slice(disc);\n        anchor_lang::wincode::config::serialize_into(\n            &mut data,\n            self,\n            anchor_lang::BORSH_CONFIG,\n        )\n        .expect(\"declared event serialization cannot fail for derived AnchorSerialize types\");\n        data\n    }\n}"@,
{
    let template = EVENT_DATA_BORSH@;
    let words = event_data_borsh_words();
    lemma_event_data_borsh_text_marks();
    let told = filled(template, parts);
    assert(template.skip(0) =~= template);
    let done0 = Seq::<char>::empty();
    assert(told =~= done0 + filled(template.skip(0), parts));
    lemma_filled_from(template, 0, words[0], 'a', parts, done0, told);
    let done1 = words[0] + parts[0];
    assert(done0 + words[0] + parts[0] =~= done1);
    lemma_filled_last(template, 30, words[1], parts, done1, told);
}

spec fn event_impls_words() -> Seq<Seq<char>> {
    seq!["impl anchor_lang::Discriminator for "@, " {\n    const DISCRIMINATOR: &'static [u8] = &["@, "];\n}\n\n"@]
}

proof fn lemma_event_impls_text_marks()
    ensures
        EVENT_IMPLS@.len() == 94,
        stands_at(EVENT_IMPLS@, event_impls_words()[0], 0, 36),
        EVENT_IMPLS@[36] == '@' && EVENT_IMPLS@[37] == 'a',
        stands_at(EVENT_IMPLS@, event_impls_words()[1], 38, 46),
        EVENT_IMPLS@[84] == '@' && EVENT_IMPLS@[85] == 'b',
        stands_at(EVENT_IMPLS@, event_impls_words()[2], 86, 6),
        EVENT_IMPLS@[92] == '@' && EVENT_IMPLS@[93] == 'c',
{
    let template = EVENT_IMPLS@;
    let words = event_impls_words();
    reveal_strlit("impl anchor_lang::Discriminator for @a {\n    const DISCRIMINATOR: &'static [u8] = &[@b];\n}\n\n@c");
    assert(stands_at(template, words[0], 0, 36)) by {
        reveal_strlit("impl anchor_lang::Discriminator for ");
        assert(template.subrange(0, 36) =~= words[0]);
    }
    assert(stands_at(template, words[1], 38, 46)) by {
        reveal_strlit(" {\n    const DISCRIMINATOR: &'static [u8] = &[");
        assert(template.subrange(38, 84) =~= words[1]);
    }
    assert(stands_at(template, words[2], 86, 6)) by {
        reveal_strlit("];\n}\n\n");
        assert(template.subrange(86, 92) =~= words[2]);
    }
}

/// The text of the template, with its holes filled.
pub proof fn lemma_event_impls_text(parts: Seq<Seq<char>>)
    requires
        parts.len() == 3,
    ensures
        filled(EVENT_IMPLS@, parts) == "impl anchor_lang::Discriminator for "@ + parts[0] + " {\n    const DISCRIMINATOR: &'static [u8] = &["@ + parts[1] + "];\n}\n\n"@ + parts[2],
{
    let template = EVENT_IMPLS@;
    let words = event_impls_words();
    lemma_event_impls_text_marks();
    let told = filled(template, parts);
    assert(template.skip(0) =~= template);
    let done0 = Seq::<char>::empty();
    assert(told =~= done0 + filled(template.skip(0), parts));
    lemma_filled_from(template, 0, words[0], 'a', parts, done0, told);
    let done1 = words[0] + parts[0];
    assert(done0 + words[0] + parts[0] =~= done1);
    lemma_filled_from(template, 38, words[1], 'b', parts, done1, told);
    let done2 = done1 + words[1] + parts[1];
    lemma_filled_from(template, 86, words[2], 'c', parts, done2, told);
    let done3 = done2 + words[2] + parts[2];
    assert(template.skip(94) =~= Seq::<char>::empty());
    assert(told =~= done3);
}

spec fn parse_pod_words() -> Seq<Seq<char>> {
    seq!["let payload = &value[<super::events::"@, " as anchor_lang::Discriminator>::DISCRIMINATOR.len()..];\nlet expected = core::mem::size_of::<super::events::"@, ">();\nif payload.len() != expected {\n    return Err(anchor_lang::Error::InvalidInstructionData);\n}\nreturn Ok(Self::"@, "(\n    anchor_lang::bytemuck::pod_read_unaligned(payload)\n));"@]
}

proof fn lemma_parse_pod_text_marks()
    ensures
        PARSE_POD@.len() == 325,
        stands_at(PARSE_POD@, parse_pod_words()[0], 0, 37),
        PARSE_POD@[37] == '@' && PARSE_POD@[38] == 'a',
        stands_at(PARSE_POD@, parse_pod_words()[1], 39, 108),
        PARSE_POD@[147] == '@' && PARSE_POD@[148] == 'a',
        stands_at(PARSE_POD@, parse_pod_words()[2], 149, 114),
        PARSE_POD@[263] == '@' && PARSE_POD@[264] == 'a',
        stands_at(PARSE_POD@, parse_pod_words()[3], 265, 60),
{
    let template = PARSE_POD@;
    let words = parse_pod_words();
    reveal_strlit("let payload = &value[<super::events::@a as anchor_lang::Discriminator>::DISCRIMINATOR.len()..];\nlet expected = core::mem::size_of::<super::events::@a>();\nif payload.len() != expected {\n    return Err(anchor_lang::Error::InvalidInstructionData);\n}\nreturn Ok(Self::@a(\n    anchor_lang::bytemuck::pod_read_unaligned(payload)\n));");
    assert(stands_at(template, words[0], 0, 37)) by {
        reveal_strlit("let payload = &value[<super::events::");
        assert(template.subrange(0, 37) =~= words[0]);
    }
    assert(stands_at(template, words[1], 39, 108)) by {
        reveal_strlit(" as anchor_lang::Discriminator>::DISCRIMINATOR.len()..];\nlet expected = core::mem::size_of::<super::events::");
        assert(template.subrange(39, 147) =~= words[1]);
    }
    assert(stands_at(template, words[2], 149, 114)) by {
        reveal_strlit(">();\nif payload.len() != expected {\n    return Err(anchor_lang::Error::InvalidInstructionData);\n}\nreturn Ok(Self::");
        assert(template.subrange(149, 263) =~= words[2]);
    }
    assert(stands_at(template, words[3], 265, 60)) by {
        reveal_strlit("(\n    anchor_lang::bytemuck::pod_read_unaligned(payload)\n));");
        assert(template.subrange(265, 325) =~= words[3]);
    }
}

/// The text of the template, with its holes filled.
pub proof fn lemma_parse_pod_text(parts: Seq<Seq<char>>)
    requires
        parts.len() == 1,
    ensures
        filled(PARSE_POD@, parts) == "let payload = &value[<super::events::"@ + parts[0] + " as anchor_lang::Discriminator>::DISCRIMINATOR.len()..];\nlet expected = core::mem::size_of::<super::events::"@ + parts[0] + ">();\nif payload.len() != expected {\n    return Err(anchor_lang::Error::InvalidInstructionData);\n}\nreturn Ok(Self::"@ + parts[0] + "(\n    anchor_lang::bytemuck::pod_read_unaligned(payload)\n));"@,
{
    let template = PARSE_POD@;
    let words = parse_pod_words();
    lemma_parse_pod_text_marks();
    let told = filled(template, parts);
    assert(template.skip(0) =~= template);
    let done0 = Seq::<char>::empty();
    assert(told =~= done0 + filled(template.skip(0), parts));
    lemma_filled_from(template, 0, words[0], 'a', parts, done0, told);
    let done1 = words[0] + parts[0];
    assert(done0 + words[0] + parts[0] =~= done1);
    lemma_filled_from(template, 39, words[1], 'a', parts, done1, told);
    let done2 = done1 + words[1] + parts[0];
    lemma_filled_from(template, 149, words[2], 'a', parts, done2, told);
    let done3 = done2 + words[2] + parts[0];
    lemma_filled_last(template, 265, words[3], parts, done3, told);
}

spec fn parse_borsh_words() -> Seq<Seq<char>> {
    seq!["let mut payload = &value[<super::events::"@, " as anchor_lang::Discriminator>::DISCRIMINATOR.len()..];\nlet decoded =\n    <super::events::"@, " as anchor_lang::wincode::SchemaRead<\n        '_,\n        anchor_lang::BorshConfig,\n    >>::get(&mut payload)\n    .map_err(|_| anchor_lang::Error::InvalidInstructionData)?;\nif !payload.is_empty() {\n    return Err(anchor_lang::Error::InvalidInstructionData);\n}\nreturn Ok(Self::"@, "(decoded));"@]
}

proof fn lemma_parse_borsh_text_marks()
    ensures
        PARSE_BORSH@.len() == 425,
        stands_at(PARSE_BORSH@, parse_borsh_words()[0], 0, 41),
        PARSE_BORSH@[41] == '@' && PARSE_BORSH@[42] == 'a',
        stands_at(PARSE_BORSH@, parse_borsh_words()[1], 43, 91),
        PARSE_BORSH@[134] == '@' && PARSE_BORSH@[135] == 'a',
        stands_at(PARSE_BORSH@, parse_borsh_words()[2], 136, 276),
        PARSE_BORSH@[412] == '@' && PARSE_BORSH@[413] == 'a',
        stands_at(PARSE_BORSH@, parse_borsh_words()[3], 414, 11),
{
    let template = PARSE_BORSH@;
    let words = parse_borsh_words();
    reveal_strlit("let mut payload = &value[<super::events::@a as anchor_lang::Discriminator>::DISCRIMINATOR.len()..];\nlet decoded =\n    <super::events::@a as anchor_lang::wincode::SchemaRead<\n        '_,\n        anchor_lang::BorshConfig,\n    >>::get(&mut payload)\n    .map_err(|_| anchor_lang::Error::InvalidInstructionData)?;\nif !payload.is_empty() {\n    return Err(anchor_lang::Error::InvalidInstructionData);\n}\nreturn Ok(Self::@a(decoded));");
    assert(stands_at(template, words[0], 0, 41)) by {
        reveal_strlit("let mut payload = &value[<super::events::");
        assert(template.subrange(0, 41) =~= words[0]);
    }
    assert(stands_at(template, words[1], 43, 91)) by {
        reveal_strlit(" as anchor_lang::Discriminator>::DISCRIMINATOR.len()..];\nlet decoded =\n    <super::events::");
        assert(template.subrange(43, 134) =~= words[1]);
    }
    assert(stands_at(template, words[2], 136, 276)) by {
        reveal_strlit(" as anchor_lang::wincode::SchemaRead<\n        '_,\n        anchor_lang::BorshConfig,\n    >>::get(&mut payload)\n    .map_err(|_| anchor_lang::Error::InvalidInstructionData)?;\nif !payload.is_empty() {\n    return Err(anchor_lang::Error::InvalidInstructionData);\n}\nreturn Ok(Self::");
        assert(template.subrange(136, 412) =~= words[2]);
    }
    assert(stands_at(template, words[3], 414, 11)) by {
        reveal_strlit("(decoded));");
        assert(template.subrange(414, 425) =~= words[3]);
    }
}

/// The text of the template, with its holes filled.
pub proof fn lemma_parse_borsh_text(parts: Seq<Seq<char>>)
    requires
        parts.len() == 1,
    ensures
        filled(PARSE_BORSH@, parts) == "let mut payload = &value[<super::events::"@ + parts[0] + " as anchor_lang::Discriminator>::DISCRIMINATOR.len()..];\nlet decoded =\n    <super::events::"@ + parts[0] + " as anchor_lang::wincode::SchemaRead<\n        '_,\n        anchor_lang::BorshConfig,\n    >>::get(&mut payload)\n    .map_err(|_| anchor_lang::Error::InvalidInstructionData)?;\nif !payload.is_empty() {\n    return Err(anchor_lang::Error::InvalidInstructionData);\n}\nreturn Ok(Self::"@ + parts[0] + "(decoded));"@,
{
    let template = PARSE_BORSH@;
    let words = parse_borsh_words();
    lemma_parse_borsh_text_marks();
    let told = filled(template, parts);
    assert(template.skip(0) =~= template);
    let done0 = Seq::<char>::empty();
    assert(told =~= done0 + filled(template.skip(0), parts));
    lemma_filled_from(template, 0, words[0], 'a', parts, done0, told);
    let done1 = words[0] + parts[0];
    assert(done0 + words[0] + parts[0] =~= done1);
    lemma_filled_from(template, 43, words[1], 'a', parts, done1, told);
    let done2 = done1 + words[1] + parts[0];
    lemma_filled_from(template, 136, words[2], 'a', parts, done2, told);
    let done3 = done2 + words[2] + parts[0];
    lemma_filled_last(template, 414, words[3], parts, done3, told);
}

spec fn parse_branch_words() -> Seq<Seq<char>> {
    seq!["if value.starts_with(\n    <super::events::"@, " as anchor_lang::Discriminator>::DISCRIMINATOR,\n) {\n    "@, "\n}"@]
}

proof fn lemma_parse_branch_text_marks()
    ensures
        PARSE_BRANCH@.len() == 104,
        stands_at(PARSE_BRANCH@, parse_branch_words()[0], 0, 42),
        PARSE_BRANCH@[42] == '@' && PARSE_BRANCH@[43] == 'a',
        stands_at(PARSE_BRANCH@, parse_branch_words()[1], 44, 56),
        PARSE_BRANCH@[100] == '@' && PARSE_BRANCH@[101] == 'b',
        stands_at(PARSE_BRANCH@, parse_branch_words()[2], 102, 2),
{
    let template = PARSE_BRANCH@;
    let words = parse_branch_words();
    reveal_strlit("if value.starts_with(\n    <super::events::@a as anchor_lang::Discriminator>::DISCRIMINATOR,\n) {\n    @b\n}");
    assert(stands_at(template, words[0], 0, 42)) by {
        reveal_strlit("if value.starts_with(\n    <super::events::");
        assert(template.subrange(0, 42) =~= words[0]);
    }
    assert(stands_at(template, words[1], 44, 56)) by {
        reveal_strlit(" as anchor_lang::Discriminator>::DISCRIMINATOR,\n) {\n    ");
        assert(template.subrange(44, 100) =~= words[1]);
    }
    assert(stands_at(template, words[2], 102, 2)) by {
        reveal_strlit("\n}");
        assert(template.subrange(102, 104) =~= words[2]);
    }
}

/// The text of the template, with its holes filled.
pub proof fn lemma_parse_branch_text(parts: Seq<Seq<char>>)
    requires
        parts.len() == 2,
    ensures
        filled(PARSE_BRANCH@, parts) == "if value.starts_with(\n    <super::events::"@ + parts[0] + " as anchor_lang::Discriminator>::DISCRIMINATOR,\n) {\n    "@ + parts[1] + "\n}"@,
{
    let template = PARSE_BRANCH@;
    let words = parse_branch_words();
    lemma_parse_branch_text_marks();
    let told = filled(template, parts);
    assert(template.skip(0) =~= template);
    let done0 = Seq::<char>::empty();
    assert(told =~= done0 + filled(template.skip(0), parts));
    lemma_filled_from(template, 0, words[0], 'a', parts, done0, told);
    let done1 = words[0] + parts[0];
    assert(done0 + words[0] + parts[0] =~= done1);
    lemma_filled_from(template, 44, words[1], 'b', parts, done1, told);
    let done2 = done1 + words[1] + parts[1];
    lemma_filled_last(template, 102, words[2], parts, done2, told);
}

spec fn parsers_words() -> Seq<Seq<char>> {
    seq!["pub mod parsers {\n    use super::*;\n\n    pub enum Event {\n        "@, "\n    }\n\n    impl Event {\n        pub fn parse(data: &[u8]) -> anchor_lang::Result<Self> {\n            Self::try_from(data)\n        }\n    }\n\n    impl core::convert::TryFrom<&[u8]> for Event {\n        type Error = anchor_lang::Error;\n\n        fn try_from(value: &[u8]) -> anchor_lang::Result<Self> {\n            "@, "\n            Err(anchor_lang::Error::InvalidArgument)\n        }\n    }\n}"@]
}

proof fn lemma_parsers_text_marks()
    ensures
        PARSERS@.len() == 451,
        stands_at(PARSERS@, parsers_words()[0], 0, 66),
        PARSERS@[66] == '@' && PARSERS@[67] == 'a',
        stands_at(PARSERS@, parsers_words()[1], 68, 310),
        PARSERS@[378] == '@' && PARSERS@[379] == 'b',
        stands_at(PARSERS@, parsers_words()[2], 380, 71),
{
    let template = PARSERS@;
    let words = parsers_words();
    reveal_strlit("pub mod parsers {\n    use super::*;\n\n    pub enum Event {\n        @a\n    }\n\n    impl Event {\n        pub fn parse(data: &[u8]) -> anchor_lang::Result<Self> {\n            Self::try_from(data)\n        }\n    }\n\n    impl core::convert::TryFrom<&[u8]> for Event {\n        type Error = anchor_lang::Error;\n\n        fn try_from(value: &[u8]) -> anchor_lang::Result<Self> {\n            @b\n            Err(anchor_lang::Error::InvalidArgument)\n        }\n    }\n}");
    assert(stands_at(template, words[0], 0, 66)) by {
        reveal_strlit("pub mod parsers {\n    use super::*;\n\n    pub enum Event {\n        ");
        assert(template.subrange(0, 66) =~= words[0]);
    }
    assert(stands_at(template, words[1], 68, 310)) by {
        reveal_strlit("\n    }\n\n    impl Event {\n        pub fn parse(data: &[u8]) -> anchor_lang::Result<Self> {\n            Self::try_from(data)\n        }\n    }\n\n    impl core::convert::TryFrom<&[u8]> for Event {\n        type Error = anchor_lang::Error;\n\n        fn try_from(value: &[u8]) -> anchor_lang::Result<Self> {\n            ");
        assert(template.subrange(68, 378) =~= words[1]);
    }
    assert(stands_at(template, words[2], 380, 71)) by {
        reveal_strlit("\n            Err(anchor_lang::Error::InvalidArgument)\n        }\n    }\n}");
        assert(template.subrange(380, 451) =~= words[2]);
    }
}

/// The text of the template, with its holes filled.
pub proof fn lemma_parsers_text(parts: Seq<Seq<char>>)
    requires
        parts.len() == 2,
    ensures
        filled(PARSERS@, parts) == "pub mod parsers {\n    use super::*;\n\n    pub enum Event {\n        "@ + parts[0] + "\n    }\n\n    impl Event {\n        pub fn parse(data: &[u8]) -> anchor_lang::Result<Self> {\n            Self::try_from(data)\n        }\n    }\n\n    impl core::convert::TryFrom<&[u8]> for Event {\n        type Error = anchor_lang::Error;\n\n        fn try_from(value: &[u8]) -> anchor_lang::Result<Self> {\n            "@ + parts[1] + "\n            Err(anchor_lang::Error::InvalidArgument)\n        }\n    }\n}"@,
{
    let template = PARSERS@;
    let words = parsers_words();
    lemma_parsers_text_marks();
    let told = filled(template, parts);
    assert(template.skip(0) =~= template);
    let done0 = Seq::<char>::empty();
    assert(told =~= done0 + filled(template.skip(0), parts));
    lemma_filled_from(template, 0, words[0], 'a', parts, done0, told);
    let done1 = words[0] + parts[0];
    assert(done0 + words[0] + parts[0] =~= done1);
    lemma_filled_from(template, 68, words[1], 'b', parts, done1, told);
    let done2 = done1 + words[1] + parts[1];
    lemma_filled_last(template, 380, words[2], parts, done2, told);
}

spec fn events_words() -> Seq<Seq<char>> {
    seq!["pub mod events {\n    use super::*;\n\n    "@, "\n}\n\n"@, "\n\n"@]
}

proof fn lemma_events_text_marks()
    ensures
        EVENTS@.len() == 52,
        stands_at(EVENTS@, events_words()[0], 0, 40),
        EVENTS@[40] == '@' && EVENTS@[41] == 'a',
        stands_at(EVENTS@, events_words()[1], 42, 4),
        EVENTS@[46] == '@' && EVENTS@[47] == 'b',
        stands_at(EVENTS@, events_words()[2], 48, 2),
        EVENTS@[50] == '@' && EVENTS@[51] == 'c',
{
    let template = EVENTS@;
    let words = events_words();
    reveal_strlit("pub mod events {\n    use super::*;\n\n    @a\n}\n\n@b\n\n@c");
    assert(stands_at(template, words[0], 0, 40)) by {
        reveal_strlit("pub mod events {\n    use super::*;\n\n    ");
        assert(template.subrange(0, 40) =~= words[0]);
    }
    assert(stands_at(template, words[1], 42, 4)) by {
        reveal_strlit("\n}\n\n");
        assert(template.subrange(42, 46) =~= words[1]);
    }
    assert(stands_at(template, words[2], 48, 2)) by {
        reveal_strlit("\n\n");
        assert(template.subrange(48, 50) =~= words[2]);
    }
}

/// The text of the template, with its holes filled.
pub proof fn lemma_events_text(parts: Seq<Seq<char>>)
    requires
        parts.len() == 3,
    ensures
        filled(EVENTS@, parts) == "pub mod events {\n    use super::*;\n\n    "@ + parts[0] + "\n}\n\n"@ + parts[1] + "\n\n"@ + parts[2],
{
    let template = EVENTS@;
    let words = events_words();
    lemma_events_text_marks();
    let told = filled(template, parts);
    assert(template.skip(0) =~= template);
    let done0 = Seq::<char>::empty();
    assert(told =~= done0 + filled(template.skip(0), parts));
    lemma_filled_from(template, 0, words[0], 'a', parts, done0, told);
    let done1 = words[0] + parts[0];
    assert(done0 + words[0] + parts[0] =~= done1);
    lemma_filled_from(template, 42, words[1], 'b', parts, done1, told);
    let done2 = done1 + words[1] + parts[1];
    lemma_filled_from(template, 48, words[2], 'c', parts, done2, told);
    let done3 = done2 + words[2] + parts[2];
    assert(template.skip(52) =~= Seq::<char>::empty());
    assert(told =~= done3);
}

spec fn errors_words() -> Seq<Seq<char>> {
    seq!["pub mod error {\n    use super::*;\n\n    #[anchor_lang::error_code(offset = 0)]\n    pub enum "@, " {\n        "@, "\n    }\n}"@]
}

proof fn lemma_errors_text_marks()
    ensures
        ERRORS@.len() == 114,
        stands_at(ERRORS@, errors_words()[0], 0, 91),
        ERRORS@[91] == '@' && ERRORS@[92] == 'a',
        stands_at(ERRORS@, errors_words()[1], 93, 11),
        ERRORS@[104] == '@' && ERRORS@[105] == 'b',
        stands_at(ERRORS@, errors_words()[2], 106, 8),
{
    let template = ERRORS@;
    let words = errors_words();
    reveal_strlit("pub mod error {\n    use super::*;\n\n    #[anchor_lang::error_code(offset = 0)]\n    pub enum @a {\n        @b\n    }\n}");
    assert(stands_at(template, words[0], 0, 91)) by {
        reveal_strlit("pub mod error {\n    use super::*;\n\n    #[anchor_lang::error_code(offset = 0)]\n    pub enum ");
        assert(template.subrange(0, 91) =~= words[0]);
    }
    assert(stands_at(template, words[1], 93, 11)) by {
        reveal_strlit(" {\n        ");
        assert(template.subrange(93, 104) =~= words[1]);
    }
    assert(stands_at(template, words[2], 106, 8)) by {
        reveal_strlit("\n    }\n}");
        assert(template.subrange(106, 114) =~= words[2]);
    }
}

/// The text of the template, with its holes filled.
pub proof fn lemma_errors_text(parts: Seq<Seq<char>>)
    requires
        parts.len() == 2,
    ensures
        filled(ERRORS@, parts) == "pub mod error {\n    use super::*;\n\n    #[anchor_lang::error_code(offset = 0)]\n    pub enum "@ + parts[0] + " {\n        "@ + parts[1] + "\n    }\n}"@,
{
    let template = ERRORS@;
    let words = errors_words();
    lemma_errors_text_marks();
    let told = filled(template, parts);
    assert(template.skip(0) =~= template);
    let done0 = Seq::<char>::empty();
    assert(told =~= done0 + filled(template.skip(0), parts));
    lemma_filled_from(template, 0, words[0], 'a', parts, done0, told);
    let done1 = words[0] + parts[0];
    assert(done0 + words[0] + parts[0] =~= done1);
    lemma_filled_from(template, 93, words[1], 'b', parts, done1, told);
    let done2 = done1 + words[1] + parts[1];
    lemma_filled_last(template, 106, words[2], parts, done2, told);
}

} // verus!
