//! The texts of the code for accounts: each template, with its holes filled.

use crate::account::{ACCOUNT, BORSH_DESERIALIZE, POD_DESERIALIZE, POD_IMPLS};
use crate::passages::{
    in_hole, lemma_filled_from, lemma_filled_last, lemma_filled_tells, pieces_stand, stands_at,
    tells,
};
use crate::pod_fields::{DEP_WALKER, POD_ASSERT, SIZE_STEP};
use crate::template::filled;
use vstd::prelude::*;

verus! {

spec fn pod_assert_words() -> Seq<Seq<char>> {
    seq!["\nconst _: fn() = || {\n    fn assert_pod<T: anchor_lang::bytemuck::Pod>() {}\n    assert_pod::<"@, ">();\n};"@]
}

proof fn lemma_pod_assert_text_marks()
    ensures
        POD_ASSERT@.len() == 104,
        POD_ASSERT@[0] == '@' && POD_ASSERT@[1] == 'a',
        stands_at(POD_ASSERT@, pod_assert_words()[0], 2, 93),
        POD_ASSERT@[95] == '@' && POD_ASSERT@[96] == 'b',
        stands_at(POD_ASSERT@, pod_assert_words()[1], 97, 7),
{
    let template = POD_ASSERT@;
    let words = pod_assert_words();
    reveal_strlit("@a\nconst _: fn() = || {\n    fn assert_pod<T: anchor_lang::bytemuck::Pod>() {}\n    assert_pod::<@b>();\n};");
    assert(stands_at(template, words[0], 2, 93)) by {
        reveal_strlit("\nconst _: fn() = || {\n    fn assert_pod<T: anchor_lang::bytemuck::Pod>() {}\n    assert_pod::<");
        assert(template.subrange(2, 95) =~= words[0]);
    }
    assert(stands_at(template, words[1], 97, 7)) by {
        reveal_strlit(">();\n};");
        assert(template.subrange(97, 104) =~= words[1]);
    }
}

/// The text of the template, with its holes filled.
pub proof fn lemma_pod_assert_text(parts: Seq<Seq<char>>)
    requires
        parts.len() == 2,
    ensures
        filled(POD_ASSERT@, parts) == parts[0] + "\nconst _: fn() = || {\n    fn assert_pod<T: anchor_lang::bytemuck::Pod>() {}\n    assert_pod::<"@ + parts[1] + ">();\n};"@,
{
    let template = POD_ASSERT@;
    let words = pod_assert_words();
    lemma_pod_assert_text_marks();
    let told = filled(template, parts);
    assert(template.skip(0) =~= template);
    let done0 = Seq::<char>::empty();
    assert(told =~= done0 + filled(template.skip(0), parts));
    assert(template.subrange(0, 0) =~= Seq::<char>::empty());
    lemma_filled_from(template, 0, Seq::<char>::empty(), 'a', parts, done0, told);
    let done1 = parts[0];
    assert(done0 + Seq::<char>::empty() + parts[0] =~= done1);
    lemma_filled_from(template, 2, words[0], 'b', parts, done1, told);
    let done2 = done1 + words[0] + parts[1];
    lemma_filled_last(template, 97, words[1], parts, done2, told);
}

spec fn size_step_words() -> Seq<Seq<char>> {
    seq!["\n{\n    __size += "@, "::mem::size_of::<"@, ">();\n}"@]
}

proof fn lemma_size_step_text_marks()
    ensures
        SIZE_STEP@.len() == 46,
        SIZE_STEP@[0] == '@' && SIZE_STEP@[1] == 'a',
        stands_at(SIZE_STEP@, size_step_words()[0], 2, 17),
        SIZE_STEP@[19] == '@' && SIZE_STEP@[20] == 'c',
        stands_at(SIZE_STEP@, size_step_words()[1], 21, 17),
        SIZE_STEP@[38] == '@' && SIZE_STEP@[39] == 'b',
        stands_at(SIZE_STEP@, size_step_words()[2], 40, 6),
{
    let template = SIZE_STEP@;
    let words = size_step_words();
    reveal_strlit("@a\n{\n    __size += @c::mem::size_of::<@b>();\n}");
    assert(stands_at(template, words[0], 2, 17)) by {
        reveal_strlit("\n{\n    __size += ");
        assert(template.subrange(2, 19) =~= words[0]);
    }
    assert(stands_at(template, words[1], 21, 17)) by {
        reveal_strlit("::mem::size_of::<");
        assert(template.subrange(21, 38) =~= words[1]);
    }
    assert(stands_at(template, words[2], 40, 6)) by {
        reveal_strlit(">();\n}");
        assert(template.subrange(40, 46) =~= words[2]);
    }
}

/// The text of the template, with its holes filled.
pub proof fn lemma_size_step_text(parts: Seq<Seq<char>>)
    requires
        parts.len() == 3,
    ensures
        filled(SIZE_STEP@, parts) == parts[0] + "\n{\n    __size += "@ + parts[2] + "::mem::size_of::<"@ + parts[1] + ">();\n}"@,
{
    let template = SIZE_STEP@;
    let words = size_step_words();
    lemma_size_step_text_marks();
    let told = filled(template, parts);
    assert(template.skip(0) =~= template);
    let done0 = Seq::<char>::empty();
    assert(told =~= done0 + filled(template.skip(0), parts));
    assert(template.subrange(0, 0) =~= Seq::<char>::empty());
    lemma_filled_from(template, 0, Seq::<char>::empty(), 'a', parts, done0, told);
    let done1 = parts[0];
    assert(done0 + Seq::<char>::empty() + parts[0] =~= done1);
    lemma_filled_from(template, 2, words[0], 'c', parts, done1, told);
    let done2 = done1 + words[0] + parts[2];
    lemma_filled_from(template, 21, words[1], 'b', parts, done2, told);
    let done3 = done2 + words[1] + parts[1];
    lemma_filled_last(template, 40, words[2], parts, done3, told);
}

spec fn dep_walker_words() -> Seq<Seq<char>> {
    seq!["\n<"@, " as anchor_lang::IdlAccountType>::__register_idl_deps(accounts, types);"@]
}

proof fn lemma_dep_walker_text_marks()
    ensures
        DEP_WALKER@.len() == 77,
        DEP_WALKER@[0] == '@' && DEP_WALKER@[1] == 'a',
        stands_at(DEP_WALKER@, dep_walker_words()[0], 2, 2),
        DEP_WALKER@[4] == '@' && DEP_WALKER@[5] == 'b',
        stands_at(DEP_WALKER@, dep_walker_words()[1], 6, 71),
{
    let template = DEP_WALKER@;
    let words = dep_walker_words();
    reveal_strlit("@a\n<@b as anchor_lang::IdlAccountType>::__register_idl_deps(accounts, types);");
    assert(stands_at(template, words[0], 2, 2)) by {
        reveal_strlit("\n<");
        assert(template.subrange(2, 4) =~= words[0]);
    }
    assert(stands_at(template, words[1], 6, 71)) by {
        reveal_strlit(" as anchor_lang::IdlAccountType>::__register_idl_deps(accounts, types);");
        assert(template.subrange(6, 77) =~= words[1]);
    }
}

/// The text of the template, with its holes filled.
pub proof fn lemma_dep_walker_text(parts: Seq<Seq<char>>)
    requires
        parts.len() == 2,
    ensures
        filled(DEP_WALKER@, parts) == parts[0] + "\n<"@ + parts[1] + " as anchor_lang::IdlAccountType>::__register_idl_deps(accounts, types);"@,
{
    let template = DEP_WALKER@;
    let words = dep_walker_words();
    lemma_dep_walker_text_marks();
    let told = filled(template, parts);
    assert(template.skip(0) =~= template);
    let done0 = Seq::<char>::empty();
    assert(told =~= done0 + filled(template.skip(0), parts));
    assert(template.subrange(0, 0) =~= Seq::<char>::empty());
    lemma_filled_from(template, 0, Seq::<char>::empty(), 'a', parts, done0, told);
    let done1 = parts[0];
    assert(done0 + Seq::<char>::empty() + parts[0] =~= done1);
    lemma_filled_from(template, 2, words[0], 'b', parts, done1, told);
    let done2 = done1 + words[0] + parts[1];
    lemma_filled_last(template, 6, words[1], parts, done2, told);
}

spec fn pod_impls_words() -> Seq<Seq<char>> {
    seq!["\nconst _: () = {\n    let mut __size = 0usize;\n    "@, "\n    assert!(\n        core::mem::size_of::<"@, ">() == __size,\n        \"account struct has padding bytes — reorder fields from largest to smallest alignment to eliminate padding (e.g. u64 before u32 before u8)\"\n    );\n};\nunsafe impl anchor_lang::bytemuck::Pod for "@, " {}\nunsafe impl anchor_lang::bytemuck::Zeroable for "@, " {}"@]
}

proof fn lemma_pod_impls_text_marks()
    ensures
        POD_IMPLS@.len() == 374,
        POD_IMPLS@[0] == '@' && POD_IMPLS@[1] == 'a',
        stands_at(POD_IMPLS@, pod_impls_words()[0], 2, 50),
        POD_IMPLS@[52] == '@' && POD_IMPLS@[53] == 'b',
        stands_at(POD_IMPLS@, pod_impls_words()[1], 54, 43),
        POD_IMPLS@[97] == '@' && POD_IMPLS@[98] == 'c',
        stands_at(POD_IMPLS@, pod_impls_words()[2], 99, 216),
        POD_IMPLS@[315] == '@' && POD_IMPLS@[316] == 'c',
        stands_at(POD_IMPLS@, pod_impls_words()[3], 317, 52),
        POD_IMPLS@[369] == '@' && POD_IMPLS@[370] == 'c',
        stands_at(POD_IMPLS@, pod_impls_words()[4], 371, 3),
{
    let template = POD_IMPLS@;
    let words = pod_impls_words();
    reveal_strlit("@a\nconst _: () = {\n    let mut __size = 0usize;\n    @b\n    assert!(\n        core::mem::size_of::<@c>() == __size,\n        \"account struct has padding bytes — reorder fields from largest to smallest alignment to eliminate padding (e.g. u64 before u32 before u8)\"\n    );\n};\nunsafe impl anchor_lang::bytemuck::Pod for @c {}\nunsafe impl anchor_lang::bytemuck::Zeroable for @c {}");
    assert(stands_at(template, words[0], 2, 50)) by {
        reveal_strlit("\nconst _: () = {\n    let mut __size = 0usize;\n    ");
        assert(template.subrange(2, 52) =~= words[0]);
    }
    assert(stands_at(template, words[1], 54, 43)) by {
        reveal_strlit("\n    assert!(\n        core::mem::size_of::<");
        assert(template.subrange(54, 97) =~= words[1]);
    }
    assert(stands_at(template, words[2], 99, 216)) by {
        reveal_strlit(">() == __size,\n        \"account struct has padding bytes — reorder fields from largest to smallest alignment to eliminate padding (e.g. u64 before u32 before u8)\"\n    );\n};\nunsafe impl anchor_lang::bytemuck::Pod for ");
        assert(template.subrange(99, 315) =~= words[2]);
    }
    assert(stands_at(template, words[3], 317, 52)) by {
        reveal_strlit(" {}\nunsafe impl anchor_lang::bytemuck::Zeroable for ");
        assert(template.subrange(317, 369) =~= words[3]);
    }
    assert(stands_at(template, words[4], 371, 3)) by {
        reveal_strlit(" {}");
        assert(template.subrange(371, 374) =~= words[4]);
    }
}

/// The text of the template, with its holes filled.
pub proof fn lemma_pod_impls_text(parts: Seq<Seq<char>>)
    requires
        parts.len() == 3,
    ensures
        filled(POD_IMPLS@, parts) == parts[0] + "\nconst _: () = {\n    let mut __size = 0usize;\n    "@ + parts[1] + "\n    assert!(\n        core::mem::size_of::<"@ + parts[2] + ">() == __size,\n        \"account struct has padding bytes — reorder fields from largest to smallest alignment to eliminate padding (e.g. u64 before u32 before u8)\"\n    );\n};\nunsafe impl anchor_lang::bytemuck::Pod for "@ + parts[2] + " {}\nunsafe impl anchor_lang::bytemuck::Zeroable for "@ + parts[2] + " {}"@,
{
    let template = POD_IMPLS@;
    let words = pod_impls_words();
    lemma_pod_impls_text_marks();
    let told = filled(template, parts);
    assert(template.skip(0) =~= template);
    let done0 = Seq::<char>::empty();
    assert(told =~= done0 + filled(template.skip(0), parts));
    assert(template.subrange(0, 0) =~= Seq::<char>::empty());
    lemma_filled_from(template, 0, Seq::<char>::empty(), 'a', parts, done0, told);
    let done1 = parts[0];
    assert(done0 + Seq::<char>::empty() + parts[0] =~= done1);
    lemma_filled_from(template, 2, words[0], 'b', parts, done1, told);
    let done2 = done1 + words[0] + parts[1];
    lemma_filled_from(template, 54, words[1], 'c', parts, done2, told);
    let done3 = done2 + words[1] + parts[2];
    lemma_filled_from(template, 99, words[2], 'c', parts, done3, told);
    let done4 = done3 + words[2] + parts[2];
    lemma_filled_from(template, 317, words[3], 'c', parts, done4, told);
    let done5 = done4 + words[3] + parts[2];
    lemma_filled_last(template, 371, words[4], parts, done5, told);
}

spec fn pod_deserialize_words() -> Seq<Seq<char>> {
    seq!["impl anchor_lang::AccountDeserialize for "@, " {\n    fn try_deserialize(\n        buf: &mut &[u8],\n    ) -> ::core::result::Result<Self, anchor_lang::Error> {\n        use anchor_lang::Discriminator as _;\n        if buf.len() < <Self as anchor_lang::Discriminator>::DISCRIMINATOR.len() {\n            return Err(anchor_lang::Error::AccountDataTooSmall);\n        }\n        let disc = &buf[..<Self as anchor_lang::Discriminator>::DISCRIMINATOR.len()];\n        if disc != <Self as anchor_lang::Discriminator>::DISCRIMINATOR {\n            return Err(anchor_lang::Error::InvalidAccountData);\n        }\n        Self::try_deserialize_unchecked(buf)\n    }\n    fn try_deserialize_unchecked(\n        buf: &mut &[u8],\n    ) -> ::core::result::Result<Self, anchor_lang::Error> {\n        use anchor_lang::Discriminator as _;\n        let disc_len = <Self as anchor_lang::Discriminator>::DISCRIMINATOR.len();\n        if buf.len() < disc_len {\n            return Err(anchor_lang::Error::AccountDataTooSmall);\n        }\n        let original = *buf;\n        let data = &original[disc_len..];\n        let n = ::core::mem::size_of::<Self>();\n        if data.len() < n {\n            return Err(anchor_lang::Error::AccountDataTooSmall);\n        }\n        let value: Self = anchor_lang::bytemuck::pod_read_unaligned(&data[..n]);\n        *buf = &data[n..];\n        Ok(value)\n    }\n}"@]
}

proof fn lemma_pod_deserialize_text_marks()
    ensures
        POD_DESERIALIZE@.len() == 1352,
        stands_at(POD_DESERIALIZE@, pod_deserialize_words()[0], 0, 41),
        POD_DESERIALIZE@[41] == '@' && POD_DESERIALIZE@[42] == 'a',
        stands_at(POD_DESERIALIZE@, pod_deserialize_words()[1], 43, 1309),
{
    let template = POD_DESERIALIZE@;
    let words = pod_deserialize_words();
    reveal_strlit("impl anchor_lang::AccountDeserialize for @a {\n    fn try_deserialize(\n        buf: &mut &[u8],\n    ) -> ::core::result::Result<Self, anchor_lang::Error> {\n        use anchor_lang::Discriminator as _;\n        if buf.len() < <Self as anchor_lang::Discriminator>::DISCRIMINATOR.len() {\n            return Err(anchor_lang::Error::AccountDataTooSmall);\n        }\n        let disc = &buf[..<Self as anchor_lang::Discriminator>::DISCRIMINATOR.len()];\n        if disc != <Self as anchor_lang::Discriminator>::DISCRIMINATOR {\n            return Err(anchor_lang::Error::InvalidAccountData);\n        }\n        Self::try_deserialize_unchecked(buf)\n    }\n    fn try_deserialize_unchecked(\n        buf: &mut &[u8],\n    ) -> ::core::result::Result<Self, anchor_lang::Error> {\n        use anchor_lang::Discriminator as _;\n        let disc_len = <Self as anchor_lang::Discriminator>::DISCRIMINATOR.len();\n        if buf.len() < disc_len {\n            return Err(anchor_lang::Error::AccountDataTooSmall);\n        }\n        let original = *buf;\n        let data = &original[disc_len..];\n        let n = ::core::mem::size_of::<Self>();\n        if data.len() < n {\n            return Err(anchor_lang::Error::AccountDataTooSmall);\n        }\n        let value: Self = anchor_lang::bytemuck::pod_read_unaligned(&data[..n]);\n        *buf = &data[n..];\n        Ok(value)\n    }\n}");
    assert(stands_at(template, words[0], 0, 41)) by {
        reveal_strlit("impl anchor_lang::AccountDeserialize for ");
        assert(template.subrange(0, 41) =~= words[0]);
    }
    assert(stands_at(template, words[1], 43, 1309)) by {
        reveal_strlit(" {\n    fn try_deserialize(\n        buf: &mut &[u8],\n    ) -> ::core::result::Result<Self, anchor_lang::Error> {\n        use anchor_lang::Discriminator as _;\n        if buf.len() < <Self as anchor_lang::Discriminator>::DISCRIMINATOR.len() {\n            return Err(anchor_lang::Error::AccountDataTooSmall);\n        }\n        let disc = &buf[..<Self as anchor_lang::Discriminator>::DISCRIMINATOR.len()];\n        if disc != <Self as anchor_lang::Discriminator>::DISCRIMINATOR {\n            return Err(anchor_lang::Error::InvalidAccountData);\n        }\n        Self::try_deserialize_unchecked(buf)\n    }\n    fn try_deserialize_unchecked(\n        buf: &mut &[u8],\n    ) -> ::core::result::Result<Self, anchor_lang::Error> {\n        use anchor_lang::Discriminator as _;\n        let disc_len = <Self as anchor_lang::Discriminator>::DISCRIMINATOR.len();\n        if buf.len() < disc_len {\n            return Err(anchor_lang::Error::AccountDataTooSmall);\n        }\n        let original = *buf;\n        let data = &original[disc_len..];\n        let n = ::core::mem::size_of::<Self>();\n        if data.len() < n {\n            return Err(anchor_lang::Error::AccountDataTooSmall);\n        }\n        let value: Self = anchor_lang::bytemuck::pod_read_unaligned(&data[..n]);\n        *buf = &data[n..];\n        Ok(value)\n    }\n}");
        assert(template.subrange(43, 1352) =~= words[1]);
    }
}

/// The text of the template, with its holes filled.
pub proof fn lemma_pod_deserialize_text(parts: Seq<Seq<char>>)
    requires
        parts.len() == 1,
    ensures
        filled(POD_DESERIALIZE@, parts) == "impl anchor_lang::AccountDeserialize for "@ + parts[0] + " {\n    fn try_deserialize(\n        buf: &mut &[u8],\n    ) -> ::core::result::Result<Self, anchor_lang::Error> {\n        use anchor_lang::Discriminator as _;\n        if buf.len() < <Self as anchor_lang::Discriminator>::DISCRIMINATOR.len() {\n            return Err(anchor_lang::Error::AccountDataTooSmall);\n        }\n        let disc = &buf[..<Self as anchor_lang::Discriminator>::DISCRIMINATOR.len()];\n        if disc != <Self as anchor_lang::Discriminator>::DISCRIMINATOR {\n            return Err(anchor_lang::Error::InvalidAccountData);\n        }\n        Self::try_deserialize_unchecked(buf)\n    }\n    fn try_deserialize_unchecked(\n        buf: &mut &[u8],\n    ) -> ::core::result::Result<Self, anchor_lang::Error> {\n        use anchor_lang::Discriminator as _;\n        let disc_len = <Self as anchor_lang::Discriminator>::DISCRIMINATOR.len();\n        if buf.len() < disc_len {\n            return Err(anchor_lang::Error::AccountDataTooSmall);\n        }\n        let original = *buf;\n        let data = &original[disc_len..];\n        let n = ::core::mem::size_of::<Self>();\n        if data.len() < n {\n            return Err(anchor_lang::Error::AccountDataTooSmall);\n        }\n        let value: Self = anchor_lang::bytemuck::pod_read_unaligned(&data[..n]);\n        *buf = &data[n..];\n        Ok(value)\n    }\n}"@,
{
    let template = POD_DESERIALIZE@;
    let words = pod_deserialize_words();
    lemma_pod_deserialize_text_marks();
    let told = filled(template, parts);
    assert(template.skip(0) =~= template);
    let done0 = Seq::<char>::empty();
    assert(told =~= done0 + filled(template.skip(0), parts));
    lemma_filled_from(template, 0, words[0], 'a', parts, done0, told);
    let done1 = words[0] + parts[0];
    assert(done0 + words[0] + parts[0] =~= done1);
    lemma_filled_last(template, 43, words[1], parts, done1, told);
}

spec fn borsh_deserialize_words() -> Seq<Seq<char>> {
    seq!["impl anchor_lang::AccountDeserialize for "@, " {\n    fn try_deserialize(\n        buf: &mut &[u8],\n    ) -> ::core::result::Result<Self, anchor_lang::Error> {\n        use anchor_lang::Discriminator as _;\n        if buf.len() < <Self as anchor_lang::Discriminator>::DISCRIMINATOR.len() {\n            return Err(anchor_lang::Error::AccountDataTooSmall);\n        }\n        let disc = &buf[..<Self as anchor_lang::Discriminator>::DISCRIMINATOR.len()];\n        if disc != <Self as anchor_lang::Discriminator>::DISCRIMINATOR {\n            return Err(anchor_lang::Error::InvalidAccountData);\n        }\n        Self::try_deserialize_unchecked(buf)\n    }\n    fn try_deserialize_unchecked(\n        buf: &mut &[u8],\n    ) -> ::core::result::Result<Self, anchor_lang::Error> {\n        use anchor_lang::Discriminator as _;\n        let disc_len = <Self as anchor_lang::Discriminator>::DISCRIMINATOR.len();\n        if buf.len() < disc_len {\n            return Err(anchor_lang::Error::AccountDataTooSmall);\n        }\n        let original = *buf;\n        let mut data = &original[disc_len..];\n        let value = <Self as anchor_lang::wincode::SchemaRead<\n            '_,\n            anchor_lang::BorshConfig,\n        >>::get(&mut data)\n            .map_err(|_| anchor_lang::Error::InvalidAccountData)?;\n        *buf = data;\n        Ok(value)\n    }\n}"@]
}

proof fn lemma_borsh_deserialize_text_marks()
    ensures
        BORSH_DESERIALIZE@.len() == 1329,
        stands_at(BORSH_DESERIALIZE@, borsh_deserialize_words()[0], 0, 41),
        BORSH_DESERIALIZE@[41] == '@' && BORSH_DESERIALIZE@[42] == 'a',
        stands_at(BORSH_DESERIALIZE@, borsh_deserialize_words()[1], 43, 1286),
{
    let template = BORSH_DESERIALIZE@;
    let words = borsh_deserialize_words();
    reveal_strlit("impl anchor_lang::AccountDeserialize for @a {\n    fn try_deserialize(\n        buf: &mut &[u8],\n    ) -> ::core::result::Result<Self, anchor_lang::Error> {\n        use anchor_lang::Discriminator as _;\n        if buf.len() < <Self as anchor_lang::Discriminator>::DISCRIMINATOR.len() {\n            return Err(anchor_lang::Error::AccountDataTooSmall);\n        }\n        let disc = &buf[..<Self as anchor_lang::Discriminator>::DISCRIMINATOR.len()];\n        if disc != <Self as anchor_lang::Discriminator>::DISCRIMINATOR {\n            return Err(anchor_lang::Error::InvalidAccountData);\n        }\n        Self::try_deserialize_unchecked(buf)\n    }\n    fn try_deserialize_unchecked(\n        buf: &mut &[u8],\n    ) -> ::core::result::Result<Self, anchor_lang::Error> {\n        use anchor_lang::Discriminator as _;\n        let disc_len = <Self as anchor_lang::Discriminator>::DISCRIMINATOR.len();\n        if buf.len() < disc_len {\n            return Err(anchor_lang::Error::AccountDataTooSmall);\n        }\n        let original = *buf;\n        let mut data = &original[disc_len..];\n        let value = <Self as anchor_lang::wincode::SchemaRead<\n            '_,\n            anchor_lang::BorshConfig,\n        >>::get(&mut data)\n            .map_err(|_| anchor_lang::Error::InvalidAccountData)?;\n        *buf = data;\n        Ok(value)\n    }\n}");
    assert(stands_at(template, words[0], 0, 41)) by {
        reveal_strlit("impl anchor_lang::AccountDeserialize for ");
        assert(template.subrange(0, 41) =~= words[0]);
    }
    assert(stands_at(template, words[1], 43, 1286)) by {
        reveal_strlit(" {\n    fn try_deserialize(\n        buf: &mut &[u8],\n    ) -> ::core::result::Result<Self, anchor_lang::Error> {\n        use anchor_lang::Discriminator as _;\n        if buf.len() < <Self as anchor_lang::Discriminator>::DISCRIMINATOR.len() {\n            return Err(anchor_lang::Error::AccountDataTooSmall);\n        }\n        let disc = &buf[..<Self as anchor_lang::Discriminator>::DISCRIMINATOR.len()];\n        if disc != <Self as anchor_lang::Discriminator>::DISCRIMINATOR {\n            return Err(anchor_lang::Error::InvalidAccountData);\n        }\n        Self::try_deserialize_unchecked(buf)\n    }\n    fn try_deserialize_unchecked(\n        buf: &mut &[u8],\n    ) -> ::core::result::Result<Self, anchor_lang::Error> {\n        use anchor_lang::Discriminator as _;\n        let disc_len = <Self as anchor_lang::Discriminator>::DISCRIMINATOR.len();\n        if buf.len() < disc_len {\n            return Err(anchor_lang::Error::AccountDataTooSmall);\n        }\n        let original = *buf;\n        let mut data = &original[disc_len..];\n        let value = <Self as anchor_lang::wincode::SchemaRead<\n            '_,\n            anchor_lang::BorshConfig,\n        >>::get(&mut data)\n            .map_err(|_| anchor_lang::Error::InvalidAccountData)?;\n        *buf = data;\n        Ok(value)\n    }\n}");
        assert(template.subrange(43, 1329) =~= words[1]);
    }
}

/// The text of the template, with its holes filled.
pub proof fn lemma_borsh_deserialize_text(parts: Seq<Seq<char>>)
    requires
        parts.len() == 1,
    ensures
        filled(BORSH_DESERIALIZE@, parts) == "impl anchor_lang::AccountDeserialize for "@ + parts[0] + " {\n    fn try_deserialize(\n        buf: &mut &[u8],\n    ) -> ::core::result::Result<Self, anchor_lang::Error> {\n        use anchor_lang::Discriminator as _;\n        if buf.len() < <Self as anchor_lang::Discriminator>::DISCRIMINATOR.len() {\n            return Err(anchor_lang::Error::AccountDataTooSmall);\n        }\n        let disc = &buf[..<Self as anchor_lang::Discriminator>::DISCRIMINATOR.len()];\n        if disc != <Self as anchor_lang::Discriminator>::DISCRIMINATOR {\n            return Err(anchor_lang::Error::InvalidAccountData);\n        }\n        Self::try_deserialize_unchecked(buf)\n    }\n    fn try_deserialize_unchecked(\n        buf: &mut &[u8],\n    ) -> ::core::result::Result<Self, anchor_lang::Error> {\n        use anchor_lang::Discriminator as _;\n        let disc_len = <Self as anchor_lang::Discriminator>::DISCRIMINATOR.len();\n        if buf.len() < disc_len {\n            return Err(anchor_lang::Error::AccountDataTooSmall);\n        }\n        let original = *buf;\n        let mut data = &original[disc_len..];\n        let value = <Self as anchor_lang::wincode::SchemaRead<\n            '_,\n            anchor_lang::BorshConfig,\n        >>::get(&mut data)\n            .map_err(|_| anchor_lang::Error::InvalidAccountData)?;\n        *buf = data;\n        Ok(value)\n    }\n}"@,
{
    let template = BORSH_DESERIALIZE@;
    let words = borsh_deserialize_words();
    lemma_borsh_deserialize_text_marks();
    let told = filled(template, parts);
    assert(template.skip(0) =~= template);
    let done0 = Seq::<char>::empty();
    assert(told =~= done0 + filled(template.skip(0), parts));
    lemma_filled_from(template, 0, words[0], 'a', parts, done0, told);
    let done1 = words[0] + parts[0];
    assert(done0 + words[0] + parts[0] =~= done1);
    lemma_filled_last(template, 43, words[1], parts, done1, told);
}

spec fn account_words() -> Seq<Seq<char>> {
    seq!["\n"@, " struct "@, " "@, "\n\n"@, "\n\nimpl anchor_lang::Owner for "@, " {\n    const OWNER: anchor_lang::Address = crate::ID;\n}\nimpl anchor_lang::Discriminator for "@, " {\n    const DISCRIMINATOR: &'static [u8] = &["@, "];\n}\n"@, "#[cfg(feature = \"idl-build\")]\n#[doc(hidden)]\nimpl anchor_lang::IdlAccountType for "@, " {\n    const __IDL_ACCOUNT_ENTRY: Option<&'static str> = "@, ";\n    fn __idl_type_def() -> Option<&'static str> {\n        "@, "\n    }\n"@, "    fn __register_idl_deps(\n        accounts: &mut ::anchor_lang::__alloc::vec::Vec<&'static str>,\n        types: &mut ::anchor_lang::__alloc::vec::Vec<&'static str>,\n    ) {\n        if let Some(a) = <Self as anchor_lang::IdlAccountType>::__idl_account_entry() {\n            accounts.push(a);\n        }\n        if let Some(t) = <Self as anchor_lang::IdlAccountType>::__idl_type_def() {\n            types.push(t);\n        }\n        "@, "\n    }\n}"@]
}

proof fn lemma_account_told_marks()
    ensures
        ACCOUNT@.len() == 860,
        !in_hole(ACCOUNT@, 0),
        !in_hole(ACCOUNT@, 207),
        ACCOUNT@[0] == '@' && ACCOUNT@[1] == 'a',
        stands_at(ACCOUNT@, account_words()[0], 2, 1),
        ACCOUNT@[3] == '@' && ACCOUNT@[4] == 'b',
        stands_at(ACCOUNT@, account_words()[0], 5, 1),
        ACCOUNT@[6] == '@' && ACCOUNT@[7] == 'c',
        stands_at(ACCOUNT@, account_words()[1], 8, 8),
        ACCOUNT@[16] == '@' && ACCOUNT@[17] == 'd',
        stands_at(ACCOUNT@, account_words()[2], 18, 1),
        ACCOUNT@[19] == '@' && ACCOUNT@[20] == 'e',
        stands_at(ACCOUNT@, account_words()[3], 21, 2),
        ACCOUNT@[23] == '@' && ACCOUNT@[24] == 'f',
        stands_at(ACCOUNT@, account_words()[4], 25, 30),
        ACCOUNT@[55] == '@' && ACCOUNT@[56] == 'd',
        stands_at(ACCOUNT@, account_words()[5], 57, 92),
        ACCOUNT@[149] == '@' && ACCOUNT@[150] == 'd',
        stands_at(ACCOUNT@, account_words()[6], 151, 46),
        ACCOUNT@[197] == '@' && ACCOUNT@[198] == 'g',
        stands_at(ACCOUNT@, account_words()[7], 199, 5),
        ACCOUNT@[204] == '@' && ACCOUNT@[205] == 'h',
        stands_at(ACCOUNT@, account_words()[0], 206, 1),
        !in_hole(ACCOUNT@, 419),
        stands_at(ACCOUNT@, account_words()[8], 207, 82),
        ACCOUNT@[289] == '@' && ACCOUNT@[290] == 'd',
        stands_at(ACCOUNT@, account_words()[9], 291, 57),
        ACCOUNT@[348] == '@' && ACCOUNT@[349] == 'i',
        stands_at(ACCOUNT@, account_words()[10], 350, 60),
        ACCOUNT@[410] == '@' && ACCOUNT@[411] == 'j',
        stands_at(ACCOUNT@, account_words()[11], 412, 7),
        !in_hole(ACCOUNT@, 860),
        stands_at(ACCOUNT@, account_words()[12], 419, 431),
        ACCOUNT@[850] == '@' && ACCOUNT@[851] == 'k',
        stands_at(ACCOUNT@, account_words()[13], 852, 8),
{
    let template = ACCOUNT@;
    let words = account_words();
    reveal_strlit("@a\n@b\n@c struct @d @e\n\n@f\n\nimpl anchor_lang::Owner for @d {\n    const OWNER: anchor_lang::Address = crate::ID;\n}\nimpl anchor_lang::Discriminator for @d {\n    const DISCRIMINATOR: &'static [u8] = &[@g];\n}\n@h\n#[cfg(feature = \"idl-build\")]\n#[doc(hidden)]\nimpl anchor_lang::IdlAccountType for @d {\n    const __IDL_ACCOUNT_ENTRY: Option<&'static str> = @i;\n    fn __idl_type_def() -> Option<&'static str> {\n        @j\n    }\n    fn __register_idl_deps(\n        accounts: &mut ::anchor_lang::__alloc::vec::Vec<&'static str>,\n        types: &mut ::anchor_lang::__alloc::vec::Vec<&'static str>,\n    ) {\n        if let Some(a) = <Self as anchor_lang::IdlAccountType>::__idl_account_entry() {\n            accounts.push(a);\n        }\n        if let Some(t) = <Self as anchor_lang::IdlAccountType>::__idl_type_def() {\n            types.push(t);\n        }\n        @k\n    }\n}");
    assert(stands_at(template, words[0], 2, 1)) by {
        reveal_strlit("\n");
        assert(template.subrange(2, 3) =~= words[0]);
    }
    assert(stands_at(template, words[0], 5, 1)) by {
        reveal_strlit("\n");
        assert(template.subrange(5, 6) =~= words[0]);
    }
    assert(stands_at(template, words[1], 8, 8)) by {
        reveal_strlit(" struct ");
        assert(template.subrange(8, 16) =~= words[1]);
    }
    assert(stands_at(template, words[2], 18, 1)) by {
        reveal_strlit(" ");
        assert(template.subrange(18, 19) =~= words[2]);
    }
    assert(stands_at(template, words[3], 21, 2)) by {
        reveal_strlit("\n\n");
        assert(template.subrange(21, 23) =~= words[3]);
    }
    assert(stands_at(template, words[4], 25, 30)) by {
        reveal_strlit("\n\nimpl anchor_lang::Owner for ");
        assert(template.subrange(25, 55) =~= words[4]);
    }
    assert(stands_at(template, words[5], 57, 92)) by {
        reveal_strlit(" {\n    const OWNER: anchor_lang::Address = crate::ID;\n}\nimpl anchor_lang::Discriminator for ");
        assert(template.subrange(57, 149) =~= words[5]);
    }
    assert(stands_at(template, words[6], 151, 46)) by {
        reveal_strlit(" {\n    const DISCRIMINATOR: &'static [u8] = &[");
        assert(template.subrange(151, 197) =~= words[6]);
    }
    assert(stands_at(template, words[7], 199, 5)) by {
        reveal_strlit("];\n}\n");
        assert(template.subrange(199, 204) =~= words[7]);
    }
    assert(stands_at(template, words[0], 206, 1)) by {
        reveal_strlit("\n");
        assert(template.subrange(206, 207) =~= words[0]);
    }
    assert(stands_at(template, words[8], 207, 82)) by {
        reveal_strlit("#[cfg(feature = \"idl-build\")]\n#[doc(hidden)]\nimpl anchor_lang::IdlAccountType for ");
        assert(template.subrange(207, 289) =~= words[8]);
    }
    assert(stands_at(template, words[9], 291, 57)) by {
        reveal_strlit(" {\n    const __IDL_ACCOUNT_ENTRY: Option<&'static str> = ");
        assert(template.subrange(291, 348) =~= words[9]);
    }
    assert(stands_at(template, words[10], 350, 60)) by {
        reveal_strlit(";\n    fn __idl_type_def() -> Option<&'static str> {\n        ");
        assert(template.subrange(350, 410) =~= words[10]);
    }
    assert(stands_at(template, words[11], 412, 7)) by {
        reveal_strlit("\n    }\n");
        assert(template.subrange(412, 419) =~= words[11]);
    }
    assert(stands_at(template, words[12], 419, 431)) by {
        reveal_strlit("    fn __register_idl_deps(\n        accounts: &mut ::anchor_lang::__alloc::vec::Vec<&'static str>,\n        types: &mut ::anchor_lang::__alloc::vec::Vec<&'static str>,\n    ) {\n        if let Some(a) = <Self as anchor_lang::IdlAccountType>::__idl_account_entry() {\n            accounts.push(a);\n        }\n        if let Some(t) = <Self as anchor_lang::IdlAccountType>::__idl_type_def() {\n            types.push(t);\n        }\n        ");
        assert(template.subrange(419, 850) =~= words[12]);
    }
    assert(stands_at(template, words[13], 852, 8)) by {
        reveal_strlit("\n    }\n}");
        assert(template.subrange(852, 860) =~= words[13]);
    }
}

proof fn lemma_account_told_0(parts: Seq<Seq<char>>)
    requires
        parts.len() == 11,
    ensures
        filled(ACCOUNT@.subrange(0, 207), parts) == parts[0] + "\n"@ + parts[1] + "\n"@ + parts[2] + " struct "@ + parts[3] + " "@ + parts[4] + "\n\n"@ + parts[5] + "\n\nimpl anchor_lang::Owner for "@ + parts[3] + " {\n    const OWNER: anchor_lang::Address = crate::ID;\n}\nimpl anchor_lang::Discriminator for "@ + parts[3] + " {\n    const DISCRIMINATOR: &'static [u8] = &["@ + parts[6] + "];\n}\n"@ + parts[7] + "\n"@,
{
    let template = ACCOUNT@;
    let words = account_words();
    lemma_account_told_marks();
    let piece = template.subrange(0, 207);
    let told = filled(piece, parts);
    assert(piece.skip(0) =~= piece);
    let done0 = Seq::<char>::empty();
    assert(told =~= done0 + filled(piece.skip(0), parts));
    assert(piece.subrange(0, 0) =~= Seq::<char>::empty());
    lemma_filled_from(piece, 0, Seq::<char>::empty(), 'a', parts, done0, told);
    let done1 = parts[0];
    assert(done0 + Seq::<char>::empty() + parts[0] =~= done1);
    assert(piece.subrange(2, 3) =~= template.subrange(2, 3));
    lemma_filled_from(piece, 2, words[0], 'b', parts, done1, told);
    let done2 = done1 + words[0] + parts[1];
    assert(piece.subrange(5, 6) =~= template.subrange(5, 6));
    lemma_filled_from(piece, 5, words[0], 'c', parts, done2, told);
    let done3 = done2 + words[0] + parts[2];
    assert(piece.subrange(8, 16) =~= template.subrange(8, 16));
    lemma_filled_from(piece, 8, words[1], 'd', parts, done3, told);
    let done4 = done3 + words[1] + parts[3];
    assert(piece.subrange(18, 19) =~= template.subrange(18, 19));
    lemma_filled_from(piece, 18, words[2], 'e', parts, done4, told);
    let done5 = done4 + words[2] + parts[4];
    assert(piece.subrange(21, 23) =~= template.subrange(21, 23));
    lemma_filled_from(piece, 21, words[3], 'f', parts, done5, told);
    let done6 = done5 + words[3] + parts[5];
    assert(piece.subrange(25, 55) =~= template.subrange(25, 55));
    lemma_filled_from(piece, 25, words[4], 'd', parts, done6, told);
    let done7 = done6 + words[4] + parts[3];
    assert(piece.subrange(57, 149) =~= template.subrange(57, 149));
    lemma_filled_from(piece, 57, words[5], 'd', parts, done7, told);
    let done8 = done7 + words[5] + parts[3];
    assert(piece.subrange(151, 197) =~= template.subrange(151, 197));
    lemma_filled_from(piece, 151, words[6], 'g', parts, done8, told);
    let done9 = done8 + words[6] + parts[6];
    assert(piece.subrange(199, 204) =~= template.subrange(199, 204));
    lemma_filled_from(piece, 199, words[7], 'h', parts, done9, told);
    let done10 = done9 + words[7] + parts[7];
    assert(piece.subrange(206, 207) =~= template.subrange(206, 207));
    lemma_filled_last(piece, 206, words[0], parts, done10, told);
}

proof fn lemma_account_told_1(parts: Seq<Seq<char>>)
    requires
        parts.len() == 11,
    ensures
        filled(ACCOUNT@.subrange(207, 419), parts) == "#[cfg(feature = \"idl-build\")]\n#[doc(hidden)]\nimpl anchor_lang::IdlAccountType for "@ + parts[3] + " {\n    const __IDL_ACCOUNT_ENTRY: Option<&'static str> = "@ + parts[8] + ";\n    fn __idl_type_def() -> Option<&'static str> {\n        "@ + parts[9] + "\n    }\n"@,
{
    let template = ACCOUNT@;
    let words = account_words();
    lemma_account_told_marks();
    let piece = template.subrange(207, 419);
    let told = filled(piece, parts);
    assert(piece.skip(0) =~= piece);
    let done0 = Seq::<char>::empty();
    assert(told =~= done0 + filled(piece.skip(0), parts));
    assert(piece.subrange(0, 82) =~= template.subrange(207, 289));
    lemma_filled_from(piece, 0, words[8], 'd', parts, done0, told);
    let done1 = words[8] + parts[3];
    assert(done0 + words[8] + parts[3] =~= done1);
    assert(piece.subrange(84, 141) =~= template.subrange(291, 348));
    lemma_filled_from(piece, 84, words[9], 'i', parts, done1, told);
    let done2 = done1 + words[9] + parts[8];
    assert(piece.subrange(143, 203) =~= template.subrange(350, 410));
    lemma_filled_from(piece, 143, words[10], 'j', parts, done2, told);
    let done3 = done2 + words[10] + parts[9];
    assert(piece.subrange(205, 212) =~= template.subrange(412, 419));
    lemma_filled_last(piece, 205, words[11], parts, done3, told);
}

proof fn lemma_account_told_2(parts: Seq<Seq<char>>)
    requires
        parts.len() == 11,
    ensures
        filled(ACCOUNT@.subrange(419, 860), parts) == "    fn __register_idl_deps(\n        accounts: &mut ::anchor_lang::__alloc::vec::Vec<&'static str>,\n        types: &mut ::anchor_lang::__alloc::vec::Vec<&'static str>,\n    ) {\n        if let Some(a) = <Self as anchor_lang::IdlAccountType>::__idl_account_entry() {\n            accounts.push(a);\n        }\n        if let Some(t) = <Self as anchor_lang::IdlAccountType>::__idl_type_def() {\n            types.push(t);\n        }\n        "@ + parts[10] + "\n    }\n}"@,
{
    let template = ACCOUNT@;
    let words = account_words();
    lemma_account_told_marks();
    let piece = template.subrange(419, 860);
    let told = filled(piece, parts);
    assert(piece.skip(0) =~= piece);
    let done0 = Seq::<char>::empty();
    assert(told =~= done0 + filled(piece.skip(0), parts));
    assert(piece.subrange(0, 431) =~= template.subrange(419, 850));
    lemma_filled_from(piece, 0, words[12], 'k', parts, done0, told);
    let done1 = words[12] + parts[10];
    assert(done0 + words[12] + parts[10] =~= done1);
    assert(piece.subrange(433, 441) =~= template.subrange(852, 860));
    lemma_filled_last(piece, 433, words[13], parts, done1, told);
}

/// The text of the template, with its holes filled.
pub proof fn lemma_account_told(parts: Seq<Seq<char>>)
    requires
        parts.len() == 11,
    ensures
        tells(
            filled(ACCOUNT@, parts),
            seq![
                parts[0] + "\n"@ + parts[1] + "\n"@ + parts[2] + " struct "@ + parts[3] + " "@ + parts[4] + "\n\n"@ + parts[5] + "\n\nimpl anchor_lang::Owner for "@ + parts[3] + " {\n    const OWNER: anchor_lang::Address = crate::ID;\n}\nimpl anchor_lang::Discriminator for "@ + parts[3] + " {\n    const DISCRIMINATOR: &'static [u8] = &["@ + parts[6] + "];\n}\n"@ + parts[7] + "\n"@,
                "#[cfg(feature = \"idl-build\")]\n#[doc(hidden)]\nimpl anchor_lang::IdlAccountType for "@ + parts[3] + " {\n    const __IDL_ACCOUNT_ENTRY: Option<&'static str> = "@ + parts[8] + ";\n    fn __idl_type_def() -> Option<&'static str> {\n        "@ + parts[9] + "\n    }\n"@,
                "    fn __register_idl_deps(\n        accounts: &mut ::anchor_lang::__alloc::vec::Vec<&'static str>,\n        types: &mut ::anchor_lang::__alloc::vec::Vec<&'static str>,\n    ) {\n        if let Some(a) = <Self as anchor_lang::IdlAccountType>::__idl_account_entry() {\n            accounts.push(a);\n        }\n        if let Some(t) = <Self as anchor_lang::IdlAccountType>::__idl_type_def() {\n            types.push(t);\n        }\n        "@ + parts[10] + "\n    }\n}"@,
            ],
        ),
{
    let template = ACCOUNT@;
    lemma_account_told_marks();
    lemma_account_told_0(parts);
    let piece0 = template.subrange(0, 207);
    lemma_account_told_1(parts);
    let piece1 = template.subrange(207, 419);
    lemma_account_told_2(parts);
    let piece2 = template.subrange(419, 860);
    let at = seq![0int, 207int, 419int];
    let pieces = seq![piece0, piece1, piece2];
    assert(pieces_stand(template, at, pieces));
    lemma_filled_tells(template, parts, at, pieces);
    let told = pieces.map_values(|piece: Seq<char>| filled(piece, parts));
    assert(told =~= seq![told[0], told[1], told[2]]);
}

} // verus!
