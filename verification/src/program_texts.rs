//! The texts of the code for programs: each template, with its holes filled.

use crate::passages::{
    in_hole, lemma_filled_from, lemma_filled_last, lemma_filled_tells, pieces_stand, stands_at,
    tells,
};
use crate::program::{
    CLIENT_INTERFACE, EVENT_CPI_DISPATCH, EXECUTABLE_PROGRAM, IDL_ACCOUNTS, IDL_ENTRY, IDL_TYPE,
    IDL_TYPES, INTERFACE_PROGRAM, KNOWN_AUTHORITY_CHECK,
};
use crate::template::filled;
use vstd::prelude::*;

verus! {

spec fn executable_words() -> Seq<Seq<char>> {
    seq![" mod "@, " {\n    "@, "\n    "@, "\n}\n\n#[cfg(not(feature = \"no-entrypoint\"))]\nanchor_lang::pinocchio::default_allocator!();\n#[cfg(not(feature = \"no-entrypoint\"))]\nanchor_lang::pinocchio::default_panic_handler!();\n\n/// Matches Solana's transaction-wide account cap (u8 index space).\n/// The lookup array holds `[AccountView; 256]` = ~2 KiB of frame\n/// used for duplicate-account resolution during cursor walks.\nconst __ANCHOR_MAX_ACCOUNTS: usize = 256;\n\n/// Core dispatch: program-id check, discriminator parse, account\n/// cursor setup, handler dispatch. Exported as the `entrypoint`\n/// symbol unless `no-entrypoint` is active. Custom entrypoints\n/// can call this directly via its Rust path.\n///\n/// The BPF loader passes:\n///   r1 = MM_INPUT_START (first byte of the serialized parameter region)\n///   r2 = VM address of the instruction data bytes (SIMD-0321)\n///\n/// The `[r2 - 8 .. r2]` slot holds the `u64` ix_data length and the\n/// 32 bytes at `[r2 + len .. +32]` hold the program_id, per agave's\n/// aligned serialization layout (see `solana-program-runtime\n/// ::serialization::serialize_parameters_aligned`).\n#[cfg_attr(\n    all(target_os = \"solana\", not(feature = \"no-entrypoint\")),\n    export_name = \"entrypoint\"\n)]\n#[cfg_attr(all(target_os = \"solana\", feature = \"no-entrypoint\"), no_mangle)]\npub unsafe extern \"C\" fn __anchor_dispatch(\n    __input: *mut u8,\n    __ix_data_ptr: *const u8,\n) -> u64 {\n    let mut __lookup: [::core::mem::MaybeUninit<anchor_lang::AccountView>;\n        __ANCHOR_MAX_ACCOUNTS] =\n        [const { ::core::mem::MaybeUninit::uninit() }; __ANCHOR_MAX_ACCOUNTS];\n\n    __anchor_dispatch_internal(\n        __input,\n        __ix_data_ptr,\n        __lookup.as_mut_ptr() as *mut anchor_lang::AccountView,\n    )\n}\n\n"@, "#[inline(never)]\nunsafe fn __anchor_dispatch_internal(\n    __input: *mut u8,\n    __ix_data_ptr: *const u8,\n    __lookup: *mut anchor_lang::AccountView,\n) -> u64 {\n    let __ix_data_len = *(__ix_data_ptr.sub(8) as *const u64) as usize;\n    let __program_id: &anchor_lang::Address =\n        &*(__ix_data_ptr.add(__ix_data_len) as *const anchor_lang::Address);\n\n    if let Err(__e) = anchor_lang::check_program_id(__program_id, &crate::ID) {\n        return __e.into();\n    }\n\n    let __num = *(__input as *const u64) as usize;\n    "@, "\n\n    let mut __cursor = anchor_lang::AccountCursor::new(__input, __lookup);\n\n    "@, "\n    anchor_lang::Error::from(\n        anchor_lang::ErrorCode::InstructionFallbackNotFound,\n    ).into()\n}\n\n"@, "mod __handlers {\n    use super::*;\n    use anchor_lang::TryAccounts as _;\n    "@, "\n}\n\n"@, "\n\n"@, "#[cfg(all(test, feature = \"idl-build\"))]\nmod __anchor_private_idl {\n    use super::*;\n\n    #[test]\n    fn __anchor_private_print_idl_address() {\n        println!(\"--- IDL begin address ---\");\n        let addr = crate::ID;\n        println!(\"{}\", anchor_lang::Address::from(addr));\n        println!(\"--- IDL end address ---\");\n    }\n\n    #[test]\n    fn __anchor_private_print_idl_program() {\n        let mut instructions = Vec::new();\n        "@, "        let mut accounts_entries: Vec<&'static str> = Vec::new();\n        let mut types_entries: Vec<&'static str> = Vec::new();\n        "@, "\n        "@, "\n        accounts_entries.sort();\n        accounts_entries.dedup();\n        types_entries.sort();\n        types_entries.dedup();\n\n"@, "        let crate_name = env!(\"CARGO_CRATE_NAME\").replace('-', \"_\");\n        let description = option_env!(\"CARGO_PKG_DESCRIPTION\")\n            .filter(|s| !s.is_empty());\n        let repository = option_env!(\"CARGO_PKG_REPOSITORY\")\n            .filter(|s| !s.is_empty());\n        let mut metadata_extras = anchor_lang::__alloc::string::String::new();\n        if let Some(d) = description {\n            let escaped = d.replace('\\\\', \"\\\\\\\\\").replace('\"', \"\\\\\\\"\");\n            metadata_extras.push_str(&anchor_lang::__alloc::format!(\n                \",\\\"description\\\":\\\"{}\\\"\",\n                escaped,\n            ));\n        }\n        if let Some(r) = repository {\n            let escaped = r.replace('\\\\', \"\\\\\\\\\").replace('\"', \"\\\\\\\"\");\n            metadata_extras.push_str(&anchor_lang::__alloc::format!(\n                \",\\\"repository\\\":\\\"{}\\\"\",\n                escaped,\n            ));\n        }\n        let idl = format!(\n            \"{{\\\"address\\\":\\\"\\\",\\\"metadata\\\":{{\\\"name\\\":\\\"{}\\\",\\\"version\\\":\\\"0.1.0\\\",\\\"spec\\\":\\\"0.1.0\\\"{}}},\\\"instructions\\\":[{}],\\\"accounts\\\":[{}],\\\"types\\\":[{}]}}\",\n            crate_name,\n            metadata_extras,\n            instructions.join(\",\"),\n            accounts_entries.join(\",\"),\n            types_entries.join(\",\"),\n        );\n        println!(\"--- IDL begin program ---\");\n        println!(\"{}\", idl);\n        println!(\"--- IDL end program ---\");\n    }\n}"@]
}

proof fn lemma_executable_told_marks()
    ensures
        EXECUTABLE_PROGRAM@.len() == 4669,
        !in_hole(EXECUTABLE_PROGRAM@, 0),
        !in_hole(EXECUTABLE_PROGRAM@, 1737),
        EXECUTABLE_PROGRAM@[0] == '@' && EXECUTABLE_PROGRAM@[1] == 'a',
        stands_at(EXECUTABLE_PROGRAM@, executable_words()[0], 2, 5),
        EXECUTABLE_PROGRAM@[7] == '@' && EXECUTABLE_PROGRAM@[8] == 'b',
        stands_at(EXECUTABLE_PROGRAM@, executable_words()[1], 9, 7),
        EXECUTABLE_PROGRAM@[16] == '@' && EXECUTABLE_PROGRAM@[17] == 'c',
        stands_at(EXECUTABLE_PROGRAM@, executable_words()[2], 18, 5),
        EXECUTABLE_PROGRAM@[23] == '@' && EXECUTABLE_PROGRAM@[24] == 'd',
        stands_at(EXECUTABLE_PROGRAM@, executable_words()[3], 25, 1712),
        !in_hole(EXECUTABLE_PROGRAM@, 2459),
        stands_at(EXECUTABLE_PROGRAM@, executable_words()[4], 1737, 528),
        EXECUTABLE_PROGRAM@[2265] == '@' && EXECUTABLE_PROGRAM@[2266] == 'e',
        stands_at(EXECUTABLE_PROGRAM@, executable_words()[5], 2267, 82),
        EXECUTABLE_PROGRAM@[2349] == '@' && EXECUTABLE_PROGRAM@[2350] == 'f',
        stands_at(EXECUTABLE_PROGRAM@, executable_words()[6], 2351, 108),
        !in_hole(EXECUTABLE_PROGRAM@, 2543),
        stands_at(EXECUTABLE_PROGRAM@, executable_words()[7], 2459, 78),
        EXECUTABLE_PROGRAM@[2537] == '@' && EXECUTABLE_PROGRAM@[2538] == 'g',
        stands_at(EXECUTABLE_PROGRAM@, executable_words()[8], 2539, 4),
        !in_hole(EXECUTABLE_PROGRAM@, 2547),
        EXECUTABLE_PROGRAM@[2543] == '@' && EXECUTABLE_PROGRAM@[2544] == 'h',
        stands_at(EXECUTABLE_PROGRAM@, executable_words()[9], 2545, 2),
        !in_hole(EXECUTABLE_PROGRAM@, 2992),
        stands_at(EXECUTABLE_PROGRAM@, executable_words()[10], 2547, 441),
        EXECUTABLE_PROGRAM@[2988] == '@' && EXECUTABLE_PROGRAM@[2989] == 'i',
        stands_at(EXECUTABLE_PROGRAM@, executable_words()[9], 2990, 2),
        !in_hole(EXECUTABLE_PROGRAM@, 3272),
        stands_at(EXECUTABLE_PROGRAM@, executable_words()[11], 2992, 137),
        EXECUTABLE_PROGRAM@[3129] == '@' && EXECUTABLE_PROGRAM@[3130] == 'j',
        stands_at(EXECUTABLE_PROGRAM@, executable_words()[12], 3131, 9),
        EXECUTABLE_PROGRAM@[3140] == '@' && EXECUTABLE_PROGRAM@[3141] == 'k',
        stands_at(EXECUTABLE_PROGRAM@, executable_words()[13], 3142, 130),
        !in_hole(EXECUTABLE_PROGRAM@, 4669),
        stands_at(EXECUTABLE_PROGRAM@, executable_words()[14], 3272, 1397),
{
    let template = EXECUTABLE_PROGRAM@;
    let words = executable_words();
    reveal_strlit("@a mod @b {\n    @c\n    @d\n}\n\n#[cfg(not(feature = \"no-entrypoint\"))]\nanchor_lang::pinocchio::default_allocator!();\n#[cfg(not(feature = \"no-entrypoint\"))]\nanchor_lang::pinocchio::default_panic_handler!();\n\n/// Matches Solana's transaction-wide account cap (u8 index space).\n/// The lookup array holds `[AccountView; 256]` = ~2 KiB of frame\n/// used for duplicate-account resolution during cursor walks.\nconst __ANCHOR_MAX_ACCOUNTS: usize = 256;\n\n/// Core dispatch: program-id check, discriminator parse, account\n/// cursor setup, handler dispatch. Exported as the `entrypoint`\n/// symbol unless `no-entrypoint` is active. Custom entrypoints\n/// can call this directly via its Rust path.\n///\n/// The BPF loader passes:\n///   r1 = MM_INPUT_START (first byte of the serialized parameter region)\n///   r2 = VM address of the instruction data bytes (SIMD-0321)\n///\n/// The `[r2 - 8 .. r2]` slot holds the `u64` ix_data length and the\n/// 32 bytes at `[r2 + len .. +32]` hold the program_id, per agave's\n/// aligned serialization layout (see `solana-program-runtime\n/// ::serialization::serialize_parameters_aligned`).\n#[cfg_attr(\n    all(target_os = \"solana\", not(feature = \"no-entrypoint\")),\n    export_name = \"entrypoint\"\n)]\n#[cfg_attr(all(target_os = \"solana\", feature = \"no-entrypoint\"), no_mangle)]\npub unsafe extern \"C\" fn __anchor_dispatch(\n    __input: *mut u8,\n    __ix_data_ptr: *const u8,\n) -> u64 {\n    let mut __lookup: [::core::mem::MaybeUninit<anchor_lang::AccountView>;\n        __ANCHOR_MAX_ACCOUNTS] =\n        [const { ::core::mem::MaybeUninit::uninit() }; __ANCHOR_MAX_ACCOUNTS];\n\n    __anchor_dispatch_internal(\n        __input,\n        __ix_data_ptr,\n        __lookup.as_mut_ptr() as *mut anchor_lang::AccountView,\n    )\n}\n\n#[inline(never)]\nunsafe fn __anchor_dispatch_internal(\n    __input: *mut u8,\n    __ix_data_ptr: *const u8,\n    __lookup: *mut anchor_lang::AccountView,\n) -> u64 {\n    let __ix_data_len = *(__ix_data_ptr.sub(8) as *const u64) as usize;\n    let __program_id: &anchor_lang::Address =\n        &*(__ix_data_ptr.add(__ix_data_len) as *const anchor_lang::Address);\n\n    if let Err(__e) = anchor_lang::check_program_id(__program_id, &crate::ID) {\n        return __e.into();\n    }\n\n    let __num = *(__input as *const u64) as usize;\n    @e\n\n    let mut __cursor = anchor_lang::AccountCursor::new(__input, __lookup);\n\n    @f\n    anchor_lang::Error::from(\n        anchor_lang::ErrorCode::InstructionFallbackNotFound,\n    ).into()\n}\n\nmod __handlers {\n    use super::*;\n    use anchor_lang::TryAccounts as _;\n    @g\n}\n\n@h\n\n#[cfg(all(test, feature = \"idl-build\"))]\nmod __anchor_private_idl {\n    use super::*;\n\n    #[test]\n    fn __anchor_private_print_idl_address() {\n        println!(\"--- IDL begin address ---\");\n        let addr = crate::ID;\n        println!(\"{}\", anchor_lang::Address::from(addr));\n        println!(\"--- IDL end address ---\");\n    }\n\n    #[test]\n    fn __anchor_private_print_idl_program() {\n        let mut instructions = Vec::new();\n        @i\n\n        let mut accounts_entries: Vec<&'static str> = Vec::new();\n        let mut types_entries: Vec<&'static str> = Vec::new();\n        @j\n        @k\n        accounts_entries.sort();\n        accounts_entries.dedup();\n        types_entries.sort();\n        types_entries.dedup();\n\n        let crate_name = env!(\"CARGO_CRATE_NAME\").replace('-', \"_\");\n        let description = option_env!(\"CARGO_PKG_DESCRIPTION\")\n            .filter(|s| !s.is_empty());\n        let repository = option_env!(\"CARGO_PKG_REPOSITORY\")\n            .filter(|s| !s.is_empty());\n        let mut metadata_extras = anchor_lang::__alloc::string::String::new();\n        if let Some(d) = description {\n            let escaped = d.replace('\\\\', \"\\\\\\\\\").replace('\"', \"\\\\\\\"\");\n            metadata_extras.push_str(&anchor_lang::__alloc::format!(\n                \",\\\"description\\\":\\\"{}\\\"\",\n                escaped,\n            ));\n        }\n        if let Some(r) = repository {\n            let escaped = r.replace('\\\\', \"\\\\\\\\\").replace('\"', \"\\\\\\\"\");\n            metadata_extras.push_str(&anchor_lang::__alloc::format!(\n                \",\\\"repository\\\":\\\"{}\\\"\",\n                escaped,\n            ));\n        }\n        let idl = format!(\n            \"{{\\\"address\\\":\\\"\\\",\\\"metadata\\\":{{\\\"name\\\":\\\"{}\\\",\\\"version\\\":\\\"0.1.0\\\",\\\"spec\\\":\\\"0.1.0\\\"{}}},\\\"instructions\\\":[{}],\\\"accounts\\\":[{}],\\\"types\\\":[{}]}}\",\n            crate_name,\n            metadata_extras,\n            instructions.join(\",\"),\n            accounts_entries.join(\",\"),\n            types_entries.join(\",\"),\n        );\n        println!(\"--- IDL begin program ---\");\n        println!(\"{}\", idl);\n        println!(\"--- IDL end program ---\");\n    }\n}");
    assert(stands_at(template, words[0], 2, 5)) by {
        reveal_strlit(" mod ");
        assert(template.subrange(2, 7) =~= words[0]);
    }
    assert(stands_at(template, words[1], 9, 7)) by {
        reveal_strlit(" {\n    ");
        assert(template.subrange(9, 16) =~= words[1]);
    }
    assert(stands_at(template, words[2], 18, 5)) by {
        reveal_strlit("\n    ");
        assert(template.subrange(18, 23) =~= words[2]);
    }
    assert(stands_at(template, words[3], 25, 1712)) by {
        reveal_strlit("\n}\n\n#[cfg(not(feature = \"no-entrypoint\"))]\nanchor_lang::pinocchio::default_allocator!();\n#[cfg(not(feature = \"no-entrypoint\"))]\nanchor_lang::pinocchio::default_panic_handler!();\n\n/// Matches Solana's transaction-wide account cap (u8 index space).\n/// The lookup array holds `[AccountView; 256]` = ~2 KiB of frame\n/// used for duplicate-account resolution during cursor walks.\nconst __ANCHOR_MAX_ACCOUNTS: usize = 256;\n\n/// Core dispatch: program-id check, discriminator parse, account\n/// cursor setup, handler dispatch. Exported as the `entrypoint`\n/// symbol unless `no-entrypoint` is active. Custom entrypoints\n/// can call this directly via its Rust path.\n///\n/// The BPF loader passes:\n///   r1 = MM_INPUT_START (first byte of the serialized parameter region)\n///   r2 = VM address of the instruction data bytes (SIMD-0321)\n///\n/// The `[r2 - 8 .. r2]` slot holds the `u64` ix_data length and the\n/// 32 bytes at `[r2 + len .. +32]` hold the program_id, per agave's\n/// aligned serialization layout (see `solana-program-runtime\n/// ::serialization::serialize_parameters_aligned`).\n#[cfg_attr(\n    all(target_os = \"solana\", not(feature = \"no-entrypoint\")),\n    export_name = \"entrypoint\"\n)]\n#[cfg_attr(all(target_os = \"solana\", feature = \"no-entrypoint\"), no_mangle)]\npub unsafe extern \"C\" fn __anchor_dispatch(\n    __input: *mut u8,\n    __ix_data_ptr: *const u8,\n) -> u64 {\n    let mut __lookup: [::core::mem::MaybeUninit<anchor_lang::AccountView>;\n        __ANCHOR_MAX_ACCOUNTS] =\n        [const { ::core::mem::MaybeUninit::uninit() }; __ANCHOR_MAX_ACCOUNTS];\n\n    __anchor_dispatch_internal(\n        __input,\n        __ix_data_ptr,\n        __lookup.as_mut_ptr() as *mut anchor_lang::AccountView,\n    )\n}\n\n");
        assert(template.subrange(25, 1737) =~= words[3]);
    }
    assert(stands_at(template, words[4], 1737, 528)) by {
        reveal_strlit("#[inline(never)]\nunsafe fn __anchor_dispatch_internal(\n    __input: *mut u8,\n    __ix_data_ptr: *const u8,\n    __lookup: *mut anchor_lang::AccountView,\n) -> u64 {\n    let __ix_data_len = *(__ix_data_ptr.sub(8) as *const u64) as usize;\n    let __program_id: &anchor_lang::Address =\n        &*(__ix_data_ptr.add(__ix_data_len) as *const anchor_lang::Address);\n\n    if let Err(__e) = anchor_lang::check_program_id(__program_id, &crate::ID) {\n        return __e.into();\n    }\n\n    let __num = *(__input as *const u64) as usize;\n    ");
        assert(template.subrange(1737, 2265) =~= words[4]);
    }
    assert(stands_at(template, words[5], 2267, 82)) by {
        reveal_strlit("\n\n    let mut __cursor = anchor_lang::AccountCursor::new(__input, __lookup);\n\n    ");
        assert(template.subrange(2267, 2349) =~= words[5]);
    }
    assert(stands_at(template, words[6], 2351, 108)) by {
        reveal_strlit("\n    anchor_lang::Error::from(\n        anchor_lang::ErrorCode::InstructionFallbackNotFound,\n    ).into()\n}\n\n");
        assert(template.subrange(2351, 2459) =~= words[6]);
    }
    assert(stands_at(template, words[7], 2459, 78)) by {
        reveal_strlit("mod __handlers {\n    use super::*;\n    use anchor_lang::TryAccounts as _;\n    ");
        assert(template.subrange(2459, 2537) =~= words[7]);
    }
    assert(stands_at(template, words[8], 2539, 4)) by {
        reveal_strlit("\n}\n\n");
        assert(template.subrange(2539, 2543) =~= words[8]);
    }
    assert(stands_at(template, words[9], 2545, 2)) by {
        reveal_strlit("\n\n");
        assert(template.subrange(2545, 2547) =~= words[9]);
    }
    assert(stands_at(template, words[10], 2547, 441)) by {
        reveal_strlit("#[cfg(all(test, feature = \"idl-build\"))]\nmod __anchor_private_idl {\n    use super::*;\n\n    #[test]\n    fn __anchor_private_print_idl_address() {\n        println!(\"--- IDL begin address ---\");\n        let addr = crate::ID;\n        println!(\"{}\", anchor_lang::Address::from(addr));\n        println!(\"--- IDL end address ---\");\n    }\n\n    #[test]\n    fn __anchor_private_print_idl_program() {\n        let mut instructions = Vec::new();\n        ");
        assert(template.subrange(2547, 2988) =~= words[10]);
    }
    assert(stands_at(template, words[9], 2990, 2)) by {
        reveal_strlit("\n\n");
        assert(template.subrange(2990, 2992) =~= words[9]);
    }
    assert(stands_at(template, words[11], 2992, 137)) by {
        reveal_strlit("        let mut accounts_entries: Vec<&'static str> = Vec::new();\n        let mut types_entries: Vec<&'static str> = Vec::new();\n        ");
        assert(template.subrange(2992, 3129) =~= words[11]);
    }
    assert(stands_at(template, words[12], 3131, 9)) by {
        reveal_strlit("\n        ");
        assert(template.subrange(3131, 3140) =~= words[12]);
    }
    assert(stands_at(template, words[13], 3142, 130)) by {
        reveal_strlit("\n        accounts_entries.sort();\n        accounts_entries.dedup();\n        types_entries.sort();\n        types_entries.dedup();\n\n");
        assert(template.subrange(3142, 3272) =~= words[13]);
    }
    assert(stands_at(template, words[14], 3272, 1397)) by {
        reveal_strlit("        let crate_name = env!(\"CARGO_CRATE_NAME\").replace('-', \"_\");\n        let description = option_env!(\"CARGO_PKG_DESCRIPTION\")\n            .filter(|s| !s.is_empty());\n        let repository = option_env!(\"CARGO_PKG_REPOSITORY\")\n            .filter(|s| !s.is_empty());\n        let mut metadata_extras = anchor_lang::__alloc::string::String::new();\n        if let Some(d) = description {\n            let escaped = d.replace('\\\\', \"\\\\\\\\\").replace('\"', \"\\\\\\\"\");\n            metadata_extras.push_str(&anchor_lang::__alloc::format!(\n                \",\\\"description\\\":\\\"{}\\\"\",\n                escaped,\n            ));\n        }\n        if let Some(r) = repository {\n            let escaped = r.replace('\\\\', \"\\\\\\\\\").replace('\"', \"\\\\\\\"\");\n            metadata_extras.push_str(&anchor_lang::__alloc::format!(\n                \",\\\"repository\\\":\\\"{}\\\"\",\n                escaped,\n            ));\n        }\n        let idl = format!(\n            \"{{\\\"address\\\":\\\"\\\",\\\"metadata\\\":{{\\\"name\\\":\\\"{}\\\",\\\"version\\\":\\\"0.1.0\\\",\\\"spec\\\":\\\"0.1.0\\\"{}}},\\\"instructions\\\":[{}],\\\"accounts\\\":[{}],\\\"types\\\":[{}]}}\",\n            crate_name,\n            metadata_extras,\n            instructions.join(\",\"),\n            accounts_entries.join(\",\"),\n            types_entries.join(\",\"),\n        );\n        println!(\"--- IDL begin program ---\");\n        println!(\"{}\", idl);\n        println!(\"--- IDL end program ---\");\n    }\n}");
        assert(template.subrange(3272, 4669) =~= words[14]);
    }
}

proof fn lemma_executable_told_0(parts: Seq<Seq<char>>)
    requires
        parts.len() == 11,
    ensures
        filled(EXECUTABLE_PROGRAM@.subrange(0, 1737), parts) == parts[0] + " mod "@ + parts[1] + " {\n    "@ + parts[2] + "\n    "@ + parts[3] + "\n}\n\n#[cfg(not(feature = \"no-entrypoint\"))]\nanchor_lang::pinocchio::default_allocator!();\n#[cfg(not(feature = \"no-entrypoint\"))]\nanchor_lang::pinocchio::default_panic_handler!();\n\n/// Matches Solana's transaction-wide account cap (u8 index space).\n/// The lookup array holds `[AccountView; 256]` = ~2 KiB of frame\n/// used for duplicate-account resolution during cursor walks.\nconst __ANCHOR_MAX_ACCOUNTS: usize = 256;\n\n/// Core dispatch: program-id check, discriminator parse, account\n/// cursor setup, handler dispatch. Exported as the `entrypoint`\n/// symbol unless `no-entrypoint` is active. Custom entrypoints\n/// can call this directly via its Rust path.\n///\n/// The BPF loader passes:\n///   r1 = MM_INPUT_START (first byte of the serialized parameter region)\n///   r2 = VM address of the instruction data bytes (SIMD-0321)\n///\n/// The `[r2 - 8 .. r2]` slot holds the `u64` ix_data length and the\n/// 32 bytes at `[r2 + len .. +32]` hold the program_id, per agave's\n/// aligned serialization layout (see `solana-program-runtime\n/// ::serialization::serialize_parameters_aligned`).\n#[cfg_attr(\n    all(target_os = \"solana\", not(feature = \"no-entrypoint\")),\n    export_name = \"entrypoint\"\n)]\n#[cfg_attr(all(target_os = \"solana\", feature = \"no-entrypoint\"), no_mangle)]\npub unsafe extern \"C\" fn __anchor_dispatch(\n    __input: *mut u8,\n    __ix_data_ptr: *const u8,\n) -> u64 {\n    let mut __lookup: [::core::mem::MaybeUninit<anchor_lang::AccountView>;\n        __ANCHOR_MAX_ACCOUNTS] =\n        [const { ::core::mem::MaybeUninit::uninit() }; __ANCHOR_MAX_ACCOUNTS];\n\n    __anchor_dispatch_internal(\n        __input,\n        __ix_data_ptr,\n        __lookup.as_mut_ptr() as *mut anchor_lang::AccountView,\n    )\n}\n\n"@,
{
    let template = EXECUTABLE_PROGRAM@;
    let words = executable_words();
    lemma_executable_told_marks();
    let piece = template.subrange(0, 1737);
    let told = filled(piece, parts);
    assert(piece.skip(0) =~= piece);
    let done0 = Seq::<char>::empty();
    assert(told =~= done0 + filled(piece.skip(0), parts));
    assert(piece.subrange(0, 0) =~= Seq::<char>::empty());
    lemma_filled_from(piece, 0, Seq::<char>::empty(), 'a', parts, done0, told);
    let done1 = parts[0];
    assert(done0 + Seq::<char>::empty() + parts[0] =~= done1);
    assert(piece.subrange(2, 7) =~= template.subrange(2, 7));
    lemma_filled_from(piece, 2, words[0], 'b', parts, done1, told);
    let done2 = done1 + words[0] + parts[1];
    assert(piece.subrange(9, 16) =~= template.subrange(9, 16));
    lemma_filled_from(piece, 9, words[1], 'c', parts, done2, told);
    let done3 = done2 + words[1] + parts[2];
    assert(piece.subrange(18, 23) =~= template.subrange(18, 23));
    lemma_filled_from(piece, 18, words[2], 'd', parts, done3, told);
    let done4 = done3 + words[2] + parts[3];
    assert(piece.subrange(25, 1737) =~= template.subrange(25, 1737));
    lemma_filled_last(piece, 25, words[3], parts, done4, told);
}

proof fn lemma_executable_told_1(parts: Seq<Seq<char>>)
    requires
        parts.len() == 11,
    ensures
        filled(EXECUTABLE_PROGRAM@.subrange(1737, 2459), parts) == "#[inline(never)]\nunsafe fn __anchor_dispatch_internal(\n    __input: *mut u8,\n    __ix_data_ptr: *const u8,\n    __lookup: *mut anchor_lang::AccountView,\n) -> u64 {\n    let __ix_data_len = *(__ix_data_ptr.sub(8) as *const u64) as usize;\n    let __program_id: &anchor_lang::Address =\n        &*(__ix_data_ptr.add(__ix_data_len) as *const anchor_lang::Address);\n\n    if let Err(__e) = anchor_lang::check_program_id(__program_id, &crate::ID) {\n        return __e.into();\n    }\n\n    let __num = *(__input as *const u64) as usize;\n    "@ + parts[4] + "\n\n    let mut __cursor = anchor_lang::AccountCursor::new(__input, __lookup);\n\n    "@ + parts[5] + "\n    anchor_lang::Error::from(\n        anchor_lang::ErrorCode::InstructionFallbackNotFound,\n    ).into()\n}\n\n"@,
{
    let template = EXECUTABLE_PROGRAM@;
    let words = executable_words();
    lemma_executable_told_marks();
    let piece = template.subrange(1737, 2459);
    let told = filled(piece, parts);
    assert(piece.skip(0) =~= piece);
    let done0 = Seq::<char>::empty();
    assert(told =~= done0 + filled(piece.skip(0), parts));
    assert(piece.subrange(0, 528) =~= template.subrange(1737, 2265));
    lemma_filled_from(piece, 0, words[4], 'e', parts, done0, told);
    let done1 = words[4] + parts[4];
    assert(done0 + words[4] + parts[4] =~= done1);
    assert(piece.subrange(530, 612) =~= template.subrange(2267, 2349));
    lemma_filled_from(piece, 530, words[5], 'f', parts, done1, told);
    let done2 = done1 + words[5] + parts[5];
    assert(piece.subrange(614, 722) =~= template.subrange(2351, 2459));
    lemma_filled_last(piece, 614, words[6], parts, done2, told);
}

proof fn lemma_executable_told_2(parts: Seq<Seq<char>>)
    requires
        parts.len() == 11,
    ensures
        filled(EXECUTABLE_PROGRAM@.subrange(2459, 2543), parts) == "mod __handlers {\n    use super::*;\n    use anchor_lang::TryAccounts as _;\n    "@ + parts[6] + "\n}\n\n"@,
{
    let template = EXECUTABLE_PROGRAM@;
    let words = executable_words();
    lemma_executable_told_marks();
    let piece = template.subrange(2459, 2543);
    let told = filled(piece, parts);
    assert(piece.skip(0) =~= piece);
    let done0 = Seq::<char>::empty();
    assert(told =~= done0 + filled(piece.skip(0), parts));
    assert(piece.subrange(0, 78) =~= template.subrange(2459, 2537));
    lemma_filled_from(piece, 0, words[7], 'g', parts, done0, told);
    let done1 = words[7] + parts[6];
    assert(done0 + words[7] + parts[6] =~= done1);
    assert(piece.subrange(80, 84) =~= template.subrange(2539, 2543));
    lemma_filled_last(piece, 80, words[8], parts, done1, told);
}

proof fn lemma_executable_told_3(parts: Seq<Seq<char>>)
    requires
        parts.len() == 11,
    ensures
        filled(EXECUTABLE_PROGRAM@.subrange(2543, 2547), parts) == parts[7] + "\n\n"@,
{
    let template = EXECUTABLE_PROGRAM@;
    let words = executable_words();
    lemma_executable_told_marks();
    let piece = template.subrange(2543, 2547);
    let told = filled(piece, parts);
    assert(piece.skip(0) =~= piece);
    let done0 = Seq::<char>::empty();
    assert(told =~= done0 + filled(piece.skip(0), parts));
    assert(piece.subrange(0, 0) =~= Seq::<char>::empty());
    lemma_filled_from(piece, 0, Seq::<char>::empty(), 'h', parts, done0, told);
    let done1 = parts[7];
    assert(done0 + Seq::<char>::empty() + parts[7] =~= done1);
    assert(piece.subrange(2, 4) =~= template.subrange(2545, 2547));
    lemma_filled_last(piece, 2, words[9], parts, done1, told);
}

proof fn lemma_executable_told_4(parts: Seq<Seq<char>>)
    requires
        parts.len() == 11,
    ensures
        filled(EXECUTABLE_PROGRAM@.subrange(2547, 2992), parts) == "#[cfg(all(test, feature = \"idl-build\"))]\nmod __anchor_private_idl {\n    use super::*;\n\n    #[test]\n    fn __anchor_private_print_idl_address() {\n        println!(\"--- IDL begin address ---\");\n        let addr = crate::ID;\n        println!(\"{}\", anchor_lang::Address::from(addr));\n        println!(\"--- IDL end address ---\");\n    }\n\n    #[test]\n    fn __anchor_private_print_idl_program() {\n        let mut instructions = Vec::new();\n        "@ + parts[8] + "\n\n"@,
{
    let template = EXECUTABLE_PROGRAM@;
    let words = executable_words();
    lemma_executable_told_marks();
    let piece = template.subrange(2547, 2992);
    let told = filled(piece, parts);
    assert(piece.skip(0) =~= piece);
    let done0 = Seq::<char>::empty();
    assert(told =~= done0 + filled(piece.skip(0), parts));
    assert(piece.subrange(0, 441) =~= template.subrange(2547, 2988));
    lemma_filled_from(piece, 0, words[10], 'i', parts, done0, told);
    let done1 = words[10] + parts[8];
    assert(done0 + words[10] + parts[8] =~= done1);
    assert(piece.subrange(443, 445) =~= template.subrange(2990, 2992));
    lemma_filled_last(piece, 443, words[9], parts, done1, told);
}

proof fn lemma_executable_told_5(parts: Seq<Seq<char>>)
    requires
        parts.len() == 11,
    ensures
        filled(EXECUTABLE_PROGRAM@.subrange(2992, 3272), parts) == "        let mut accounts_entries: Vec<&'static str> = Vec::new();\n        let mut types_entries: Vec<&'static str> = Vec::new();\n        "@ + parts[9] + "\n        "@ + parts[10] + "\n        accounts_entries.sort();\n        accounts_entries.dedup();\n        types_entries.sort();\n        types_entries.dedup();\n\n"@,
{
    let template = EXECUTABLE_PROGRAM@;
    let words = executable_words();
    lemma_executable_told_marks();
    let piece = template.subrange(2992, 3272);
    let told = filled(piece, parts);
    assert(piece.skip(0) =~= piece);
    let done0 = Seq::<char>::empty();
    assert(told =~= done0 + filled(piece.skip(0), parts));
    assert(piece.subrange(0, 137) =~= template.subrange(2992, 3129));
    lemma_filled_from(piece, 0, words[11], 'j', parts, done0, told);
    let done1 = words[11] + parts[9];
    assert(done0 + words[11] + parts[9] =~= done1);
    assert(piece.subrange(139, 148) =~= template.subrange(3131, 3140));
    lemma_filled_from(piece, 139, words[12], 'k', parts, done1, told);
    let done2 = done1 + words[12] + parts[10];
    assert(piece.subrange(150, 280) =~= template.subrange(3142, 3272));
    lemma_filled_last(piece, 150, words[13], parts, done2, told);
}

proof fn lemma_executable_told_6(parts: Seq<Seq<char>>)
    requires
        parts.len() == 11,
    ensures
        filled(EXECUTABLE_PROGRAM@.subrange(3272, 4669), parts) == "        let crate_name = env!(\"CARGO_CRATE_NAME\").replace('-', \"_\");\n        let description = option_env!(\"CARGO_PKG_DESCRIPTION\")\n            .filter(|s| !s.is_empty());\n        let repository = option_env!(\"CARGO_PKG_REPOSITORY\")\n            .filter(|s| !s.is_empty());\n        let mut metadata_extras = anchor_lang::__alloc::string::String::new();\n        if let Some(d) = description {\n            let escaped = d.replace('\\\\', \"\\\\\\\\\").replace('\"', \"\\\\\\\"\");\n            metadata_extras.push_str(&anchor_lang::__alloc::format!(\n                \",\\\"description\\\":\\\"{}\\\"\",\n                escaped,\n            ));\n        }\n        if let Some(r) = repository {\n            let escaped = r.replace('\\\\', \"\\\\\\\\\").replace('\"', \"\\\\\\\"\");\n            metadata_extras.push_str(&anchor_lang::__alloc::format!(\n                \",\\\"repository\\\":\\\"{}\\\"\",\n                escaped,\n            ));\n        }\n        let idl = format!(\n            \"{{\\\"address\\\":\\\"\\\",\\\"metadata\\\":{{\\\"name\\\":\\\"{}\\\",\\\"version\\\":\\\"0.1.0\\\",\\\"spec\\\":\\\"0.1.0\\\"{}}},\\\"instructions\\\":[{}],\\\"accounts\\\":[{}],\\\"types\\\":[{}]}}\",\n            crate_name,\n            metadata_extras,\n            instructions.join(\",\"),\n            accounts_entries.join(\",\"),\n            types_entries.join(\",\"),\n        );\n        println!(\"--- IDL begin program ---\");\n        println!(\"{}\", idl);\n        println!(\"--- IDL end program ---\");\n    }\n}"@,
{
    let template = EXECUTABLE_PROGRAM@;
    let words = executable_words();
    lemma_executable_told_marks();
    let piece = template.subrange(3272, 4669);
    let told = filled(piece, parts);
    assert(piece.skip(0) =~= piece);
    let done0 = Seq::<char>::empty();
    assert(told =~= done0 + filled(piece.skip(0), parts));
    assert(piece.subrange(0, 1397) =~= template.subrange(3272, 4669));
    lemma_filled_last(piece, 0, words[14], parts, done0, told);
    assert(done0 + words[14] =~= words[14]);
}

/// The text of the template, with its holes filled.
pub proof fn lemma_executable_told(parts: Seq<Seq<char>>)
    requires
        parts.len() == 11,
    ensures
        tells(
            filled(EXECUTABLE_PROGRAM@, parts),
            seq![
                parts[0] + " mod "@ + parts[1] + " {\n    "@ + parts[2] + "\n    "@ + parts[3] + "\n}\n\n#[cfg(not(feature = \"no-entrypoint\"))]\nanchor_lang::pinocchio::default_allocator!();\n#[cfg(not(feature = \"no-entrypoint\"))]\nanchor_lang::pinocchio::default_panic_handler!();\n\n/// Matches Solana's transaction-wide account cap (u8 index space).\n/// The lookup array holds `[AccountView; 256]` = ~2 KiB of frame\n/// used for duplicate-account resolution during cursor walks.\nconst __ANCHOR_MAX_ACCOUNTS: usize = 256;\n\n/// Core dispatch: program-id check, discriminator parse, account\n/// cursor setup, handler dispatch. Exported as the `entrypoint`\n/// symbol unless `no-entrypoint` is active. Custom entrypoints\n/// can call this directly via its Rust path.\n///\n/// The BPF loader passes:\n///   r1 = MM_INPUT_START (first byte of the serialized parameter region)\n///   r2 = VM address of the instruction data bytes (SIMD-0321)\n///\n/// The `[r2 - 8 .. r2]` slot holds the `u64` ix_data length and the\n/// 32 bytes at `[r2 + len .. +32]` hold the program_id, per agave's\n/// aligned serialization layout (see `solana-program-runtime\n/// ::serialization::serialize_parameters_aligned`).\n#[cfg_attr(\n    all(target_os = \"solana\", not(feature = \"no-entrypoint\")),\n    export_name = \"entrypoint\"\n)]\n#[cfg_attr(all(target_os = \"solana\", feature = \"no-entrypoint\"), no_mangle)]\npub unsafe extern \"C\" fn __anchor_dispatch(\n    __input: *mut u8,\n    __ix_data_ptr: *const u8,\n) -> u64 {\n    let mut __lookup: [::core::mem::MaybeUninit<anchor_lang::AccountView>;\n        __ANCHOR_MAX_ACCOUNTS] =\n        [const { ::core::mem::MaybeUninit::uninit() }; __ANCHOR_MAX_ACCOUNTS];\n\n    __anchor_dispatch_internal(\n        __input,\n        __ix_data_ptr,\n        __lookup.as_mut_ptr() as *mut anchor_lang::AccountView,\n    )\n}\n\n"@,
                "#[inline(never)]\nunsafe fn __anchor_dispatch_internal(\n    __input: *mut u8,\n    __ix_data_ptr: *const u8,\n    __lookup: *mut anchor_lang::AccountView,\n) -> u64 {\n    let __ix_data_len = *(__ix_data_ptr.sub(8) as *const u64) as usize;\n    let __program_id: &anchor_lang::Address =\n        &*(__ix_data_ptr.add(__ix_data_len) as *const anchor_lang::Address);\n\n    if let Err(__e) = anchor_lang::check_program_id(__program_id, &crate::ID) {\n        return __e.into();\n    }\n\n    let __num = *(__input as *const u64) as usize;\n    "@ + parts[4] + "\n\n    let mut __cursor = anchor_lang::AccountCursor::new(__input, __lookup);\n\n    "@ + parts[5] + "\n    anchor_lang::Error::from(\n        anchor_lang::ErrorCode::InstructionFallbackNotFound,\n    ).into()\n}\n\n"@,
                "mod __handlers {\n    use super::*;\n    use anchor_lang::TryAccounts as _;\n    "@ + parts[6] + "\n}\n\n"@,
                parts[7] + "\n\n"@,
                "#[cfg(all(test, feature = \"idl-build\"))]\nmod __anchor_private_idl {\n    use super::*;\n\n    #[test]\n    fn __anchor_private_print_idl_address() {\n        println!(\"--- IDL begin address ---\");\n        let addr = crate::ID;\n        println!(\"{}\", anchor_lang::Address::from(addr));\n        println!(\"--- IDL end address ---\");\n    }\n\n    #[test]\n    fn __anchor_private_print_idl_program() {\n        let mut instructions = Vec::new();\n        "@ + parts[8] + "\n\n"@,
                "        let mut accounts_entries: Vec<&'static str> = Vec::new();\n        let mut types_entries: Vec<&'static str> = Vec::new();\n        "@ + parts[9] + "\n        "@ + parts[10] + "\n        accounts_entries.sort();\n        accounts_entries.dedup();\n        types_entries.sort();\n        types_entries.dedup();\n\n"@,
                "        let crate_name = env!(\"CARGO_CRATE_NAME\").replace('-', \"_\");\n        let description = option_env!(\"CARGO_PKG_DESCRIPTION\")\n            .filter(|s| !s.is_empty());\n        let repository = option_env!(\"CARGO_PKG_REPOSITORY\")\n            .filter(|s| !s.is_empty());\n        let mut metadata_extras = anchor_lang::__alloc::string::String::new();\n        if let Some(d) = description {\n            let escaped = d.replace('\\\\', \"\\\\\\\\\").replace('\"', \"\\\\\\\"\");\n            metadata_extras.push_str(&anchor_lang::__alloc::format!(\n                \",\\\"description\\\":\\\"{}\\\"\",\n                escaped,\n            ));\n        }\n        if let Some(r) = repository {\n            let escaped = r.replace('\\\\', \"\\\\\\\\\").replace('\"', \"\\\\\\\"\");\n            metadata_extras.push_str(&anchor_lang::__alloc::format!(\n                \",\\\"repository\\\":\\\"{}\\\"\",\n                escaped,\n            ));\n        }\n        let idl = format!(\n            \"{{\\\"address\\\":\\\"\\\",\\\"metadata\\\":{{\\\"name\\\":\\\"{}\\\",\\\"version\\\":\\\"0.1.0\\\",\\\"spec\\\":\\\"0.1.0\\\"{}}},\\\"instructions\\\":[{}],\\\"accounts\\\":[{}],\\\"types\\\":[{}]}}\",\n            crate_name,\n            metadata_extras,\n            instructions.join(\",\"),\n            accounts_entries.join(\",\"),\n            types_entries.join(\",\"),\n        );\n        println!(\"--- IDL begin program ---\");\n        println!(\"{}\", idl);\n        println!(\"--- IDL end program ---\");\n    }\n}"@,
            ],
        ),
{
    let template = EXECUTABLE_PROGRAM@;
    lemma_executable_told_marks();
    lemma_executable_told_0(parts);
    let piece0 = template.subrange(0, 1737);
    lemma_executable_told_1(parts);
    let piece1 = template.subrange(1737, 2459);
    lemma_executable_told_2(parts);
    let piece2 = template.subrange(2459, 2543);
    lemma_executable_told_3(parts);
    let piece3 = template.subrange(2543, 2547);
    lemma_executable_told_4(parts);
    let piece4 = template.subrange(2547, 2992);
    lemma_executable_told_5(parts);
    let piece5 = template.subrange(2992, 3272);
    lemma_executable_told_6(parts);
    let piece6 = template.subrange(3272, 4669);
    let at = seq![0int, 1737int, 2459int, 2543int, 2547int, 2992int, 3272int];
    let pieces = seq![piece0, piece1, piece2, piece3, piece4, piece5, piece6];
    assert(pieces_stand(template, at, pieces));
    lemma_filled_tells(template, parts, at, pieces);
    let told = pieces.map_values(|piece: Seq<char>| filled(piece, parts));
    assert(told =~= seq![told[0], told[1], told[2], told[3], told[4], told[5], told[6]]);
}

spec fn client_interface_words() -> Seq<Seq<char>> {
    seq!["/// Client-side instruction structs for off-chain use.\npub mod instruction {\n    extern crate alloc;\n    use super::*;\n    use anchor_lang::Discriminator as _;\n    "@, "\n}\n\n/// Client-side accounts structs (re-exports) for off-chain use.\npub mod accounts {\n    "@, "\n    "@, "\n}\n\n/// CPI module — gated on the `cpi` feature for normal programs and\n/// emitted unconditionally for interface modules.\n/// `accounts::*` re-exports the auto-generated CPI accounts structs\n/// (one per `#[derive(Accounts)]` Accounts struct, emitted as\n/// `__cpi_accounts_<lowercase>` at this same scope). The free\n/// functions wrap each instruction handler: pack args into the\n/// matching `instruction::<Camel>` struct, serialize, and dispatch\n/// through `CpiContext::invoke`.\n"@, "\npub mod cpi {\n    extern crate alloc;\n    use super::*;\n    use anchor_lang::InstructionData as _;\n\n    pub struct Return<T> {\n        program: anchor_lang::Address,\n        phantom: core::marker::PhantomData<T>,\n    }\n\n    impl<T> Return<T>\n    where\n        T: for<'de> anchor_lang::wincode::SchemaRead<\n            'de,\n            anchor_lang::BorshConfig,\n            Dst = T,\n        >,\n    {\n        pub fn get(&self) -> T {\n            let __return_data =\n                anchor_lang::pinocchio::cpi::get_return_data().unwrap();\n            assert!(\n                anchor_lang::address_eq(__return_data.program_id(), &self.program),\n                \"return data program id mismatch\"\n            );\n            anchor_lang::wincode::config::deserialize(\n                __return_data.as_slice(),\n                anchor_lang::BORSH_CONFIG,\n            )\n                .unwrap()\n        }\n    }\n\n    pub mod accounts {\n        "@, "\n    }\n\n    "@, "\n}"@]
}

proof fn lemma_client_interface_text_marks()
    ensures
        CLIENT_INTERFACE@.len() == 1707,
        stands_at(CLIENT_INTERFACE@, client_interface_words()[0], 0, 164),
        CLIENT_INTERFACE@[164] == '@' && CLIENT_INTERFACE@[165] == 'a',
        stands_at(CLIENT_INTERFACE@, client_interface_words()[1], 166, 92),
        CLIENT_INTERFACE@[258] == '@' && CLIENT_INTERFACE@[259] == 'b',
        stands_at(CLIENT_INTERFACE@, client_interface_words()[2], 260, 5),
        CLIENT_INTERFACE@[265] == '@' && CLIENT_INTERFACE@[266] == 'c',
        stands_at(CLIENT_INTERFACE@, client_interface_words()[3], 267, 484),
        CLIENT_INTERFACE@[751] == '@' && CLIENT_INTERFACE@[752] == 'd',
        stands_at(CLIENT_INTERFACE@, client_interface_words()[4], 753, 936),
        CLIENT_INTERFACE@[1689] == '@' && CLIENT_INTERFACE@[1690] == 'e',
        stands_at(CLIENT_INTERFACE@, client_interface_words()[5], 1691, 12),
        CLIENT_INTERFACE@[1703] == '@' && CLIENT_INTERFACE@[1704] == 'f',
        stands_at(CLIENT_INTERFACE@, client_interface_words()[6], 1705, 2),
{
    let template = CLIENT_INTERFACE@;
    let words = client_interface_words();
    reveal_strlit("/// Client-side instruction structs for off-chain use.\npub mod instruction {\n    extern crate alloc;\n    use super::*;\n    use anchor_lang::Discriminator as _;\n    @a\n}\n\n/// Client-side accounts structs (re-exports) for off-chain use.\npub mod accounts {\n    @b\n    @c\n}\n\n/// CPI module — gated on the `cpi` feature for normal programs and\n/// emitted unconditionally for interface modules.\n/// `accounts::*` re-exports the auto-generated CPI accounts structs\n/// (one per `#[derive(Accounts)]` Accounts struct, emitted as\n/// `__cpi_accounts_<lowercase>` at this same scope). The free\n/// functions wrap each instruction handler: pack args into the\n/// matching `instruction::<Camel>` struct, serialize, and dispatch\n/// through `CpiContext::invoke`.\n@d\npub mod cpi {\n    extern crate alloc;\n    use super::*;\n    use anchor_lang::InstructionData as _;\n\n    pub struct Return<T> {\n        program: anchor_lang::Address,\n        phantom: core::marker::PhantomData<T>,\n    }\n\n    impl<T> Return<T>\n    where\n        T: for<'de> anchor_lang::wincode::SchemaRead<\n            'de,\n            anchor_lang::BorshConfig,\n            Dst = T,\n        >,\n    {\n        pub fn get(&self) -> T {\n            let __return_data =\n                anchor_lang::pinocchio::cpi::get_return_data().unwrap();\n            assert!(\n                anchor_lang::address_eq(__return_data.program_id(), &self.program),\n                \"return data program id mismatch\"\n            );\n            anchor_lang::wincode::config::deserialize(\n                __return_data.as_slice(),\n                anchor_lang::BORSH_CONFIG,\n            )\n                .unwrap()\n        }\n    }\n\n    pub mod accounts {\n        @e\n    }\n\n    @f\n}");
    assert(stands_at(template, words[0], 0, 164)) by {
        reveal_strlit("/// Client-side instruction structs for off-chain use.\npub mod instruction {\n    extern crate alloc;\n    use super::*;\n    use anchor_lang::Discriminator as _;\n    ");
        assert(template.subrange(0, 164) =~= words[0]);
    }
    assert(stands_at(template, words[1], 166, 92)) by {
        reveal_strlit("\n}\n\n/// Client-side accounts structs (re-exports) for off-chain use.\npub mod accounts {\n    ");
        assert(template.subrange(166, 258) =~= words[1]);
    }
    assert(stands_at(template, words[2], 260, 5)) by {
        reveal_strlit("\n    ");
        assert(template.subrange(260, 265) =~= words[2]);
    }
    assert(stands_at(template, words[3], 267, 484)) by {
        reveal_strlit("\n}\n\n/// CPI module — gated on the `cpi` feature for normal programs and\n/// emitted unconditionally for interface modules.\n/// `accounts::*` re-exports the auto-generated CPI accounts structs\n/// (one per `#[derive(Accounts)]` Accounts struct, emitted as\n/// `__cpi_accounts_<lowercase>` at this same scope). The free\n/// functions wrap each instruction handler: pack args into the\n/// matching `instruction::<Camel>` struct, serialize, and dispatch\n/// through `CpiContext::invoke`.\n");
        assert(template.subrange(267, 751) =~= words[3]);
    }
    assert(stands_at(template, words[4], 753, 936)) by {
        reveal_strlit("\npub mod cpi {\n    extern crate alloc;\n    use super::*;\n    use anchor_lang::InstructionData as _;\n\n    pub struct Return<T> {\n        program: anchor_lang::Address,\n        phantom: core::marker::PhantomData<T>,\n    }\n\n    impl<T> Return<T>\n    where\n        T: for<'de> anchor_lang::wincode::SchemaRead<\n            'de,\n            anchor_lang::BorshConfig,\n            Dst = T,\n        >,\n    {\n        pub fn get(&self) -> T {\n            let __return_data =\n                anchor_lang::pinocchio::cpi::get_return_data().unwrap();\n            assert!(\n                anchor_lang::address_eq(__return_data.program_id(), &self.program),\n                \"return data program id mismatch\"\n            );\n            anchor_lang::wincode::config::deserialize(\n                __return_data.as_slice(),\n                anchor_lang::BORSH_CONFIG,\n            )\n                .unwrap()\n        }\n    }\n\n    pub mod accounts {\n        ");
        assert(template.subrange(753, 1689) =~= words[4]);
    }
    assert(stands_at(template, words[5], 1691, 12)) by {
        reveal_strlit("\n    }\n\n    ");
        assert(template.subrange(1691, 1703) =~= words[5]);
    }
    assert(stands_at(template, words[6], 1705, 2)) by {
        reveal_strlit("\n}");
        assert(template.subrange(1705, 1707) =~= words[6]);
    }
}

/// The text of the template, with its holes filled.
pub proof fn lemma_client_interface_text(parts: Seq<Seq<char>>)
    requires
        parts.len() == 6,
    ensures
        filled(CLIENT_INTERFACE@, parts) == "/// Client-side instruction structs for off-chain use.\npub mod instruction {\n    extern crate alloc;\n    use super::*;\n    use anchor_lang::Discriminator as _;\n    "@ + parts[0] + "\n}\n\n/// Client-side accounts structs (re-exports) for off-chain use.\npub mod accounts {\n    "@ + parts[1] + "\n    "@ + parts[2] + "\n}\n\n/// CPI module — gated on the `cpi` feature for normal programs and\n/// emitted unconditionally for interface modules.\n/// `accounts::*` re-exports the auto-generated CPI accounts structs\n/// (one per `#[derive(Accounts)]` Accounts struct, emitted as\n/// `__cpi_accounts_<lowercase>` at this same scope). The free\n/// functions wrap each instruction handler: pack args into the\n/// matching `instruction::<Camel>` struct, serialize, and dispatch\n/// through `CpiContext::invoke`.\n"@ + parts[3] + "\npub mod cpi {\n    extern crate alloc;\n    use super::*;\n    use anchor_lang::InstructionData as _;\n\n    pub struct Return<T> {\n        program: anchor_lang::Address,\n        phantom: core::marker::PhantomData<T>,\n    }\n\n    impl<T> Return<T>\n    where\n        T: for<'de> anchor_lang::wincode::SchemaRead<\n            'de,\n            anchor_lang::BorshConfig,\n            Dst = T,\n        >,\n    {\n        pub fn get(&self) -> T {\n            let __return_data =\n                anchor_lang::pinocchio::cpi::get_return_data().unwrap();\n            assert!(\n                anchor_lang::address_eq(__return_data.program_id(), &self.program),\n                \"return data program id mismatch\"\n            );\n            anchor_lang::wincode::config::deserialize(\n                __return_data.as_slice(),\n                anchor_lang::BORSH_CONFIG,\n            )\n                .unwrap()\n        }\n    }\n\n    pub mod accounts {\n        "@ + parts[4] + "\n    }\n\n    "@ + parts[5] + "\n}"@,
{
    let template = CLIENT_INTERFACE@;
    let words = client_interface_words();
    lemma_client_interface_text_marks();
    let told = filled(template, parts);
    assert(template.skip(0) =~= template);
    let done0 = Seq::<char>::empty();
    assert(told =~= done0 + filled(template.skip(0), parts));
    lemma_filled_from(template, 0, words[0], 'a', parts, done0, told);
    let done1 = words[0] + parts[0];
    assert(done0 + words[0] + parts[0] =~= done1);
    lemma_filled_from(template, 166, words[1], 'b', parts, done1, told);
    let done2 = done1 + words[1] + parts[1];
    lemma_filled_from(template, 260, words[2], 'c', parts, done2, told);
    let done3 = done2 + words[2] + parts[2];
    lemma_filled_from(template, 267, words[3], 'd', parts, done3, told);
    let done4 = done3 + words[3] + parts[3];
    lemma_filled_from(template, 753, words[4], 'e', parts, done4, told);
    let done5 = done4 + words[4] + parts[4];
    lemma_filled_from(template, 1691, words[5], 'f', parts, done5, told);
    let done6 = done5 + words[5] + parts[5];
    lemma_filled_last(template, 1705, words[6], parts, done6, told);
}

spec fn interface_program_words() -> Seq<Seq<char>> {
    seq![" mod "@, " {\n    "@, "\n    "@, "\n}\n\n"@]
}

proof fn lemma_interface_program_text_marks()
    ensures
        INTERFACE_PROGRAM@.len() == 31,
        INTERFACE_PROGRAM@[0] == '@' && INTERFACE_PROGRAM@[1] == 'a',
        stands_at(INTERFACE_PROGRAM@, interface_program_words()[0], 2, 5),
        INTERFACE_PROGRAM@[7] == '@' && INTERFACE_PROGRAM@[8] == 'b',
        stands_at(INTERFACE_PROGRAM@, interface_program_words()[1], 9, 7),
        INTERFACE_PROGRAM@[16] == '@' && INTERFACE_PROGRAM@[17] == 'c',
        stands_at(INTERFACE_PROGRAM@, interface_program_words()[2], 18, 5),
        INTERFACE_PROGRAM@[23] == '@' && INTERFACE_PROGRAM@[24] == 'd',
        stands_at(INTERFACE_PROGRAM@, interface_program_words()[3], 25, 4),
        INTERFACE_PROGRAM@[29] == '@' && INTERFACE_PROGRAM@[30] == 'e',
{
    let template = INTERFACE_PROGRAM@;
    let words = interface_program_words();
    reveal_strlit("@a mod @b {\n    @c\n    @d\n}\n\n@e");
    assert(stands_at(template, words[0], 2, 5)) by {
        reveal_strlit(" mod ");
        assert(template.subrange(2, 7) =~= words[0]);
    }
    assert(stands_at(template, words[1], 9, 7)) by {
        reveal_strlit(" {\n    ");
        assert(template.subrange(9, 16) =~= words[1]);
    }
    assert(stands_at(template, words[2], 18, 5)) by {
        reveal_strlit("\n    ");
        assert(template.subrange(18, 23) =~= words[2]);
    }
    assert(stands_at(template, words[3], 25, 4)) by {
        reveal_strlit("\n}\n\n");
        assert(template.subrange(25, 29) =~= words[3]);
    }
}

/// The text of the template, with its holes filled.
pub proof fn lemma_interface_program_text(parts: Seq<Seq<char>>)
    requires
        parts.len() == 5,
    ensures
        filled(INTERFACE_PROGRAM@, parts) == parts[0] + " mod "@ + parts[1] + " {\n    "@ + parts[2] + "\n    "@ + parts[3] + "\n}\n\n"@ + parts[4],
{
    let template = INTERFACE_PROGRAM@;
    let words = interface_program_words();
    lemma_interface_program_text_marks();
    let told = filled(template, parts);
    assert(template.skip(0) =~= template);
    let done0 = Seq::<char>::empty();
    assert(told =~= done0 + filled(template.skip(0), parts));
    assert(template.subrange(0, 0) =~= Seq::<char>::empty());
    lemma_filled_from(template, 0, Seq::<char>::empty(), 'a', parts, done0, told);
    let done1 = parts[0];
    assert(done0 + Seq::<char>::empty() + parts[0] =~= done1);
    lemma_filled_from(template, 2, words[0], 'b', parts, done1, told);
    let done2 = done1 + words[0] + parts[1];
    lemma_filled_from(template, 9, words[1], 'c', parts, done2, told);
    let done3 = done2 + words[1] + parts[2];
    lemma_filled_from(template, 18, words[2], 'd', parts, done3, told);
    let done4 = done3 + words[2] + parts[3];
    lemma_filled_from(template, 25, words[3], 'e', parts, done4, told);
    let done5 = done4 + words[3] + parts[4];
    assert(template.skip(31) =~= Seq::<char>::empty());
    assert(told =~= done5);
}

spec fn event_cpi_dispatch_words() -> Seq<Seq<char>> {
    seq!["if __ix_data_len >= 8 {\n    let __event_disc: u64 = u64::from_le_bytes(\n        *(__ix_data_ptr as *const [u8; 8])\n    );\n    if __event_disc == anchor_lang::event::EVENT_IX_TAG {\n        if __num < 1 {\n            return anchor_lang::Error::from(\n                anchor_lang::ErrorCode::AccountNotEnoughKeys,\n            ).into();\n        }\n        let mut __cursor = anchor_lang::AccountCursor::new(__input, __lookup);\n        let __event_authority = __cursor.next();\n        if !__event_authority.is_signer() {\n            return anchor_lang::Error::from(\n                anchor_lang::ErrorCode::ConstraintSigner,\n            ).into();\n        }\n        "@, "\n        return 0;\n    }\n}"@]
}

proof fn lemma_event_cpi_dispatch_text_marks()
    ensures
        EVENT_CPI_DISPATCH@.len() == 685,
        stands_at(EVENT_CPI_DISPATCH@, event_cpi_dispatch_words()[0], 0, 657),
        EVENT_CPI_DISPATCH@[657] == '@' && EVENT_CPI_DISPATCH@[658] == 'a',
        stands_at(EVENT_CPI_DISPATCH@, event_cpi_dispatch_words()[1], 659, 26),
{
    let template = EVENT_CPI_DISPATCH@;
    let words = event_cpi_dispatch_words();
    reveal_strlit("if __ix_data_len >= 8 {\n    let __event_disc: u64 = u64::from_le_bytes(\n        *(__ix_data_ptr as *const [u8; 8])\n    );\n    if __event_disc == anchor_lang::event::EVENT_IX_TAG {\n        if __num < 1 {\n            return anchor_lang::Error::from(\n                anchor_lang::ErrorCode::AccountNotEnoughKeys,\n            ).into();\n        }\n        let mut __cursor = anchor_lang::AccountCursor::new(__input, __lookup);\n        let __event_authority = __cursor.next();\n        if !__event_authority.is_signer() {\n            return anchor_lang::Error::from(\n                anchor_lang::ErrorCode::ConstraintSigner,\n            ).into();\n        }\n        @a\n        return 0;\n    }\n}");
    assert(stands_at(template, words[0], 0, 657)) by {
        reveal_strlit("if __ix_data_len >= 8 {\n    let __event_disc: u64 = u64::from_le_bytes(\n        *(__ix_data_ptr as *const [u8; 8])\n    );\n    if __event_disc == anchor_lang::event::EVENT_IX_TAG {\n        if __num < 1 {\n            return anchor_lang::Error::from(\n                anchor_lang::ErrorCode::AccountNotEnoughKeys,\n            ).into();\n        }\n        let mut __cursor = anchor_lang::AccountCursor::new(__input, __lookup);\n        let __event_authority = __cursor.next();\n        if !__event_authority.is_signer() {\n            return anchor_lang::Error::from(\n                anchor_lang::ErrorCode::ConstraintSigner,\n            ).into();\n        }\n        ");
        assert(template.subrange(0, 657) =~= words[0]);
    }
    assert(stands_at(template, words[1], 659, 26)) by {
        reveal_strlit("\n        return 0;\n    }\n}");
        assert(template.subrange(659, 685) =~= words[1]);
    }
}

/// The text of the template, with its holes filled.
pub proof fn lemma_event_cpi_dispatch_text(parts: Seq<Seq<char>>)
    requires
        parts.len() == 1,
    ensures
        filled(EVENT_CPI_DISPATCH@, parts) == "if __ix_data_len >= 8 {\n    let __event_disc: u64 = u64::from_le_bytes(\n        *(__ix_data_ptr as *const [u8; 8])\n    );\n    if __event_disc == anchor_lang::event::EVENT_IX_TAG {\n        if __num < 1 {\n            return anchor_lang::Error::from(\n                anchor_lang::ErrorCode::AccountNotEnoughKeys,\n            ).into();\n        }\n        let mut __cursor = anchor_lang::AccountCursor::new(__input, __lookup);\n        let __event_authority = __cursor.next();\n        if !__event_authority.is_signer() {\n            return anchor_lang::Error::from(\n                anchor_lang::ErrorCode::ConstraintSigner,\n            ).into();\n        }\n        "@ + parts[0] + "\n        return 0;\n    }\n}"@,
{
    let template = EVENT_CPI_DISPATCH@;
    let words = event_cpi_dispatch_words();
    lemma_event_cpi_dispatch_text_marks();
    let told = filled(template, parts);
    assert(template.skip(0) =~= template);
    let done0 = Seq::<char>::empty();
    assert(told =~= done0 + filled(template.skip(0), parts));
    lemma_filled_from(template, 0, words[0], 'a', parts, done0, told);
    let done1 = words[0] + parts[0];
    assert(done0 + words[0] + parts[0] =~= done1);
    lemma_filled_last(template, 659, words[1], parts, done1, told);
}

spec fn known_authority_check_words() -> Seq<Seq<char>> {
    seq!["const __EXPECTED_EVENT_AUTHORITY: anchor_lang::Address =\n    anchor_lang::Address::new_from_array(["@, "]);\nif !anchor_lang::address_eq(\n    __event_authority.address(),\n    &__EXPECTED_EVENT_AUTHORITY,\n) {\n    return anchor_lang::Error::from(\n        anchor_lang::ErrorCode::ConstraintSeeds,\n    ).into();\n}"@]
}

proof fn lemma_known_authority_check_text_marks()
    ensures
        KNOWN_AUTHORITY_CHECK@.len() == 305,
        stands_at(KNOWN_AUTHORITY_CHECK@, known_authority_check_words()[0], 0, 99),
        KNOWN_AUTHORITY_CHECK@[99] == '@' && KNOWN_AUTHORITY_CHECK@[100] == 'a',
        stands_at(KNOWN_AUTHORITY_CHECK@, known_authority_check_words()[1], 101, 204),
{
    let template = KNOWN_AUTHORITY_CHECK@;
    let words = known_authority_check_words();
    reveal_strlit("const __EXPECTED_EVENT_AUTHORITY: anchor_lang::Address =\n    anchor_lang::Address::new_from_array([@a]);\nif !anchor_lang::address_eq(\n    __event_authority.address(),\n    &__EXPECTED_EVENT_AUTHORITY,\n) {\n    return anchor_lang::Error::from(\n        anchor_lang::ErrorCode::ConstraintSeeds,\n    ).into();\n}");
    assert(stands_at(template, words[0], 0, 99)) by {
        reveal_strlit("const __EXPECTED_EVENT_AUTHORITY: anchor_lang::Address =\n    anchor_lang::Address::new_from_array([");
        assert(template.subrange(0, 99) =~= words[0]);
    }
    assert(stands_at(template, words[1], 101, 204)) by {
        reveal_strlit("]);\nif !anchor_lang::address_eq(\n    __event_authority.address(),\n    &__EXPECTED_EVENT_AUTHORITY,\n) {\n    return anchor_lang::Error::from(\n        anchor_lang::ErrorCode::ConstraintSeeds,\n    ).into();\n}");
        assert(template.subrange(101, 305) =~= words[1]);
    }
}

/// The text of the template, with its holes filled.
pub proof fn lemma_known_authority_check_text(parts: Seq<Seq<char>>)
    requires
        parts.len() == 1,
    ensures
        filled(KNOWN_AUTHORITY_CHECK@, parts) == "const __EXPECTED_EVENT_AUTHORITY: anchor_lang::Address =\n    anchor_lang::Address::new_from_array(["@ + parts[0] + "]);\nif !anchor_lang::address_eq(\n    __event_authority.address(),\n    &__EXPECTED_EVENT_AUTHORITY,\n) {\n    return anchor_lang::Error::from(\n        anchor_lang::ErrorCode::ConstraintSeeds,\n    ).into();\n}"@,
{
    let template = KNOWN_AUTHORITY_CHECK@;
    let words = known_authority_check_words();
    lemma_known_authority_check_text_marks();
    let told = filled(template, parts);
    assert(template.skip(0) =~= template);
    let done0 = Seq::<char>::empty();
    assert(told =~= done0 + filled(template.skip(0), parts));
    lemma_filled_from(template, 0, words[0], 'a', parts, done0, told);
    let done1 = words[0] + parts[0];
    assert(done0 + words[0] + parts[0] =~= done1);
    lemma_filled_last(template, 101, words[1], parts, done1, told);
}

spec fn idl_entry_words() -> Seq<Seq<char>> {
    seq!["\ninstructions.push(\n    format!(\n        \"{{\\\"name\\\":\\\"{}\\\"{},\\\"discriminator\\\":{},\\\"accounts\\\":{},\\\"args\\\":{}{} }}\",\n        "@, ",\n        "@, "::__idl_accounts(),\n        "@, ",\n    )\n);"@]
}

proof fn lemma_idl_entry_text_marks()
    ensures
        IDL_ENTRY@.len() == 218,
        IDL_ENTRY@[0] == '@' && IDL_ENTRY@[1] == 'a',
        stands_at(IDL_ENTRY@, idl_entry_words()[0], 2, 126),
        IDL_ENTRY@[128] == '@' && IDL_ENTRY@[129] == 'b',
        stands_at(IDL_ENTRY@, idl_entry_words()[1], 130, 10),
        IDL_ENTRY@[140] == '@' && IDL_ENTRY@[141] == 'c',
        stands_at(IDL_ENTRY@, idl_entry_words()[1], 142, 10),
        IDL_ENTRY@[152] == '@' && IDL_ENTRY@[153] == 'd',
        stands_at(IDL_ENTRY@, idl_entry_words()[1], 154, 10),
        IDL_ENTRY@[164] == '@' && IDL_ENTRY@[165] == 'e',
        stands_at(IDL_ENTRY@, idl_entry_words()[2], 166, 28),
        IDL_ENTRY@[194] == '@' && IDL_ENTRY@[195] == 'f',
        stands_at(IDL_ENTRY@, idl_entry_words()[1], 196, 10),
        IDL_ENTRY@[206] == '@' && IDL_ENTRY@[207] == 'g',
        stands_at(IDL_ENTRY@, idl_entry_words()[3], 208, 10),
{
    let template = IDL_ENTRY@;
    let words = idl_entry_words();
    reveal_strlit("@a\ninstructions.push(\n    format!(\n        \"{{\\\"name\\\":\\\"{}\\\"{},\\\"discriminator\\\":{},\\\"accounts\\\":{},\\\"args\\\":{}{} }}\",\n        @b,\n        @c,\n        @d,\n        @e::__idl_accounts(),\n        @f,\n        @g,\n    )\n);");
    assert(stands_at(template, words[0], 2, 126)) by {
        reveal_strlit("\ninstructions.push(\n    format!(\n        \"{{\\\"name\\\":\\\"{}\\\"{},\\\"discriminator\\\":{},\\\"accounts\\\":{},\\\"args\\\":{}{} }}\",\n        ");
        assert(template.subrange(2, 128) =~= words[0]);
    }
    assert(stands_at(template, words[1], 130, 10)) by {
        reveal_strlit(",\n        ");
        assert(template.subrange(130, 140) =~= words[1]);
    }
    assert(stands_at(template, words[1], 142, 10)) by {
        reveal_strlit(",\n        ");
        assert(template.subrange(142, 152) =~= words[1]);
    }
    assert(stands_at(template, words[1], 154, 10)) by {
        reveal_strlit(",\n        ");
        assert(template.subrange(154, 164) =~= words[1]);
    }
    assert(stands_at(template, words[2], 166, 28)) by {
        reveal_strlit("::__idl_accounts(),\n        ");
        assert(template.subrange(166, 194) =~= words[2]);
    }
    assert(stands_at(template, words[1], 196, 10)) by {
        reveal_strlit(",\n        ");
        assert(template.subrange(196, 206) =~= words[1]);
    }
    assert(stands_at(template, words[3], 208, 10)) by {
        reveal_strlit(",\n    )\n);");
        assert(template.subrange(208, 218) =~= words[3]);
    }
}

/// The text of the template, with its holes filled.
pub proof fn lemma_idl_entry_text(parts: Seq<Seq<char>>)
    requires
        parts.len() == 7,
    ensures
        filled(IDL_ENTRY@, parts) == parts[0] + "\ninstructions.push(\n    format!(\n        \"{{\\\"name\\\":\\\"{}\\\"{},\\\"discriminator\\\":{},\\\"accounts\\\":{},\\\"args\\\":{}{} }}\",\n        "@ + parts[1] + ",\n        "@ + parts[2] + ",\n        "@ + parts[3] + ",\n        "@ + parts[4] + "::__idl_accounts(),\n        "@ + parts[5] + ",\n        "@ + parts[6] + ",\n    )\n);"@,
{
    let template = IDL_ENTRY@;
    let words = idl_entry_words();
    lemma_idl_entry_text_marks();
    let told = filled(template, parts);
    assert(template.skip(0) =~= template);
    let done0 = Seq::<char>::empty();
    assert(told =~= done0 + filled(template.skip(0), parts));
    assert(template.subrange(0, 0) =~= Seq::<char>::empty());
    lemma_filled_from(template, 0, Seq::<char>::empty(), 'a', parts, done0, told);
    let done1 = parts[0];
    assert(done0 + Seq::<char>::empty() + parts[0] =~= done1);
    lemma_filled_from(template, 2, words[0], 'b', parts, done1, told);
    let done2 = done1 + words[0] + parts[1];
    lemma_filled_from(template, 130, words[1], 'c', parts, done2, told);
    let done3 = done2 + words[1] + parts[2];
    lemma_filled_from(template, 142, words[1], 'd', parts, done3, told);
    let done4 = done3 + words[1] + parts[3];
    lemma_filled_from(template, 154, words[1], 'e', parts, done4, told);
    let done5 = done4 + words[1] + parts[4];
    lemma_filled_from(template, 166, words[2], 'f', parts, done5, told);
    let done6 = done5 + words[2] + parts[5];
    lemma_filled_from(template, 196, words[1], 'g', parts, done6, told);
    let done7 = done6 + words[1] + parts[6];
    lemma_filled_last(template, 208, words[3], parts, done7, told);
}

spec fn idl_accounts_words() -> Seq<Seq<char>> {
    seq!["\n"@, "::__idl_register_deps(\n    &mut accounts_entries,\n    &mut types_entries,\n);"@]
}

proof fn lemma_idl_accounts_text_marks()
    ensures
        IDL_ACCOUNTS@.len() == 81,
        IDL_ACCOUNTS@[0] == '@' && IDL_ACCOUNTS@[1] == 'a',
        stands_at(IDL_ACCOUNTS@, idl_accounts_words()[0], 2, 1),
        IDL_ACCOUNTS@[3] == '@' && IDL_ACCOUNTS@[4] == 'b',
        stands_at(IDL_ACCOUNTS@, idl_accounts_words()[1], 5, 76),
{
    let template = IDL_ACCOUNTS@;
    let words = idl_accounts_words();
    reveal_strlit("@a\n@b::__idl_register_deps(\n    &mut accounts_entries,\n    &mut types_entries,\n);");
    assert(stands_at(template, words[0], 2, 1)) by {
        reveal_strlit("\n");
        assert(template.subrange(2, 3) =~= words[0]);
    }
    assert(stands_at(template, words[1], 5, 76)) by {
        reveal_strlit("::__idl_register_deps(\n    &mut accounts_entries,\n    &mut types_entries,\n);");
        assert(template.subrange(5, 81) =~= words[1]);
    }
}

/// The text of the template, with its holes filled.
pub proof fn lemma_idl_accounts_text(parts: Seq<Seq<char>>)
    requires
        parts.len() == 2,
    ensures
        filled(IDL_ACCOUNTS@, parts) == parts[0] + "\n"@ + parts[1] + "::__idl_register_deps(\n    &mut accounts_entries,\n    &mut types_entries,\n);"@,
{
    let template = IDL_ACCOUNTS@;
    let words = idl_accounts_words();
    lemma_idl_accounts_text_marks();
    let told = filled(template, parts);
    assert(template.skip(0) =~= template);
    let done0 = Seq::<char>::empty();
    assert(told =~= done0 + filled(template.skip(0), parts));
    assert(template.subrange(0, 0) =~= Seq::<char>::empty());
    lemma_filled_from(template, 0, Seq::<char>::empty(), 'a', parts, done0, told);
    let done1 = parts[0];
    assert(done0 + Seq::<char>::empty() + parts[0] =~= done1);
    lemma_filled_from(template, 2, words[0], 'b', parts, done1, told);
    let done2 = done1 + words[0] + parts[1];
    lemma_filled_last(template, 5, words[1], parts, done2, told);
}

spec fn idl_type_words() -> Seq<Seq<char>> {
    seq!["<"@, " as anchor_lang::IdlAccountType>::__register_idl_deps(\n    &mut accounts_entries,\n    &mut types_entries,\n);"@]
}

proof fn lemma_idl_type_text_marks()
    ensures
        IDL_TYPE@.len() == 111,
        stands_at(IDL_TYPE@, idl_type_words()[0], 0, 1),
        IDL_TYPE@[1] == '@' && IDL_TYPE@[2] == 'a',
        stands_at(IDL_TYPE@, idl_type_words()[1], 3, 108),
{
    let template = IDL_TYPE@;
    let words = idl_type_words();
    reveal_strlit("<@a as anchor_lang::IdlAccountType>::__register_idl_deps(\n    &mut accounts_entries,\n    &mut types_entries,\n);");
    assert(stands_at(template, words[0], 0, 1)) by {
        reveal_strlit("<");
        assert(template.subrange(0, 1) =~= words[0]);
    }
    assert(stands_at(template, words[1], 3, 108)) by {
        reveal_strlit(" as anchor_lang::IdlAccountType>::__register_idl_deps(\n    &mut accounts_entries,\n    &mut types_entries,\n);");
        assert(template.subrange(3, 111) =~= words[1]);
    }
}

/// The text of the template, with its holes filled.
pub proof fn lemma_idl_type_text(parts: Seq<Seq<char>>)
    requires
        parts.len() == 1,
    ensures
        filled(IDL_TYPE@, parts) == "<"@ + parts[0] + " as anchor_lang::IdlAccountType>::__register_idl_deps(\n    &mut accounts_entries,\n    &mut types_entries,\n);"@,
{
    let template = IDL_TYPE@;
    let words = idl_type_words();
    lemma_idl_type_text_marks();
    let told = filled(template, parts);
    assert(template.skip(0) =~= template);
    let done0 = Seq::<char>::empty();
    assert(told =~= done0 + filled(template.skip(0), parts));
    lemma_filled_from(template, 0, words[0], 'a', parts, done0, told);
    let done1 = words[0] + parts[0];
    assert(done0 + words[0] + parts[0] =~= done1);
    lemma_filled_last(template, 3, words[1], parts, done1, told);
}

spec fn idl_types_words() -> Seq<Seq<char>> {
    seq!["\n{\n    "@, "\n    "@, "\n}"@]
}

proof fn lemma_idl_types_text_marks()
    ensures
        IDL_TYPES@.len() == 20,
        IDL_TYPES@[0] == '@' && IDL_TYPES@[1] == 'a',
        stands_at(IDL_TYPES@, idl_types_words()[0], 2, 7),
        IDL_TYPES@[9] == '@' && IDL_TYPES@[10] == 'b',
        stands_at(IDL_TYPES@, idl_types_words()[1], 11, 5),
        IDL_TYPES@[16] == '@' && IDL_TYPES@[17] == 'c',
        stands_at(IDL_TYPES@, idl_types_words()[2], 18, 2),
{
    let template = IDL_TYPES@;
    let words = idl_types_words();
    reveal_strlit("@a\n{\n    @b\n    @c\n}");
    assert(stands_at(template, words[0], 2, 7)) by {
        reveal_strlit("\n{\n    ");
        assert(template.subrange(2, 9) =~= words[0]);
    }
    assert(stands_at(template, words[1], 11, 5)) by {
        reveal_strlit("\n    ");
        assert(template.subrange(11, 16) =~= words[1]);
    }
    assert(stands_at(template, words[2], 18, 2)) by {
        reveal_strlit("\n}");
        assert(template.subrange(18, 20) =~= words[2]);
    }
}

/// The text of the template, with its holes filled.
pub proof fn lemma_idl_types_text(parts: Seq<Seq<char>>)
    requires
        parts.len() == 3,
    ensures
        filled(IDL_TYPES@, parts) == parts[0] + "\n{\n    "@ + parts[1] + "\n    "@ + parts[2] + "\n}"@,
{
    let template = IDL_TYPES@;
    let words = idl_types_words();
    lemma_idl_types_text_marks();
    let told = filled(template, parts);
    assert(template.skip(0) =~= template);
    let done0 = Seq::<char>::empty();
    assert(told =~= done0 + filled(template.skip(0), parts));
    assert(template.subrange(0, 0) =~= Seq::<char>::empty());
    lemma_filled_from(template, 0, Seq::<char>::empty(), 'a', parts, done0, told);
    let done1 = parts[0];
    assert(done0 + Seq::<char>::empty() + parts[0] =~= done1);
    lemma_filled_from(template, 2, words[0], 'b', parts, done1, told);
    let done2 = done1 + words[0] + parts[1];
    lemma_filled_from(template, 11, words[1], 'c', parts, done2, told);
    let done3 = done2 + words[1] + parts[2];
    lemma_filled_last(template, 18, words[2], parts, done3, told);
}

} // verus!
