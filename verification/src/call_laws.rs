//! What the code for the accounts of a call says of each field.

use crate::attrs::{Attribute, Meta};
use crate::cpi_accounts::{
    cpi_accounts_code, cpi_impl, field_accounts, field_reading, flag_step, handle_step, is_named,
    lemma_one_lifetime, meta_step, option_of, phantom_lifetime, scanned, CpiFieldKind, CpiFieldView,
    FLAG_NESTED, FLAG_OPTIONAL, HANDLE_NESTED, HANDLE_OPTIONAL_READONLY, HANDLE_OPTIONAL_WRITABLE,
    HANDLE_READONLY, HANDLE_WRITABLE, META_DIRECT, META_NESTED, META_OPTIONAL, TO_CPI_ACCOUNTS,
};
use crate::field_attrs::{field_metas, first_program_id, nested_attr, only_signer, signer_in};
use crate::items::{field_name, DeriveInput, Field};
use crate::outside::expr_reading;
use crate::passages::{
    in_hole, lemma_filled_from, lemma_filled_hole, lemma_filled_last, lemma_filled_plain,
    lemma_filled_tells, pieces_stand, tells,
};
use crate::reading::source_text;
use crate::run_time::{accounts_of, accounts_of_all, lemma_scanned_accounts};
use crate::syntax::lifetime_text;
use crate::template::{filled, says_at};
use crate::text::{concat_all, flag};
use vstd::prelude::*;

verus! {

// ---------------------------------------------------------------------------
// What a field says of itself
// ---------------------------------------------------------------------------

/// The first attribute of the given name.
pub open spec fn first_mark(attrs: Seq<Attribute>, name: Seq<char>) -> Option<Attribute>
    decreases attrs.len(),
{
    if attrs.len() == 0 {
        None
    } else if attrs[0].path@ == name {
        Some(attrs[0])
    } else {
        first_mark(attrs.skip(1), name)
    }
}

/// The condition under which an account signs: what its `signer` attribute holds, always
/// where the attribute holds nothing, and never without one.
pub open spec fn signing(field: Field) -> Seq<char> {
    match first_mark(field.attrs@, "signer"@) {
        None => "false"@,
        Some(mark) => match mark.meta {
            Meta::Path => "true"@,
            Meta::NameValue { value, .. } => value.tokens@,
            Meta::List { tokens, .. } => expr_reading(source_text(tokens@))->Ok_0,
        },
    }
}

/// Whether a field may hold no account.
pub open spec fn may_be_absent(field: Field) -> bool {
    option_of(field.ty) is Some
}

/// Whether the account of a field is written.
pub open spec fn writes(field: Field) -> bool {
    is_named(field.ty, "CpiHandleMut"@) || (option_of(field.ty) matches Some(inner) && is_named(
        inner,
        "CpiHandleMut"@,
    ))
}

/// Whether a field nests accounts.
pub open spec fn nests(field: Field) -> bool {
    first_mark(field.attrs@, "nested"@) is Some
}

/// Whether a field stands for no account.
pub open spec fn stands_for_none(field: Field) -> bool {
    field_metas(field)->Ok_0.skip || !nests(field) && phantom_lifetime(field.ty) is Some
}

/// Whether an account is listed before itself as one that is only read.
pub open spec fn listed_twice(field: Field) -> bool {
    field_metas(field)->Ok_0.duplicate_readonly
}

// ---------------------------------------------------------------------------
// What is listed for a field
// ---------------------------------------------------------------------------

/// A flag as it is written.
pub open spec fn said(flag: bool) -> Seq<char> {
    if flag {
        "true"@
    } else {
        "false"@
    }
}

/// The statement that lists the meta of an account.
pub open spec fn lists_meta(name: Seq<char>, writable: bool, signer: Seq<char>) -> Seq<char> {
    "__accounts.push(\n    anchor_lang::pinocchio::instruction::InstructionAccount::new(\n        self."@ + name + ".address(),\n        "@ + said(writable) + ",\n        "@ + signer + ",\n    ),\n);"@
}

/// The statement that lists the meta of an account, or that of the program where there
/// is none.
pub open spec fn lists_meta_or_program(
    name: Seq<char>,
    writable: bool,
    signer: Seq<char>,
    program: Seq<char>,
) -> Seq<char> {
    "match self."@ + name + " {\n    ::core::option::Option::Some(__account) => {\n        __accounts.push(\n            anchor_lang::pinocchio::instruction::InstructionAccount::new(\n                __account.address(),\n                "@ + said(writable) + ",\n                "@ + signer + ",\n            ),\n        );\n    }\n    ::core::option::Option::None => {\n        __accounts.push(\n            anchor_lang::pinocchio::instruction::InstructionAccount::readonly(\n                &"@ + program + ",\n            ),\n        );\n    }\n}"@
}

/// The statements that list the metas of a field.
pub open spec fn metas_of(field: Field, program: Seq<char>) -> Seq<char> {
    let name = field_name(field);
    if stands_for_none(field) {
        Seq::empty()
    } else if nests(field) {
        "__accounts.extend(anchor_lang::ToCpiAccounts::to_instruction_accounts(&self."@ + name
            + "));"@
    } else if may_be_absent(field) {
        lists_meta_or_program(name, writes(field), signing(field), program)
    } else if listed_twice(field) {
        lists_meta(name, false, "false"@) + lists_meta(name, writes(field), signing(field))
    } else {
        lists_meta(name, writes(field), signing(field))
    }
}

/// The statements that list the handles of a field.
pub open spec fn handles_of(field: Field) -> Seq<char> {
    let name = field_name(field);
    let direct = if writes(field) {
        "__handles.push(self."@ + name + ".into());"@
    } else {
        "__handles.push(self."@ + name + ".into_readonly());"@
    };
    if stands_for_none(field) {
        Seq::empty()
    } else if nests(field) {
        "__handles.extend(anchor_lang::ToCpiAccounts::to_cpi_handles(&self."@ + name + "));"@
    } else if may_be_absent(field) {
        "if let ::core::option::Option::Some(__account) = self."@ + name
            + " {\n    __handles.push(__account"@ + (if writes(field) {
            ".into()"@
        } else {
            ""@
        }) + ");\n}"@
    } else if listed_twice(field) {
        "__handles.push(self."@ + name + ".into_readonly());"@ + direct
    } else {
        direct
    }
}

/// The statements that list for a field which of its metas stand for an absent account.
pub open spec fn flags_of(field: Field) -> Seq<char> {
    let name = field_name(field);
    if stands_for_none(field) {
        Seq::empty()
    } else if nests(field) {
        "__flags.extend(\n    anchor_lang::ToCpiAccounts::optional_account_sentinel_flags(&self."@
            + name + "),\n);"@
    } else if may_be_absent(field) {
        "__flags.push(self."@ + name + ".is_none());"@
    } else if listed_twice(field) {
        "__flags.push(false);"@ + "__flags.push(false);"@
    } else {
        "__flags.push(false);"@
    }
}

/// What is said of all fields, in their order.
pub open spec fn of_all(fields: Seq<Field>, said: spec_fn(Field) -> Seq<char>) -> Seq<char>
    decreases fields.len(),
{
    if fields.len() == 0 {
        Seq::empty()
    } else {
        said(fields[0]) + of_all(fields.skip(1), said)
    }
}

proof fn lemma_meta_direct_text(parts: Seq<Seq<char>>)
    requires
        parts.len() == 3,
    ensures
        filled(META_DIRECT@, parts) == "__accounts.push(\n    anchor_lang::pinocchio::instruction::InstructionAccount::new(\n        self."@ + parts[0] + ".address(),\n        "@ + parts[1] + ",\n        "@ + parts[2] + ",\n    ),\n);"@,
{
    reveal_strlit(r#"__accounts.push(
    anchor_lang::pinocchio::instruction::InstructionAccount::new(
        self.@a.address(),
        @b,
        @c,
    ),
);"#);
    reveal_strlit("__accounts.push(\n    anchor_lang::pinocchio::instruction::InstructionAccount::new(\n        self.");
    reveal_strlit(".address(),\n        ");
    reveal_strlit(",\n        ");
    reveal_strlit(",\n    ),\n);");
    let rest3 = ",\n    ),\n);"@;
    lemma_filled_plain(rest3, parts);
    let rest2 = ",\n        "@ + seq!['@', 'c'] + rest3;
    lemma_filled_hole(",\n        "@, 'c', rest3, parts);
    let rest1 = ".address(),\n        "@ + seq!['@', 'b'] + rest2;
    lemma_filled_hole(".address(),\n        "@, 'b', rest2, parts);
    let rest0 = "__accounts.push(\n    anchor_lang::pinocchio::instruction::InstructionAccount::new(\n        self."@ + seq!['@', 'a'] + rest1;
    lemma_filled_hole("__accounts.push(\n    anchor_lang::pinocchio::instruction::InstructionAccount::new(\n        self."@, 'a', rest1, parts);
    assert(META_DIRECT@ =~= rest0);
    assert(filled(META_DIRECT@, parts) =~= "__accounts.push(\n    anchor_lang::pinocchio::instruction::InstructionAccount::new(\n        self."@ + parts[0] + ".address(),\n        "@ + parts[1] + ",\n        "@ + parts[2] + ",\n    ),\n);"@);
}

proof fn lemma_meta_optional_text(parts: Seq<Seq<char>>)
    requires
        parts.len() == 4,
    ensures
        filled(META_OPTIONAL@, parts) == "match self."@ + parts[0] + " {\n    ::core::option::Option::Some(__account) => {\n        __accounts.push(\n            anchor_lang::pinocchio::instruction::InstructionAccount::new(\n                __account.address(),\n                "@ + parts[1] + ",\n                "@ + parts[2] + ",\n            ),\n        );\n    }\n    ::core::option::Option::None => {\n        __accounts.push(\n            anchor_lang::pinocchio::instruction::InstructionAccount::readonly(\n                &"@ + parts[3] + ",\n            ),\n        );\n    }\n}"@,
{
    reveal_strlit(r#"match self.@a {
    ::core::option::Option::Some(__account) => {
        __accounts.push(
            anchor_lang::pinocchio::instruction::InstructionAccount::new(
                __account.address(),
                @b,
                @c,
            ),
        );
    }
    ::core::option::Option::None => {
        __accounts.push(
            anchor_lang::pinocchio::instruction::InstructionAccount::readonly(
                &@d,
            ),
        );
    }
}"#);
    reveal_strlit("match self.");
    reveal_strlit(" {\n    ::core::option::Option::Some(__account) => {\n        __accounts.push(\n            anchor_lang::pinocchio::instruction::InstructionAccount::new(\n                __account.address(),\n                ");
    reveal_strlit(",\n                ");
    reveal_strlit(",\n            ),\n        );\n    }\n    ::core::option::Option::None => {\n        __accounts.push(\n            anchor_lang::pinocchio::instruction::InstructionAccount::readonly(\n                &");
    reveal_strlit(",\n            ),\n        );\n    }\n}");
    let rest4 = ",\n            ),\n        );\n    }\n}"@;
    lemma_filled_plain(rest4, parts);
    let rest3 = ",\n            ),\n        );\n    }\n    ::core::option::Option::None => {\n        __accounts.push(\n            anchor_lang::pinocchio::instruction::InstructionAccount::readonly(\n                &"@ + seq!['@', 'd'] + rest4;
    lemma_filled_hole(",\n            ),\n        );\n    }\n    ::core::option::Option::None => {\n        __accounts.push(\n            anchor_lang::pinocchio::instruction::InstructionAccount::readonly(\n                &"@, 'd', rest4, parts);
    let rest2 = ",\n                "@ + seq!['@', 'c'] + rest3;
    lemma_filled_hole(",\n                "@, 'c', rest3, parts);
    let rest1 = " {\n    ::core::option::Option::Some(__account) => {\n        __accounts.push(\n            anchor_lang::pinocchio::instruction::InstructionAccount::new(\n                __account.address(),\n                "@ + seq!['@', 'b'] + rest2;
    lemma_filled_hole(" {\n    ::core::option::Option::Some(__account) => {\n        __accounts.push(\n            anchor_lang::pinocchio::instruction::InstructionAccount::new(\n                __account.address(),\n                "@, 'b', rest2, parts);
    let rest0 = "match self."@ + seq!['@', 'a'] + rest1;
    lemma_filled_hole("match self."@, 'a', rest1, parts);
    assert(META_OPTIONAL@ =~= rest0);
    assert(filled(META_OPTIONAL@, parts) =~= "match self."@ + parts[0] + " {\n    ::core::option::Option::Some(__account) => {\n        __accounts.push(\n            anchor_lang::pinocchio::instruction::InstructionAccount::new(\n                __account.address(),\n                "@ + parts[1] + ",\n                "@ + parts[2] + ",\n            ),\n        );\n    }\n    ::core::option::Option::None => {\n        __accounts.push(\n            anchor_lang::pinocchio::instruction::InstructionAccount::readonly(\n                &"@ + parts[3] + ",\n            ),\n        );\n    }\n}"@);
}

proof fn lemma_meta_nested_text(parts: Seq<Seq<char>>)
    requires
        parts.len() == 1,
    ensures
        filled(META_NESTED@, parts) == "__accounts.extend(anchor_lang::ToCpiAccounts::to_instruction_accounts(&self."@ + parts[0] + "));"@,
{
    reveal_strlit(r#"__accounts.extend(anchor_lang::ToCpiAccounts::to_instruction_accounts(&self.@a));"#);
    reveal_strlit("__accounts.extend(anchor_lang::ToCpiAccounts::to_instruction_accounts(&self.");
    reveal_strlit("));");
    let rest1 = "));"@;
    lemma_filled_plain(rest1, parts);
    let rest0 = "__accounts.extend(anchor_lang::ToCpiAccounts::to_instruction_accounts(&self."@ + seq!['@', 'a'] + rest1;
    lemma_filled_hole("__accounts.extend(anchor_lang::ToCpiAccounts::to_instruction_accounts(&self."@, 'a', rest1, parts);
    assert(META_NESTED@ =~= rest0);
    assert(filled(META_NESTED@, parts) =~= "__accounts.extend(anchor_lang::ToCpiAccounts::to_instruction_accounts(&self."@ + parts[0] + "));"@);
}

proof fn lemma_handle_nested_text(parts: Seq<Seq<char>>)
    requires
        parts.len() == 1,
    ensures
        filled(HANDLE_NESTED@, parts) == "__handles.extend(anchor_lang::ToCpiAccounts::to_cpi_handles(&self."@ + parts[0] + "));"@,
{
    reveal_strlit(r#"__handles.extend(anchor_lang::ToCpiAccounts::to_cpi_handles(&self.@a));"#);
    reveal_strlit("__handles.extend(anchor_lang::ToCpiAccounts::to_cpi_handles(&self.");
    reveal_strlit("));");
    let rest1 = "));"@;
    lemma_filled_plain(rest1, parts);
    let rest0 = "__handles.extend(anchor_lang::ToCpiAccounts::to_cpi_handles(&self."@ + seq!['@', 'a'] + rest1;
    lemma_filled_hole("__handles.extend(anchor_lang::ToCpiAccounts::to_cpi_handles(&self."@, 'a', rest1, parts);
    assert(HANDLE_NESTED@ =~= rest0);
    assert(filled(HANDLE_NESTED@, parts) =~= "__handles.extend(anchor_lang::ToCpiAccounts::to_cpi_handles(&self."@ + parts[0] + "));"@);
}

proof fn lemma_handle_readonly_text(parts: Seq<Seq<char>>)
    requires
        parts.len() == 1,
    ensures
        filled(HANDLE_READONLY@, parts) == "__handles.push(self."@ + parts[0] + ".into_readonly());"@,
{
    reveal_strlit(r#"__handles.push(self.@a.into_readonly());"#);
    reveal_strlit("__handles.push(self.");
    reveal_strlit(".into_readonly());");
    let rest1 = ".into_readonly());"@;
    lemma_filled_plain(rest1, parts);
    let rest0 = "__handles.push(self."@ + seq!['@', 'a'] + rest1;
    lemma_filled_hole("__handles.push(self."@, 'a', rest1, parts);
    assert(HANDLE_READONLY@ =~= rest0);
    assert(filled(HANDLE_READONLY@, parts) =~= "__handles.push(self."@ + parts[0] + ".into_readonly());"@);
}

proof fn lemma_handle_writable_text(parts: Seq<Seq<char>>)
    requires
        parts.len() == 1,
    ensures
        filled(HANDLE_WRITABLE@, parts) == "__handles.push(self."@ + parts[0] + ".into());"@,
{
    reveal_strlit(r#"__handles.push(self.@a.into());"#);
    reveal_strlit("__handles.push(self.");
    reveal_strlit(".into());");
    let rest1 = ".into());"@;
    lemma_filled_plain(rest1, parts);
    let rest0 = "__handles.push(self."@ + seq!['@', 'a'] + rest1;
    lemma_filled_hole("__handles.push(self."@, 'a', rest1, parts);
    assert(HANDLE_WRITABLE@ =~= rest0);
    assert(filled(HANDLE_WRITABLE@, parts) =~= "__handles.push(self."@ + parts[0] + ".into());"@);
}

proof fn lemma_handle_optional_readonly_text(parts: Seq<Seq<char>>)
    requires
        parts.len() == 1,
    ensures
        filled(HANDLE_OPTIONAL_READONLY@, parts) == "if let ::core::option::Option::Some(__account) = self."@ + parts[0] + " {\n    __handles.push(__account);\n}"@,
{
    reveal_strlit(r#"if let ::core::option::Option::Some(__account) = self.@a {
    __handles.push(__account);
}"#);
    reveal_strlit("if let ::core::option::Option::Some(__account) = self.");
    reveal_strlit(" {\n    __handles.push(__account);\n}");
    let rest1 = " {\n    __handles.push(__account);\n}"@;
    lemma_filled_plain(rest1, parts);
    let rest0 = "if let ::core::option::Option::Some(__account) = self."@ + seq!['@', 'a'] + rest1;
    lemma_filled_hole("if let ::core::option::Option::Some(__account) = self."@, 'a', rest1, parts);
    assert(HANDLE_OPTIONAL_READONLY@ =~= rest0);
    assert(filled(HANDLE_OPTIONAL_READONLY@, parts) =~= "if let ::core::option::Option::Some(__account) = self."@ + parts[0] + " {\n    __handles.push(__account);\n}"@);
}

proof fn lemma_handle_optional_writable_text(parts: Seq<Seq<char>>)
    requires
        parts.len() == 1,
    ensures
        filled(HANDLE_OPTIONAL_WRITABLE@, parts) == "if let ::core::option::Option::Some(__account) = self."@ + parts[0] + " {\n    __handles.push(__account.into());\n}"@,
{
    reveal_strlit(r#"if let ::core::option::Option::Some(__account) = self.@a {
    __handles.push(__account.into());
}"#);
    reveal_strlit("if let ::core::option::Option::Some(__account) = self.");
    reveal_strlit(" {\n    __handles.push(__account.into());\n}");
    let rest1 = " {\n    __handles.push(__account.into());\n}"@;
    lemma_filled_plain(rest1, parts);
    let rest0 = "if let ::core::option::Option::Some(__account) = self."@ + seq!['@', 'a'] + rest1;
    lemma_filled_hole("if let ::core::option::Option::Some(__account) = self."@, 'a', rest1, parts);
    assert(HANDLE_OPTIONAL_WRITABLE@ =~= rest0);
    assert(filled(HANDLE_OPTIONAL_WRITABLE@, parts) =~= "if let ::core::option::Option::Some(__account) = self."@ + parts[0] + " {\n    __handles.push(__account.into());\n}"@);
}

proof fn lemma_flag_nested_text(parts: Seq<Seq<char>>)
    requires
        parts.len() == 1,
    ensures
        filled(FLAG_NESTED@, parts) == "__flags.extend(\n    anchor_lang::ToCpiAccounts::optional_account_sentinel_flags(&self."@ + parts[0] + "),\n);"@,
{
    reveal_strlit(r#"__flags.extend(
    anchor_lang::ToCpiAccounts::optional_account_sentinel_flags(&self.@a),
);"#);
    reveal_strlit("__flags.extend(\n    anchor_lang::ToCpiAccounts::optional_account_sentinel_flags(&self.");
    reveal_strlit("),\n);");
    let rest1 = "),\n);"@;
    lemma_filled_plain(rest1, parts);
    let rest0 = "__flags.extend(\n    anchor_lang::ToCpiAccounts::optional_account_sentinel_flags(&self."@ + seq!['@', 'a'] + rest1;
    lemma_filled_hole("__flags.extend(\n    anchor_lang::ToCpiAccounts::optional_account_sentinel_flags(&self."@, 'a', rest1, parts);
    assert(FLAG_NESTED@ =~= rest0);
    assert(filled(FLAG_NESTED@, parts) =~= "__flags.extend(\n    anchor_lang::ToCpiAccounts::optional_account_sentinel_flags(&self."@ + parts[0] + "),\n);"@);
}

proof fn lemma_flag_optional_text(parts: Seq<Seq<char>>)
    requires
        parts.len() == 1,
    ensures
        filled(FLAG_OPTIONAL@, parts) == "__flags.push(self."@ + parts[0] + ".is_none());"@,
{
    reveal_strlit(r#"__flags.push(self.@a.is_none());"#);
    reveal_strlit("__flags.push(self.");
    reveal_strlit(".is_none());");
    let rest1 = ".is_none());"@;
    lemma_filled_plain(rest1, parts);
    let rest0 = "__flags.push(self."@ + seq!['@', 'a'] + rest1;
    lemma_filled_hole("__flags.push(self."@, 'a', rest1, parts);
    assert(FLAG_OPTIONAL@ =~= rest0);
    assert(filled(FLAG_OPTIONAL@, parts) =~= "__flags.push(self."@ + parts[0] + ".is_none());"@);
}

proof fn lemma_cpi_impl(parts: Seq<Seq<char>>)
    requires
        parts.len() == 8,
    ensures
        tells(
            filled(TO_CPI_ACCOUNTS@, parts),
            seq![
                "fn to_instruction_accounts(\n        &self,\n    )"@,
                "let mut __accounts = anchor_lang::__alloc::vec::Vec::new();\n        "@ + parts[5] + "\n        __accounts\n    }"@,
                "fn to_cpi_handles(\n        &self,\n    )"@,
                "let mut __handles = anchor_lang::__alloc::vec::Vec::new();\n        "@ + parts[6] + "\n        __handles\n    }"@,
                "fn optional_account_sentinel_flags(&self)"@,
                "let mut __flags = anchor_lang::__alloc::vec::Vec::new();\n        "@ + parts[7] + "\n        __flags\n    }"@,
            ],
        ),
{
    let template = TO_CPI_ACCOUNTS@;
    let piece0 = "fn to_instruction_accounts(\n        &self,\n    )"@;
    let piece1 = "let mut __accounts = anchor_lang::__alloc::vec::Vec::new();\n        @f\n        __accounts\n    }"@;
    let piece2 = "fn to_cpi_handles(\n        &self,\n    )"@;
    let piece3 = "let mut __handles = anchor_lang::__alloc::vec::Vec::new();\n        @g\n        __handles\n    }"@;
    let piece4 = "fn optional_account_sentinel_flags(&self)"@;
    let piece5 = "let mut __flags = anchor_lang::__alloc::vec::Vec::new();\n        @h\n        __flags\n    }"@;
    let at = seq![62int, 231int, 332int, 444int, 543int, 635int];
    let pieces = seq![piece0, piece1, piece2, piece3, piece4, piece5];
    assert(says_at(template, piece0, 62) && piece0.len() == 48 && !in_hole(template, 62)
        && !in_hole(template, 110)) by {
        reveal_strlit(r#"impl @a anchor_lang::ToCpiAccounts<@b>
    for @c @d @e
{
    fn to_instruction_accounts(
        &self,
    ) -> anchor_lang::__alloc::vec::Vec<
        anchor_lang::pinocchio::instruction::InstructionAccount<@b>,
    > {
        let mut __accounts = anchor_lang::__alloc::vec::Vec::new();
        @f
        __accounts
    }

    fn to_cpi_handles(
        &self,
    ) -> anchor_lang::__alloc::vec::Vec<anchor_lang::CpiHandle<@b>> {
        let mut __handles = anchor_lang::__alloc::vec::Vec::new();
        @g
        __handles
    }

    fn optional_account_sentinel_flags(&self) -> anchor_lang::__alloc::vec::Vec<bool> {
        let mut __flags = anchor_lang::__alloc::vec::Vec::new();
        @h
        __flags
    }
}"#);
        reveal_strlit("fn to_instruction_accounts(\n        &self,\n    )");
        assert(template.subrange(62, 110) =~= piece0);
    }
    assert(says_at(template, piece1, 231) && piece1.len() == 95 && !in_hole(template, 231)
        && !in_hole(template, 326)) by {
        reveal_strlit(r#"impl @a anchor_lang::ToCpiAccounts<@b>
    for @c @d @e
{
    fn to_instruction_accounts(
        &self,
    ) -> anchor_lang::__alloc::vec::Vec<
        anchor_lang::pinocchio::instruction::InstructionAccount<@b>,
    > {
        let mut __accounts = anchor_lang::__alloc::vec::Vec::new();
        @f
        __accounts
    }

    fn to_cpi_handles(
        &self,
    ) -> anchor_lang::__alloc::vec::Vec<anchor_lang::CpiHandle<@b>> {
        let mut __handles = anchor_lang::__alloc::vec::Vec::new();
        @g
        __handles
    }

    fn optional_account_sentinel_flags(&self) -> anchor_lang::__alloc::vec::Vec<bool> {
        let mut __flags = anchor_lang::__alloc::vec::Vec::new();
        @h
        __flags
    }
}"#);
        reveal_strlit("let mut __accounts = anchor_lang::__alloc::vec::Vec::new();\n        @f\n        __accounts\n    }");
        assert(template.subrange(231, 326) =~= piece1);
    }
    assert(says_at(template, piece2, 332) && piece2.len() == 39 && !in_hole(template, 332)
        && !in_hole(template, 371)) by {
        reveal_strlit(r#"impl @a anchor_lang::ToCpiAccounts<@b>
    for @c @d @e
{
    fn to_instruction_accounts(
        &self,
    ) -> anchor_lang::__alloc::vec::Vec<
        anchor_lang::pinocchio::instruction::InstructionAccount<@b>,
    > {
        let mut __accounts = anchor_lang::__alloc::vec::Vec::new();
        @f
        __accounts
    }

    fn to_cpi_handles(
        &self,
    ) -> anchor_lang::__alloc::vec::Vec<anchor_lang::CpiHandle<@b>> {
        let mut __handles = anchor_lang::__alloc::vec::Vec::new();
        @g
        __handles
    }

    fn optional_account_sentinel_flags(&self) -> anchor_lang::__alloc::vec::Vec<bool> {
        let mut __flags = anchor_lang::__alloc::vec::Vec::new();
        @h
        __flags
    }
}"#);
        reveal_strlit("fn to_cpi_handles(\n        &self,\n    )");
        assert(template.subrange(332, 371) =~= piece2);
    }
    assert(says_at(template, piece3, 444) && piece3.len() == 93 && !in_hole(template, 444)
        && !in_hole(template, 537)) by {
        reveal_strlit(r#"impl @a anchor_lang::ToCpiAccounts<@b>
    for @c @d @e
{
    fn to_instruction_accounts(
        &self,
    ) -> anchor_lang::__alloc::vec::Vec<
        anchor_lang::pinocchio::instruction::InstructionAccount<@b>,
    > {
        let mut __accounts = anchor_lang::__alloc::vec::Vec::new();
        @f
        __accounts
    }

    fn to_cpi_handles(
        &self,
    ) -> anchor_lang::__alloc::vec::Vec<anchor_lang::CpiHandle<@b>> {
        let mut __handles = anchor_lang::__alloc::vec::Vec::new();
        @g
        __handles
    }

    fn optional_account_sentinel_flags(&self) -> anchor_lang::__alloc::vec::Vec<bool> {
        let mut __flags = anchor_lang::__alloc::vec::Vec::new();
        @h
        __flags
    }
}"#);
        reveal_strlit("let mut __handles = anchor_lang::__alloc::vec::Vec::new();\n        @g\n        __handles\n    }");
        assert(template.subrange(444, 537) =~= piece3);
    }
    assert(says_at(template, piece4, 543) && piece4.len() == 41 && !in_hole(template, 543)
        && !in_hole(template, 584)) by {
        reveal_strlit(r#"impl @a anchor_lang::ToCpiAccounts<@b>
    for @c @d @e
{
    fn to_instruction_accounts(
        &self,
    ) -> anchor_lang::__alloc::vec::Vec<
        anchor_lang::pinocchio::instruction::InstructionAccount<@b>,
    > {
        let mut __accounts = anchor_lang::__alloc::vec::Vec::new();
        @f
        __accounts
    }

    fn to_cpi_handles(
        &self,
    ) -> anchor_lang::__alloc::vec::Vec<anchor_lang::CpiHandle<@b>> {
        let mut __handles = anchor_lang::__alloc::vec::Vec::new();
        @g
        __handles
    }

    fn optional_account_sentinel_flags(&self) -> anchor_lang::__alloc::vec::Vec<bool> {
        let mut __flags = anchor_lang::__alloc::vec::Vec::new();
        @h
        __flags
    }
}"#);
        reveal_strlit("fn optional_account_sentinel_flags(&self)");
        assert(template.subrange(543, 584) =~= piece4);
    }
    assert(says_at(template, piece5, 635) && piece5.len() == 89 && !in_hole(template, 635)
        && !in_hole(template, 724)) by {
        reveal_strlit(r#"impl @a anchor_lang::ToCpiAccounts<@b>
    for @c @d @e
{
    fn to_instruction_accounts(
        &self,
    ) -> anchor_lang::__alloc::vec::Vec<
        anchor_lang::pinocchio::instruction::InstructionAccount<@b>,
    > {
        let mut __accounts = anchor_lang::__alloc::vec::Vec::new();
        @f
        __accounts
    }

    fn to_cpi_handles(
        &self,
    ) -> anchor_lang::__alloc::vec::Vec<anchor_lang::CpiHandle<@b>> {
        let mut __handles = anchor_lang::__alloc::vec::Vec::new();
        @g
        __handles
    }

    fn optional_account_sentinel_flags(&self) -> anchor_lang::__alloc::vec::Vec<bool> {
        let mut __flags = anchor_lang::__alloc::vec::Vec::new();
        @h
        __flags
    }
}"#);
        reveal_strlit("let mut __flags = anchor_lang::__alloc::vec::Vec::new();\n        @h\n        __flags\n    }");
        assert(template.subrange(635, 724) =~= piece5);
    }
    assert(pieces_stand(template, at, pieces));
    lemma_filled_tells(template, parts, at, pieces);
    assert(filled(piece0, parts) == piece0) by {
        reveal_strlit("fn to_instruction_accounts(\n        &self,\n    )");
        lemma_filled_plain(piece0, parts);
    }
    assert(filled(piece1, parts) == "let mut __accounts = anchor_lang::__alloc::vec::Vec::new();\n        "@ + parts[5] + "\n        __accounts\n    }"@) by {
        reveal_strlit("let mut __accounts = anchor_lang::__alloc::vec::Vec::new();\n        @f\n        __accounts\n    }");
        reveal_strlit("let mut __accounts = anchor_lang::__alloc::vec::Vec::new();\n        ");
        reveal_strlit("\n        __accounts\n    }");
        let rest1 = "\n        __accounts\n    }"@;
        lemma_filled_plain(rest1, parts);
        let rest0 = "let mut __accounts = anchor_lang::__alloc::vec::Vec::new();\n        "@ + seq!['@', 'f'] + rest1;
        lemma_filled_hole("let mut __accounts = anchor_lang::__alloc::vec::Vec::new();\n        "@, 'f', rest1, parts);
        assert(piece1 =~= rest0);
        assert(filled(piece1, parts) =~= "let mut __accounts = anchor_lang::__alloc::vec::Vec::new();\n        "@ + parts[5] + "\n        __accounts\n    }"@);
    }
    assert(filled(piece2, parts) == piece2) by {
        reveal_strlit("fn to_cpi_handles(\n        &self,\n    )");
        lemma_filled_plain(piece2, parts);
    }
    assert(filled(piece3, parts) == "let mut __handles = anchor_lang::__alloc::vec::Vec::new();\n        "@ + parts[6] + "\n        __handles\n    }"@) by {
        reveal_strlit("let mut __handles = anchor_lang::__alloc::vec::Vec::new();\n        @g\n        __handles\n    }");
        reveal_strlit("let mut __handles = anchor_lang::__alloc::vec::Vec::new();\n        ");
        reveal_strlit("\n        __handles\n    }");
        let rest1 = "\n        __handles\n    }"@;
        lemma_filled_plain(rest1, parts);
        let rest0 = "let mut __handles = anchor_lang::__alloc::vec::Vec::new();\n        "@ + seq!['@', 'g'] + rest1;
        lemma_filled_hole("let mut __handles = anchor_lang::__alloc::vec::Vec::new();\n        "@, 'g', rest1, parts);
        assert(piece3 =~= rest0);
        assert(filled(piece3, parts) =~= "let mut __handles = anchor_lang::__alloc::vec::Vec::new();\n        "@ + parts[6] + "\n        __handles\n    }"@);
    }
    assert(filled(piece4, parts) == piece4) by {
        reveal_strlit("fn optional_account_sentinel_flags(&self)");
        lemma_filled_plain(piece4, parts);
    }
    assert(filled(piece5, parts) == "let mut __flags = anchor_lang::__alloc::vec::Vec::new();\n        "@ + parts[7] + "\n        __flags\n    }"@) by {
        reveal_strlit("let mut __flags = anchor_lang::__alloc::vec::Vec::new();\n        @h\n        __flags\n    }");
        reveal_strlit("let mut __flags = anchor_lang::__alloc::vec::Vec::new();\n        ");
        reveal_strlit("\n        __flags\n    }");
        let rest1 = "\n        __flags\n    }"@;
        lemma_filled_plain(rest1, parts);
        let rest0 = "let mut __flags = anchor_lang::__alloc::vec::Vec::new();\n        "@ + seq!['@', 'h'] + rest1;
        lemma_filled_hole("let mut __flags = anchor_lang::__alloc::vec::Vec::new();\n        "@, 'h', rest1, parts);
        assert(piece5 =~= rest0);
        assert(filled(piece5, parts) =~= "let mut __flags = anchor_lang::__alloc::vec::Vec::new();\n        "@ + parts[7] + "\n        __flags\n    }"@);
    }
    assert(pieces.map_values(|piece: Seq<char>| filled(piece, parts)) =~= seq![
        "fn to_instruction_accounts(\n        &self,\n    )"@,
        "let mut __accounts = anchor_lang::__alloc::vec::Vec::new();\n        "@ + parts[5] + "\n        __accounts\n    }"@,
        "fn to_cpi_handles(\n        &self,\n    )"@,
        "let mut __handles = anchor_lang::__alloc::vec::Vec::new();\n        "@ + parts[6] + "\n        __handles\n    }"@,
        "fn optional_account_sentinel_flags(&self)"@,
        "let mut __flags = anchor_lang::__alloc::vec::Vec::new();\n        "@ + parts[7] + "\n        __flags\n    }"@,
    ]);
}

proof fn lemma_flag_said(set: bool)
    ensures
        flag(set) == said(set),
{
}

proof fn lemma_signed_stays(attrs: Seq<Attribute>, seen: Seq<char>)
    requires
        only_signer(attrs, Some(seen)) is Ok,
    ensures
        only_signer(attrs, Some(seen))->Ok_0 == Some(seen),
    decreases attrs.len(),
{
    if attrs.len() > 0 {
        lemma_signed_stays(attrs.skip(1), seen);
    }
}

proof fn lemma_signing(attrs: Seq<Attribute>)
    requires
        only_signer(attrs, None) is Ok,
    ensures
        match first_mark(attrs, "signer"@) {
            None => only_signer(attrs, None)->Ok_0 is None,
            Some(mark) => signer_in(mark) is Ok && only_signer(attrs, None)->Ok_0 == Some(
                signer_in(mark)->Ok_0,
            ),
        },
    decreases attrs.len(),
{
    if attrs.len() > 0 {
        if attrs[0].path@ == "signer"@ {
            lemma_signed_stays(attrs.skip(1), signer_in(attrs[0])->Ok_0);
        } else {
            lemma_signing(attrs.skip(1));
        }
    }
}

proof fn lemma_nesting(attrs: Seq<Attribute>, seen: bool)
    requires
        nested_attr(attrs, seen) is Ok,
    ensures
        nested_attr(attrs, seen)->Ok_0 == (seen || first_mark(attrs, "nested"@) is Some),
    decreases attrs.len(),
{
    if attrs.len() > 0 {
        if attrs[0].path@ == "nested"@ {
            lemma_nesting(attrs.skip(1), true);
        } else {
            lemma_nesting(attrs.skip(1), seen);
        }
    }
}

/// The texts of accounts put together.
spec fn texts_of(accounts: Seq<CpiFieldView>, text: spec_fn(CpiFieldView) -> Seq<char>) -> Seq<char> {
    concat_all(accounts.map_values(text))
}

proof fn lemma_texts_joined(
    a: Seq<CpiFieldView>,
    b: Seq<CpiFieldView>,
    text: spec_fn(CpiFieldView) -> Seq<char>,
)
    ensures
        texts_of(a + b, text) == texts_of(a, text) + texts_of(b, text),
    decreases b.len(),
{
    if b.len() == 0 {
        assert(a + b =~= a);
        assert(b.map_values(text) =~= Seq::<Seq<char>>::empty());
        assert(texts_of(a, text) + texts_of(b, text) =~= texts_of(a, text));
    } else {
        lemma_texts_joined(a, b.drop_last(), text);
        assert((a + b).map_values(text).drop_last() =~= (a + b.drop_last()).map_values(text));
        assert(b.map_values(text).drop_last() =~= b.drop_last().map_values(text));
        assert((a + b).map_values(text).last() == text(b.last()));
        assert(texts_of(a + b, text) =~= texts_of(a, text) + texts_of(b, text));
    }
}

proof fn lemma_texts_one(a: CpiFieldView, text: spec_fn(CpiFieldView) -> Seq<char>)
    ensures
        texts_of(seq![a], text) == text(a),
{
    let list = seq![a].map_values(text);
    assert(list.drop_last() =~= Seq::<Seq<char>>::empty());
    assert(concat_all(list.drop_last()) =~= Seq::<char>::empty());
    assert(texts_of(seq![a], text) =~= text(a));
}

proof fn lemma_texts_two(a: CpiFieldView, b: CpiFieldView, text: spec_fn(CpiFieldView) -> Seq<char>)
    ensures
        texts_of(seq![a, b], text) == text(a) + text(b),
{
    lemma_texts_one(a, text);
    lemma_texts_one(b, text);
    lemma_texts_joined(seq![a], seq![b], text);
    assert(seq![a] + seq![b] =~= seq![a, b]);
}

spec fn by_meta(program: Seq<char>) -> spec_fn(CpiFieldView) -> Seq<char> {
    |field: CpiFieldView| meta_step(field, program)
}

spec fn by_handle() -> spec_fn(CpiFieldView) -> Seq<char> {
    |field: CpiFieldView| handle_step(field)
}

spec fn by_flag() -> spec_fn(CpiFieldView) -> Seq<char> {
    |field: CpiFieldView| flag_step(field)
}

proof fn lemma_texts_none(text: spec_fn(CpiFieldView) -> Seq<char>)
    ensures
        texts_of(Seq::empty(), text) == Seq::<char>::empty(),
{
    assert(Seq::<CpiFieldView>::empty().map_values(text) =~= Seq::<Seq<char>>::empty());
}

proof fn lemma_field_said(field: Field, program: Seq<char>)
    requires
        field_reading(field) is Ok,
        field_reading(field)->Ok_0 matches Some(reading) ==> (reading.duplicate_readonly ==> {
            ||| reading.kind == CpiFieldKind::Phantom
            ||| reading.kind == CpiFieldKind::Readonly
            ||| reading.kind == CpiFieldKind::Writable
        }),
    ensures
        texts_of(accounts_of(field), by_meta(program)) == metas_of(field, program),
        texts_of(accounts_of(field), by_handle()) == handles_of(field),
        texts_of(accounts_of(field), by_flag()) == flags_of(field),
{
    lemma_signing(field.attrs@);
    lemma_nesting(field.attrs@, false);
    lemma_texts_none(by_meta(program));
    lemma_texts_none(by_handle());
    lemma_texts_none(by_flag());
    let name = field_name(field);
    if let Some(reading) = field_reading(field)->Ok_0 {
        let own = CpiFieldView { name, kind: reading.kind, signer: reading.signer };
        let twin = CpiFieldView { name, kind: CpiFieldKind::Readonly, signer: "false"@ };
        lemma_texts_one(own, by_meta(program));
        lemma_texts_one(own, by_handle());
        lemma_texts_one(own, by_flag());
        lemma_texts_two(twin, own, by_meta(program));
        lemma_texts_two(twin, own, by_handle());
        lemma_texts_two(twin, own, by_flag());
        reveal_strlit("CpiHandle");
        reveal_strlit("CpiHandleMut");
        reveal_strlit("Option");
        reveal_strlit("");
        lemma_flag_said(true);
        lemma_flag_said(false);
        lemma_meta_nested_text(seq![name]);
        lemma_meta_direct_text(seq![name, said(true), reading.signer]);
        lemma_meta_direct_text(seq![name, said(false), reading.signer]);
        lemma_meta_direct_text(seq![name, said(false), "false"@]);
        lemma_meta_optional_text(seq![name, said(true), reading.signer, program]);
        lemma_meta_optional_text(seq![name, said(false), reading.signer, program]);
        lemma_handle_nested_text(seq![name]);
        lemma_handle_readonly_text(seq![name]);
        lemma_handle_writable_text(seq![name]);
        lemma_handle_optional_readonly_text(seq![name]);
        lemma_handle_optional_writable_text(seq![name]);
        lemma_flag_nested_text(seq![name]);
        lemma_flag_optional_text(seq![name]);
        lemma_absent_handle(name);
        assert(reading.signer == signing(field));
        assert("CpiHandle"@ != "CpiHandleMut"@) by {
            assert("CpiHandle"@.len() != "CpiHandleMut"@.len());
        }
        assert("Option"@ != "CpiHandleMut"@) by {
            assert("Option"@.len() != "CpiHandleMut"@.len());
        }
    }
}

proof fn lemma_absent_handle(name: Seq<char>)
    ensures
        "if let ::core::option::Option::Some(__account) = self."@ + name
            + " {\n    __handles.push(__account);\n}"@ == "if let ::core::option::Option::Some(__account) = self."@
            + name + " {\n    __handles.push(__account"@ + ""@ + ");\n}"@,
        "if let ::core::option::Option::Some(__account) = self."@ + name
            + " {\n    __handles.push(__account.into());\n}"@
            == "if let ::core::option::Option::Some(__account) = self."@ + name
            + " {\n    __handles.push(__account"@ + ".into()"@ + ");\n}"@,
{
    reveal_strlit("");
    reveal_strlit(".into()");
    reveal_strlit(");\n}");
    reveal_strlit(" {\n    __handles.push(__account");
    reveal_strlit(" {\n    __handles.push(__account);\n}");
    reveal_strlit(" {\n    __handles.push(__account.into());\n}");
    assert(" {\n    __handles.push(__account);\n}"@ =~= " {\n    __handles.push(__account"@ + ""@
        + ");\n}"@);
    assert(" {\n    __handles.push(__account.into());\n}"@
        =~= " {\n    __handles.push(__account"@ + ".into()"@ + ");\n}"@);
    let lead = "if let ::core::option::Option::Some(__account) = self."@ + name;
    assert(lead + (" {\n    __handles.push(__account"@ + ""@ + ");\n}"@) =~= lead
        + " {\n    __handles.push(__account"@ + ""@ + ");\n}"@);
    assert(lead + (" {\n    __handles.push(__account"@ + ".into()"@ + ");\n}"@) =~= lead
        + " {\n    __handles.push(__account"@ + ".into()"@ + ");\n}"@);
}

proof fn lemma_fields_said(
    fields: Seq<Field>,
    lifetime: Option<Seq<char>>,
    accounts: Seq<CpiFieldView>,
    program: Seq<char>,
)
    requires
        scanned(fields, lifetime, accounts) is Ok,
    ensures
        texts_of(accounts_of_all(fields), by_meta(program)) == of_all(
            fields,
            |field: Field| metas_of(field, program),
        ),
        texts_of(accounts_of_all(fields), by_handle()) == of_all(
            fields,
            |field: Field| handles_of(field),
        ),
        texts_of(accounts_of_all(fields), by_flag()) == of_all(
            fields,
            |field: Field| flags_of(field),
        ),
    decreases fields.len(),
{
    lemma_texts_none(by_meta(program));
    lemma_texts_none(by_handle());
    lemma_texts_none(by_flag());
    if fields.len() > 0 {
        let own = accounts_of(fields[0]);
        let rest = accounts_of_all(fields.skip(1));
        let (lifetime, accounts) = match field_reading(fields[0])->Ok_0 {
            Some(reading) => (
                Some(reading.lifetime),
                accounts + field_accounts(field_name(fields[0]), reading),
            ),
            None => (lifetime, accounts),
        };
        lemma_fields_said(fields.skip(1), lifetime, accounts, program);
        lemma_field_said(fields[0], program);
        lemma_texts_joined(own, rest, by_meta(program));
        lemma_texts_joined(own, rest, by_handle());
        lemma_texts_joined(own, rest, by_flag());
    }
}

/// The code for a struct lists the metas, the handles and the flags of its accounts field
/// by field, in the order of the fields. An account is listed as written exactly where
/// its handle is a mutable one, and as signing under the condition that its attribute
/// holds; where an account may be absent, the program stands in for it and the flag says
/// so; and a field that is left out is not listed at all.
pub proof fn lemma_accounts_listed(input: DeriveInput)
    requires
        cpi_accounts_code(input) is Ok,
    ensures
        ({
            let fields = input.data->Struct_0->Named_0@;
            let program = first_program_id(input.attrs@)->Ok_0;
            let code = cpi_accounts_code(input)->Ok_0;
            tells(
                code,
                seq![
                    "fn to_instruction_accounts(\n        &self,\n    )"@,
                    "let mut __accounts = anchor_lang::__alloc::vec::Vec::new();\n        "@ + of_all(
                        fields,
                        |field: Field| metas_of(field, program),
                    ) + "\n        __accounts\n    }"@,
                    "fn to_cpi_handles(\n        &self,\n    )"@,
                    "let mut __handles = anchor_lang::__alloc::vec::Vec::new();\n        "@ + of_all(
                        fields,
                        |field: Field| handles_of(field),
                    ) + "\n        __handles\n    }"@,
                    "fn optional_account_sentinel_flags(&self)"@,
                    "let mut __flags = anchor_lang::__alloc::vec::Vec::new();\n        "@ + of_all(
                        fields,
                        |field: Field| flags_of(field),
                    ) + "\n        __flags\n    }"@,
                ],
            )
        }),
{
    let fields = input.data->Struct_0->Named_0@;
    let program = first_program_id(input.attrs@)->Ok_0;
    lemma_scanned_accounts(fields, None, Seq::empty());
    let accounts = accounts_of_all(fields);
    assert(Seq::<CpiFieldView>::empty() + accounts =~= accounts);
    lemma_fields_said(fields, None, Seq::empty(), program);
    let lifetime = scanned(fields, None, Seq::empty())->Ok_0.0->Some_0;
    assert(cpi_accounts_code(input)->Ok_0 == cpi_impl(input, lifetime, accounts, program));
    let parts = seq![
        input.impl_generics@,
        lifetime_text(lifetime),
        input.ident.text@,
        input.ty_generics@,
        input.where_clause@,
        texts_of(accounts, by_meta(program)),
        texts_of(accounts, by_handle()),
        texts_of(accounts, by_flag()),
    ];
    lemma_cpi_impl(parts);
}

proof fn lemma_to_cpi_accounts_text_marks()
    ensures
        TO_CPI_ACCOUNTS@.len() == 726,
        !in_hole(TO_CPI_ACCOUNTS@, 0),
        !in_hole(TO_CPI_ACCOUNTS@, 726),
        says_at(TO_CPI_ACCOUNTS@, "impl "@, 0),
        "impl "@.len() == 5,
        !"impl "@.contains('@'),
        TO_CPI_ACCOUNTS@[5] == '@',
        TO_CPI_ACCOUNTS@[6] == 'a',
        says_at(TO_CPI_ACCOUNTS@, " anchor_lang::ToCpiAccounts<"@, 7),
        " anchor_lang::ToCpiAccounts<"@.len() == 28,
        !" anchor_lang::ToCpiAccounts<"@.contains('@'),
        TO_CPI_ACCOUNTS@[35] == '@',
        TO_CPI_ACCOUNTS@[36] == 'b',
        says_at(TO_CPI_ACCOUNTS@, ">\n    for "@, 37),
        ">\n    for "@.len() == 10,
        !">\n    for "@.contains('@'),
        TO_CPI_ACCOUNTS@[47] == '@',
        TO_CPI_ACCOUNTS@[48] == 'c',
        says_at(TO_CPI_ACCOUNTS@, " "@, 49),
        " "@.len() == 1,
        !" "@.contains('@'),
        TO_CPI_ACCOUNTS@[50] == '@',
        TO_CPI_ACCOUNTS@[51] == 'd',
        says_at(TO_CPI_ACCOUNTS@, " "@, 52),
        TO_CPI_ACCOUNTS@[53] == '@',
        TO_CPI_ACCOUNTS@[54] == 'e',
        says_at(TO_CPI_ACCOUNTS@, "\n{\n    fn to_instruction_accounts(\n        &self,\n    ) -> anchor_lang::__alloc::vec::Vec<\n        anchor_lang::pinocchio::instruction::InstructionAccount<"@, 55),
        "\n{\n    fn to_instruction_accounts(\n        &self,\n    ) -> anchor_lang::__alloc::vec::Vec<\n        anchor_lang::pinocchio::instruction::InstructionAccount<"@.len() == 155,
        !"\n{\n    fn to_instruction_accounts(\n        &self,\n    ) -> anchor_lang::__alloc::vec::Vec<\n        anchor_lang::pinocchio::instruction::InstructionAccount<"@.contains('@'),
        TO_CPI_ACCOUNTS@[210] == '@',
        TO_CPI_ACCOUNTS@[211] == 'b',
        says_at(TO_CPI_ACCOUNTS@, ">,\n    > {\n        let mut __accounts = anchor_lang::__alloc::vec::Vec::new();\n        "@, 212),
        ">,\n    > {\n        let mut __accounts = anchor_lang::__alloc::vec::Vec::new();\n        "@.len() == 87,
        !">,\n    > {\n        let mut __accounts = anchor_lang::__alloc::vec::Vec::new();\n        "@.contains('@'),
        TO_CPI_ACCOUNTS@[299] == '@',
        TO_CPI_ACCOUNTS@[300] == 'f',
        says_at(TO_CPI_ACCOUNTS@, "\n        __accounts\n    }\n\n    fn to_cpi_handles(\n        &self,\n    ) -> anchor_lang::__alloc::vec::Vec<anchor_lang::CpiHandle<"@, 301),
        "\n        __accounts\n    }\n\n    fn to_cpi_handles(\n        &self,\n    ) -> anchor_lang::__alloc::vec::Vec<anchor_lang::CpiHandle<"@.len() == 128,
        !"\n        __accounts\n    }\n\n    fn to_cpi_handles(\n        &self,\n    ) -> anchor_lang::__alloc::vec::Vec<anchor_lang::CpiHandle<"@.contains('@'),
        TO_CPI_ACCOUNTS@[429] == '@',
        TO_CPI_ACCOUNTS@[430] == 'b',
        says_at(TO_CPI_ACCOUNTS@, ">> {\n        let mut __handles = anchor_lang::__alloc::vec::Vec::new();\n        "@, 431),
        ">> {\n        let mut __handles = anchor_lang::__alloc::vec::Vec::new();\n        "@.len() == 80,
        !">> {\n        let mut __handles = anchor_lang::__alloc::vec::Vec::new();\n        "@.contains('@'),
        TO_CPI_ACCOUNTS@[511] == '@',
        TO_CPI_ACCOUNTS@[512] == 'g',
        says_at(TO_CPI_ACCOUNTS@, "\n        __handles\n    }\n\n    fn optional_account_sentinel_flags(&self) -> anchor_lang::__alloc::vec::Vec<bool> {\n        let mut __flags = anchor_lang::__alloc::vec::Vec::new();\n        "@, 513),
        "\n        __handles\n    }\n\n    fn optional_account_sentinel_flags(&self) -> anchor_lang::__alloc::vec::Vec<bool> {\n        let mut __flags = anchor_lang::__alloc::vec::Vec::new();\n        "@.len() == 187,
        !"\n        __handles\n    }\n\n    fn optional_account_sentinel_flags(&self) -> anchor_lang::__alloc::vec::Vec<bool> {\n        let mut __flags = anchor_lang::__alloc::vec::Vec::new();\n        "@.contains('@'),
        TO_CPI_ACCOUNTS@[700] == '@',
        TO_CPI_ACCOUNTS@[701] == 'h',
        says_at(TO_CPI_ACCOUNTS@, "\n        __flags\n    }\n}"@, 702),
        "\n        __flags\n    }\n}"@.len() == 24,
        !"\n        __flags\n    }\n}"@.contains('@'),
{
    let template = TO_CPI_ACCOUNTS@;
    reveal_strlit(r#"impl @a anchor_lang::ToCpiAccounts<@b>
    for @c @d @e
{
    fn to_instruction_accounts(
        &self,
    ) -> anchor_lang::__alloc::vec::Vec<
        anchor_lang::pinocchio::instruction::InstructionAccount<@b>,
    > {
        let mut __accounts = anchor_lang::__alloc::vec::Vec::new();
        @f
        __accounts
    }

    fn to_cpi_handles(
        &self,
    ) -> anchor_lang::__alloc::vec::Vec<anchor_lang::CpiHandle<@b>> {
        let mut __handles = anchor_lang::__alloc::vec::Vec::new();
        @g
        __handles
    }

    fn optional_account_sentinel_flags(&self) -> anchor_lang::__alloc::vec::Vec<bool> {
        let mut __flags = anchor_lang::__alloc::vec::Vec::new();
        @h
        __flags
    }
}"#);
    assert(says_at(template, "impl "@, 0) && "impl "@.len() == 5 && !"impl "@.contains('@')) by {
        reveal_strlit("impl ");
        assert(template.subrange(0, 5) =~= "impl "@);
    }
    assert(says_at(template, " anchor_lang::ToCpiAccounts<"@, 7) && " anchor_lang::ToCpiAccounts<"@.len() == 28 && !" anchor_lang::ToCpiAccounts<"@.contains('@')) by {
        reveal_strlit(" anchor_lang::ToCpiAccounts<");
        assert(template.subrange(7, 35) =~= " anchor_lang::ToCpiAccounts<"@);
    }
    assert(says_at(template, ">\n    for "@, 37) && ">\n    for "@.len() == 10 && !">\n    for "@.contains('@')) by {
        reveal_strlit(">\n    for ");
        assert(template.subrange(37, 47) =~= ">\n    for "@);
    }
    assert(says_at(template, " "@, 49) && " "@.len() == 1 && !" "@.contains('@')) by {
        reveal_strlit(" ");
        assert(template.subrange(49, 50) =~= " "@);
    }
    assert(says_at(template, " "@, 52) && " "@.len() == 1 && !" "@.contains('@')) by {
        reveal_strlit(" ");
        assert(template.subrange(52, 53) =~= " "@);
    }
    assert(says_at(template, "\n{\n    fn to_instruction_accounts(\n        &self,\n    ) -> anchor_lang::__alloc::vec::Vec<\n        anchor_lang::pinocchio::instruction::InstructionAccount<"@, 55) && "\n{\n    fn to_instruction_accounts(\n        &self,\n    ) -> anchor_lang::__alloc::vec::Vec<\n        anchor_lang::pinocchio::instruction::InstructionAccount<"@.len() == 155 && !"\n{\n    fn to_instruction_accounts(\n        &self,\n    ) -> anchor_lang::__alloc::vec::Vec<\n        anchor_lang::pinocchio::instruction::InstructionAccount<"@.contains('@')) by {
        reveal_strlit("\n{\n    fn to_instruction_accounts(\n        &self,\n    ) -> anchor_lang::__alloc::vec::Vec<\n        anchor_lang::pinocchio::instruction::InstructionAccount<");
        assert(template.subrange(55, 210) =~= "\n{\n    fn to_instruction_accounts(\n        &self,\n    ) -> anchor_lang::__alloc::vec::Vec<\n        anchor_lang::pinocchio::instruction::InstructionAccount<"@);
    }
    assert(says_at(template, ">,\n    > {\n        let mut __accounts = anchor_lang::__alloc::vec::Vec::new();\n        "@, 212) && ">,\n    > {\n        let mut __accounts = anchor_lang::__alloc::vec::Vec::new();\n        "@.len() == 87 && !">,\n    > {\n        let mut __accounts = anchor_lang::__alloc::vec::Vec::new();\n        "@.contains('@')) by {
        reveal_strlit(">,\n    > {\n        let mut __accounts = anchor_lang::__alloc::vec::Vec::new();\n        ");
        assert(template.subrange(212, 299) =~= ">,\n    > {\n        let mut __accounts = anchor_lang::__alloc::vec::Vec::new();\n        "@);
    }
    assert(says_at(template, "\n        __accounts\n    }\n\n    fn to_cpi_handles(\n        &self,\n    ) -> anchor_lang::__alloc::vec::Vec<anchor_lang::CpiHandle<"@, 301) && "\n        __accounts\n    }\n\n    fn to_cpi_handles(\n        &self,\n    ) -> anchor_lang::__alloc::vec::Vec<anchor_lang::CpiHandle<"@.len() == 128 && !"\n        __accounts\n    }\n\n    fn to_cpi_handles(\n        &self,\n    ) -> anchor_lang::__alloc::vec::Vec<anchor_lang::CpiHandle<"@.contains('@')) by {
        reveal_strlit("\n        __accounts\n    }\n\n    fn to_cpi_handles(\n        &self,\n    ) -> anchor_lang::__alloc::vec::Vec<anchor_lang::CpiHandle<");
        assert(template.subrange(301, 429) =~= "\n        __accounts\n    }\n\n    fn to_cpi_handles(\n        &self,\n    ) -> anchor_lang::__alloc::vec::Vec<anchor_lang::CpiHandle<"@);
    }
    assert(says_at(template, ">> {\n        let mut __handles = anchor_lang::__alloc::vec::Vec::new();\n        "@, 431) && ">> {\n        let mut __handles = anchor_lang::__alloc::vec::Vec::new();\n        "@.len() == 80 && !">> {\n        let mut __handles = anchor_lang::__alloc::vec::Vec::new();\n        "@.contains('@')) by {
        reveal_strlit(">> {\n        let mut __handles = anchor_lang::__alloc::vec::Vec::new();\n        ");
        assert(template.subrange(431, 511) =~= ">> {\n        let mut __handles = anchor_lang::__alloc::vec::Vec::new();\n        "@);
    }
    assert(says_at(template, "\n        __handles\n    }\n\n    fn optional_account_sentinel_flags(&self) -> anchor_lang::__alloc::vec::Vec<bool> {\n        let mut __flags = anchor_lang::__alloc::vec::Vec::new();\n        "@, 513) && "\n        __handles\n    }\n\n    fn optional_account_sentinel_flags(&self) -> anchor_lang::__alloc::vec::Vec<bool> {\n        let mut __flags = anchor_lang::__alloc::vec::Vec::new();\n        "@.len() == 187 && !"\n        __handles\n    }\n\n    fn optional_account_sentinel_flags(&self) -> anchor_lang::__alloc::vec::Vec<bool> {\n        let mut __flags = anchor_lang::__alloc::vec::Vec::new();\n        "@.contains('@')) by {
        reveal_strlit("\n        __handles\n    }\n\n    fn optional_account_sentinel_flags(&self) -> anchor_lang::__alloc::vec::Vec<bool> {\n        let mut __flags = anchor_lang::__alloc::vec::Vec::new();\n        ");
        assert(template.subrange(513, 700) =~= "\n        __handles\n    }\n\n    fn optional_account_sentinel_flags(&self) -> anchor_lang::__alloc::vec::Vec<bool> {\n        let mut __flags = anchor_lang::__alloc::vec::Vec::new();\n        "@);
    }
    assert(says_at(template, "\n        __flags\n    }\n}"@, 702) && "\n        __flags\n    }\n}"@.len() == 24 && !"\n        __flags\n    }\n}"@.contains('@')) by {
        reveal_strlit("\n        __flags\n    }\n}");
        assert(template.subrange(702, 726) =~= "\n        __flags\n    }\n}"@);
    }
}

proof fn lemma_to_cpi_accounts_text_piece(parts: Seq<Seq<char>>)
    requires
        parts.len() == 8,
    ensures
        filled(TO_CPI_ACCOUNTS@.subrange(0, 726), parts) == "impl "@ + parts[0] + " anchor_lang::ToCpiAccounts<"@ + parts[1] + ">\n    for "@ + parts[2] + " "@ + parts[3] + " "@ + parts[4] + "\n{\n    fn to_instruction_accounts(\n        &self,\n    ) -> anchor_lang::__alloc::vec::Vec<\n        anchor_lang::pinocchio::instruction::InstructionAccount<"@ + parts[1] + ">,\n    > {\n        let mut __accounts = anchor_lang::__alloc::vec::Vec::new();\n        "@ + parts[5] + "\n        __accounts\n    }\n\n    fn to_cpi_handles(\n        &self,\n    ) -> anchor_lang::__alloc::vec::Vec<anchor_lang::CpiHandle<"@ + parts[1] + ">> {\n        let mut __handles = anchor_lang::__alloc::vec::Vec::new();\n        "@ + parts[6] + "\n        __handles\n    }\n\n    fn optional_account_sentinel_flags(&self) -> anchor_lang::__alloc::vec::Vec<bool> {\n        let mut __flags = anchor_lang::__alloc::vec::Vec::new();\n        "@ + parts[7] + "\n        __flags\n    }\n}"@,
{
    let template = TO_CPI_ACCOUNTS@;
    lemma_to_cpi_accounts_text_marks();
    let piece = template.subrange(0, 726);
    let told = filled(piece, parts);
    assert(piece.skip(0) =~= piece);
    let done0 = Seq::<char>::empty();
    assert(told =~= done0 + filled(piece.skip(0), parts));
    assert(piece.subrange(0, 5) =~= template.subrange(0, 5));
    lemma_filled_from(piece, 0, "impl "@, 'a', parts, done0, told);
    let done1 = "impl "@ + parts[0];
    assert(done0 + "impl "@ + parts[0] =~= done1);
    assert(piece.subrange(7, 35) =~= template.subrange(7, 35));
    lemma_filled_from(piece, 7, " anchor_lang::ToCpiAccounts<"@, 'b', parts, done1, told);
    let done2 = done1 + " anchor_lang::ToCpiAccounts<"@ + parts[1];
    assert(piece.subrange(37, 47) =~= template.subrange(37, 47));
    lemma_filled_from(piece, 37, ">\n    for "@, 'c', parts, done2, told);
    let done3 = done2 + ">\n    for "@ + parts[2];
    assert(piece.subrange(49, 50) =~= template.subrange(49, 50));
    lemma_filled_from(piece, 49, " "@, 'd', parts, done3, told);
    let done4 = done3 + " "@ + parts[3];
    assert(piece.subrange(52, 53) =~= template.subrange(52, 53));
    lemma_filled_from(piece, 52, " "@, 'e', parts, done4, told);
    let done5 = done4 + " "@ + parts[4];
    assert(piece.subrange(55, 210) =~= template.subrange(55, 210));
    lemma_filled_from(piece, 55, "\n{\n    fn to_instruction_accounts(\n        &self,\n    ) -> anchor_lang::__alloc::vec::Vec<\n        anchor_lang::pinocchio::instruction::InstructionAccount<"@, 'b', parts, done5, told);
    let done6 = done5 + "\n{\n    fn to_instruction_accounts(\n        &self,\n    ) -> anchor_lang::__alloc::vec::Vec<\n        anchor_lang::pinocchio::instruction::InstructionAccount<"@ + parts[1];
    assert(piece.subrange(212, 299) =~= template.subrange(212, 299));
    lemma_filled_from(piece, 212, ">,\n    > {\n        let mut __accounts = anchor_lang::__alloc::vec::Vec::new();\n        "@, 'f', parts, done6, told);
    let done7 = done6 + ">,\n    > {\n        let mut __accounts = anchor_lang::__alloc::vec::Vec::new();\n        "@ + parts[5];
    assert(piece.subrange(301, 429) =~= template.subrange(301, 429));
    lemma_filled_from(piece, 301, "\n        __accounts\n    }\n\n    fn to_cpi_handles(\n        &self,\n    ) -> anchor_lang::__alloc::vec::Vec<anchor_lang::CpiHandle<"@, 'b', parts, done7, told);
    let done8 = done7 + "\n        __accounts\n    }\n\n    fn to_cpi_handles(\n        &self,\n    ) -> anchor_lang::__alloc::vec::Vec<anchor_lang::CpiHandle<"@ + parts[1];
    assert(piece.subrange(431, 511) =~= template.subrange(431, 511));
    lemma_filled_from(piece, 431, ">> {\n        let mut __handles = anchor_lang::__alloc::vec::Vec::new();\n        "@, 'g', parts, done8, told);
    let done9 = done8 + ">> {\n        let mut __handles = anchor_lang::__alloc::vec::Vec::new();\n        "@ + parts[6];
    assert(piece.subrange(513, 700) =~= template.subrange(513, 700));
    lemma_filled_from(piece, 513, "\n        __handles\n    }\n\n    fn optional_account_sentinel_flags(&self) -> anchor_lang::__alloc::vec::Vec<bool> {\n        let mut __flags = anchor_lang::__alloc::vec::Vec::new();\n        "@, 'h', parts, done9, told);
    let done10 = done9 + "\n        __handles\n    }\n\n    fn optional_account_sentinel_flags(&self) -> anchor_lang::__alloc::vec::Vec<bool> {\n        let mut __flags = anchor_lang::__alloc::vec::Vec::new();\n        "@ + parts[7];
    assert(piece.subrange(702, 726) =~= template.subrange(702, 726));
    lemma_filled_last(piece, 702, "\n        __flags\n    }\n}"@, parts, done10, told);
    assert(told == done10 + "\n        __flags\n    }\n}"@);
}

proof fn lemma_to_cpi_accounts_text(parts: Seq<Seq<char>>)
    requires
        parts.len() == 8,
    ensures
        filled(TO_CPI_ACCOUNTS@, parts) == "impl "@ + parts[0] + " anchor_lang::ToCpiAccounts<"@ + parts[1] + ">\n    for "@ + parts[2] + " "@ + parts[3] + " "@ + parts[4] + "\n{\n    fn to_instruction_accounts(\n        &self,\n    ) -> anchor_lang::__alloc::vec::Vec<\n        anchor_lang::pinocchio::instruction::InstructionAccount<"@ + parts[1] + ">,\n    > {\n        let mut __accounts = anchor_lang::__alloc::vec::Vec::new();\n        "@ + parts[5] + "\n        __accounts\n    }\n\n    fn to_cpi_handles(\n        &self,\n    ) -> anchor_lang::__alloc::vec::Vec<anchor_lang::CpiHandle<"@ + parts[1] + ">> {\n        let mut __handles = anchor_lang::__alloc::vec::Vec::new();\n        "@ + parts[6] + "\n        __handles\n    }\n\n    fn optional_account_sentinel_flags(&self) -> anchor_lang::__alloc::vec::Vec<bool> {\n        let mut __flags = anchor_lang::__alloc::vec::Vec::new();\n        "@ + parts[7] + "\n        __flags\n    }\n}"@,
{
    lemma_to_cpi_accounts_text_marks();
    lemma_to_cpi_accounts_text_piece(parts);
    assert(TO_CPI_ACCOUNTS@.subrange(0, 726) =~= TO_CPI_ACCOUNTS@);
}

/// The code for a struct is one implementation, for the lifetime that all its accounts
/// have, with the metas, the handles and the flags of its accounts.
pub proof fn lemma_call_written(input: DeriveInput, i: int)
    requires
        cpi_accounts_code(input) is Ok,
        0 <= i < input.data->Struct_0->Named_0@.len(),
        field_reading(input.data->Struct_0->Named_0@[i]) matches Ok(Some(_)),
    ensures
        ({
            let fields = input.data->Struct_0->Named_0@;
            let program = first_program_id(input.attrs@)->Ok_0;
            let lifetime = field_reading(fields[i])->Ok_0->Some_0.lifetime;
            cpi_accounts_code(input)->Ok_0 == "impl "@ + input.impl_generics@ + " anchor_lang::ToCpiAccounts<"@ + ("'"@ + lifetime) + ">\n    for "@ + input.ident.text@ + " "@ + input.ty_generics@ + " "@ + input.where_clause@ + "\n{\n    fn to_instruction_accounts(\n        &self,\n    ) -> anchor_lang::__alloc::vec::Vec<\n        anchor_lang::pinocchio::instruction::InstructionAccount<"@ + ("'"@ + lifetime) + ">,\n    > {\n        let mut __accounts = anchor_lang::__alloc::vec::Vec::new();\n        "@ + of_all(fields, |field: Field| metas_of(field, program)) + "\n        __accounts\n    }\n\n    fn to_cpi_handles(\n        &self,\n    ) -> anchor_lang::__alloc::vec::Vec<anchor_lang::CpiHandle<"@ + ("'"@ + lifetime) + ">> {\n        let mut __handles = anchor_lang::__alloc::vec::Vec::new();\n        "@ + of_all(fields, |field: Field| handles_of(field)) + "\n        __handles\n    }\n\n    fn optional_account_sentinel_flags(&self) -> anchor_lang::__alloc::vec::Vec<bool> {\n        let mut __flags = anchor_lang::__alloc::vec::Vec::new();\n        "@ + of_all(fields, |field: Field| flags_of(field)) + "\n        __flags\n    }\n}"@
        }),
{
    let fields = input.data->Struct_0->Named_0@;
    let program = first_program_id(input.attrs@)->Ok_0;
    lemma_scanned_accounts(fields, None, Seq::empty());
    let accounts = accounts_of_all(fields);
    assert(Seq::<CpiFieldView>::empty() + accounts =~= accounts);
    lemma_fields_said(fields, None, Seq::empty(), program);
    lemma_one_lifetime(fields, None, Seq::empty(), i);
    let lifetime = scanned(fields, None, Seq::empty())->Ok_0.0->Some_0;
    assert(cpi_accounts_code(input)->Ok_0 == cpi_impl(input, lifetime, accounts, program));
    lemma_to_cpi_accounts_text(
        seq![
            input.impl_generics@,
            lifetime_text(lifetime),
            input.ident.text@,
            input.ty_generics@,
            input.where_clause@,
            texts_of(accounts, by_meta(program)),
            texts_of(accounts, by_handle()),
            texts_of(accounts, by_flag()),
        ],
    );
}

} // verus!
