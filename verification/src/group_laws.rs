//! What the accounts structs of a declared program say of the accounts of its
//! instructions.

use crate::account_groups::{
    account_field_text, account_signature, collected_fields, collected_group, fields_leave_names,
    find_variant, group_names, group_signature, has_flag, is_optional, leaf_field, leaves_names,
    lemma_collected_again, lemma_place, lemma_with_group_keeps, place_of, signature_results,
    with_group, AccountFieldView, GroupView, GroupsView, VariantView,
};
use crate::failure::{collected, lemma_collected_len, FailureView, Span};
use crate::json::{array_at, lemma_array_smaller, member_of, required_text, Json};
use crate::names::{item_name, snake_case, type_case};
use crate::passages::lemma_concat_front;
use crate::text::{flag, terminated};
use vstd::prelude::*;

verus! {

// ---------------------------------------------------------------------------
// What is said of an account
// ---------------------------------------------------------------------------

/// Whether something is true of an account, by its name or, where that is missing, by its
/// older name.
pub open spec fn is_set(account: Json, key: Seq<char>, older: Seq<char>) -> bool {
    ||| member_of(account, key) == Some(Json::Bool(true))
    ||| member_of(account, key) is None && member_of(account, older) == Some(Json::Bool(true))
}

/// The attribute of an account: it is `mut` exactly where the account is written, and
/// `signer` exactly where it signs.
pub open spec fn marks(account: Json) -> Seq<char> {
    match (is_set(account, "writable"@, "isMut"@), is_set(account, "signer"@, "isSigner"@)) {
        (true, true) => "#[account(mut, signer)]"@,
        (true, false) => "#[account(mut)]"@,
        (false, true) => "#[account(signer)]"@,
        (false, false) => ""@,
    }
}

/// The name of an account.
pub open spec fn name_in(account: Json, span: Span) -> Seq<char> {
    required_text(account, "name"@, span)->Ok_0
}

/// The accounts struct for a group of accounts.
pub open spec fn struct_for(
    variants: Seq<VariantView>,
    group: Seq<char>,
    accounts: Seq<Json>,
    span: Span,
) -> Seq<char> {
    find_variant(variants, group, group_signature(accounts, span)->Ok_0)->Some_0
}

/// The field for an account: under its name in snake case, with its marks, under `Option`
/// where it may be absent; for a group, the struct of that group.
pub open spec fn line_of(account: Json, variants: Seq<VariantView>, span: Span) -> Seq<char> {
    let name = name_in(account, span);
    let field = " pub "@ + item_name(snake_case(name))->Ok_0 + ": "@;
    match array_at(account, "accounts"@) {
        Some(inner) => field + "anchor_lang::Nested<"@ + item_name(
            struct_for(variants, type_case(name), inner, span),
        )->Ok_0 + ">,"@,
        None => if member_of(account, "optional"@) == Some(Json::Bool(true)) {
            marks(account) + field + "Option<anchor_lang::accounts::UncheckedAccount>,"@
        } else {
            marks(account) + field + "anchor_lang::accounts::UncheckedAccount,"@
        },
    }
}

/// Whether the group that an account stands for has a struct.
pub open spec fn known(account: Json, variants: Seq<VariantView>, span: Span) -> bool {
    array_at(account, "accounts"@) matches Some(inner) ==> {
        &&& group_signature(inner, span) is Ok
        &&& find_variant(
            variants,
            type_case(name_in(account, span)),
            group_signature(inner, span)->Ok_0,
        ) is Some
    }
}

/// Whether the fields of a struct are those for a list of accounts, in order.
pub open spec fn written_for(
    fields: Seq<AccountFieldView>,
    accounts: Seq<Json>,
    variants: Seq<VariantView>,
    span: Span,
) -> bool {
    &&& fields.len() == accounts.len()
    &&& forall|i: int|
        0 <= i < fields.len() ==> account_field_text(#[trigger] fields[i]) == line_of(
            accounts[i],
            variants,
            span,
        ) && known(accounts[i], variants, span)
}

/// Whether names can be told from what stands round them in a signature.
pub open spec fn plain(accounts: Seq<Json>, span: Span) -> bool
    decreases accounts, 1int,
{
    forall|i: int|
        #![trigger accounts[i]]
        if 0 <= i < accounts.len() {
            plain_one(accounts[i], span)
        } else {
            true
        }
}

/// Whether the name of an account, and those of the accounts that it groups, can be told
/// from what stands round them in a signature.
pub open spec fn plain_one(account: Json, span: Span) -> bool
    decreases account, 2int,
{
    &&& !name_in(account, span).contains(':')
    &&& if array_at(account, "accounts"@) is Some {
        proof {
            lemma_array_smaller(account, "accounts"@);
        }
        plain(array_at(account, "accounts"@)->Some_0, span)
    } else {
        true
    }
}

/// Whether there is a struct for a group: it has the name that was chosen, and its fields
/// are those for accounts with the signature of the group.
pub open spec fn is_built(state: GroupsView, variant: VariantView, span: Span) -> bool {
    exists|group: GroupView, accounts: Seq<Json>| #[trigger]
        stands_for(state, variant, group, accounts, span)
}

/// Whether a struct stands for a group, by a list of accounts.
pub open spec fn stands_for(
    state: GroupsView,
    variant: VariantView,
    group: GroupView,
    accounts: Seq<Json>,
    span: Span,
) -> bool {
    &&& state.groups.contains(group)
    &&& group.name == variant.generated_name
    &&& plain(accounts, span)
    &&& group_signature(accounts, span) == Ok::<Seq<char>, FailureView>(variant.signature)
    &&& written_for(group.fields, accounts, state.variants, span)
}

/// Whether there is a struct for every group.
pub open spec fn all_built(state: GroupsView, span: Span) -> bool {
    forall|i: int|
        0 <= i < state.variants.len() ==> is_built(state, #[trigger] state.variants[i], span)
}

/// Whether the groups of a state come first in another.
pub open spec fn continues(before: GroupsView, after: GroupsView) -> bool {
    &&& before.variants.len() <= after.variants.len()
    &&& after.variants.take(before.variants.len() as int) == before.variants
}

// ---------------------------------------------------------------------------
// Collecting
// ---------------------------------------------------------------------------

/// A group keeps the struct that it has.
pub proof fn lemma_variant_stays(
    before: Seq<VariantView>,
    after: Seq<VariantView>,
    group: Seq<char>,
    signature: Seq<char>,
)
    requires
        before.len() <= after.len(),
        after.take(before.len() as int) == before,
        find_variant(before, group, signature) is Some,
    ensures
        find_variant(after, group, signature) == find_variant(before, group, signature),
    decreases before.len(),
{
    assert(after[0] == before[0]) by {
        assert(after.take(before.len() as int)[0] == before[0]);
    }
    if !(before[0].group == group && before[0].signature == signature) {
        assert(after.skip(1).take(before.skip(1).len() as int) =~= after.take(
            before.len() as int,
        ).skip(1));
        lemma_variant_stays(before.skip(1), after.skip(1), group, signature);
    }
}

proof fn lemma_line_stays(
    account: Json,
    before: Seq<VariantView>,
    after: Seq<VariantView>,
    span: Span,
)
    requires
        before.len() <= after.len(),
        after.take(before.len() as int) == before,
        known(account, before, span),
    ensures
        known(account, after, span),
        line_of(account, after, span) == line_of(account, before, span),
{
    if let Some(inner) = array_at(account, "accounts"@) {
        lemma_variant_stays(
            before,
            after,
            type_case(name_in(account, span)),
            group_signature(inner, span)->Ok_0,
        );
    }
}

proof fn lemma_written_stays(
    fields: Seq<AccountFieldView>,
    accounts: Seq<Json>,
    before: Seq<VariantView>,
    after: Seq<VariantView>,
    span: Span,
)
    requires
        before.len() <= after.len(),
        after.take(before.len() as int) == before,
        written_for(fields, accounts, before, span),
    ensures
        written_for(fields, accounts, after, span),
{
    assert forall|i: int| 0 <= i < fields.len() implies account_field_text(#[trigger] fields[i])
        == line_of(accounts[i], after, span) && known(accounts[i], after, span) by {
        assert(account_field_text(fields[i]) == line_of(accounts[i], before, span));
        lemma_line_stays(accounts[i], before, after, span);
    }
}

proof fn lemma_leaf(account: Json, ident: Seq<char>, variants: Seq<VariantView>, span: Span)
    requires
        array_at(account, "accounts"@) is None,
        item_name(snake_case(name_in(account, span))) == Ok::<Seq<char>, FailureView>(ident),
    ensures
        account_field_text(leaf_field(account, ident)) == line_of(account, variants, span),
{
    reveal_strlit("Option<anchor_lang::accounts::UncheckedAccount>");
    reveal_strlit("anchor_lang::accounts::UncheckedAccount");
    reveal_strlit("Option<anchor_lang::accounts::UncheckedAccount>,");
    reveal_strlit("anchor_lang::accounts::UncheckedAccount,");
    reveal_strlit(",");
    assert("Option<anchor_lang::accounts::UncheckedAccount>"@ + ","@
        =~= "Option<anchor_lang::accounts::UncheckedAccount>,"@);
    assert("anchor_lang::accounts::UncheckedAccount"@ + ","@
        =~= "anchor_lang::accounts::UncheckedAccount,"@);
    assert(marks(account) == leaf_field(account, ident).attrs);
    assert(account_field_text(leaf_field(account, ident)) =~= line_of(account, variants, span));
}

proof fn lemma_nested(
    account: Json,
    ident: Seq<char>,
    nested: Seq<char>,
    variants: Seq<VariantView>,
    span: Span,
)
    requires
        array_at(account, "accounts"@) is Some,
        item_name(snake_case(name_in(account, span))) == Ok::<Seq<char>, FailureView>(ident),
        item_name(
            struct_for(
                variants,
                type_case(name_in(account, span)),
                array_at(account, "accounts"@)->Some_0,
                span,
            ),
        ) == Ok::<Seq<char>, FailureView>(nested),
    ensures
        account_field_text(
            AccountFieldView {
                name: ident,
                ty: "anchor_lang::Nested<"@ + nested + ">"@,
                attrs: ""@,
            },
        ) == line_of(account, variants, span),
{
    reveal_strlit("");
    reveal_strlit(">");
    reveal_strlit(",");
    reveal_strlit(">,");
    assert(">"@ + ","@ =~= ">,"@);
    assert(account_field_text(
        AccountFieldView {
            name: ident,
            ty: "anchor_lang::Nested<"@ + nested + ">"@,
            attrs: ""@,
        },
    ) =~= line_of(account, variants, span));
}

proof fn lemma_fields_built(
    accounts: Seq<Json>,
    n: int,
    reserved: Seq<Seq<char>>,
    state: GroupsView,
    span: Span,
)
    requires
        0 <= n <= accounts.len(),
        plain(accounts, span),
        all_built(state, span),
        collected_fields(accounts, n, reserved, state, span) is Ok,
        fields_leave_names(accounts, n, reserved, state, span),
    ensures
        ({
            let (fields, after) = collected_fields(accounts, n, reserved, state, span)->Ok_0;
            &&& all_built(after, span)
            &&& continues(state, after)
            &&& written_for(fields, accounts.take(n), after.variants, span)
        }),
    decreases accounts, n,
{
    let (fields, after) = collected_fields(accounts, n, reserved, state, span)->Ok_0;
    if n > 0 {
        lemma_fields_built(accounts, n - 1, reserved, state, span);
        let (earlier, before) = collected_fields(accounts, n - 1, reserved, state, span)->Ok_0;
        let account = accounts[n - 1];
        let name = name_in(account, span);
        let ident = item_name(snake_case(name))->Ok_0;
        assert(plain_one(account, span));
        assert(fields.drop_last() =~= earlier);
        if array_at(account, "accounts"@) is Some {
            let inner = array_at(account, "accounts"@)->Some_0;
            assert(decreases_to!(accounts => accounts[n - 1]));
            lemma_array_smaller(account, "accounts"@);
            lemma_group_built(type_case(name), inner, reserved, before, span);
            let generated = collected_group(type_case(name), inner, reserved, before, span)->Ok_0.0;
            lemma_nested(account, ident, item_name(generated)->Ok_0, after.variants, span);
            lemma_written_stays(
                earlier,
                accounts.take(n - 1),
                before.variants,
                after.variants,
                span,
            );
            assert(after.variants.take(state.variants.len() as int) =~= after.variants.take(
                before.variants.len() as int,
            ).take(state.variants.len() as int));
        } else {
            lemma_leaf(account, ident, after.variants, span);
        }
        assert forall|i: int| 0 <= i < fields.len() implies account_field_text(#[trigger] fields[i])
            == line_of(accounts.take(n)[i], after.variants, span) && known(
            accounts.take(n)[i],
            after.variants,
            span,
        ) by {
            if i < n - 1 {
                assert(fields[i] == earlier[i]);
                assert(accounts.take(n)[i] == accounts.take(n - 1)[i]);
            }
        }
    } else {
        assert(after.variants.take(state.variants.len() as int) =~= state.variants);
    }
}

/// Collecting a group leaves a struct for it and for every group before it.
pub proof fn lemma_group_built(
    group_name: Seq<char>,
    accounts: Seq<Json>,
    reserved: Seq<Seq<char>>,
    state: GroupsView,
    span: Span,
)
    requires
        plain(accounts, span),
        all_built(state, span),
        collected_group(group_name, accounts, reserved, state, span) is Ok,
        leaves_names(group_name, accounts, reserved, state, span),
    ensures
        ({
            let (generated, after) = collected_group(
                group_name,
                accounts,
                reserved,
                state,
                span,
            )->Ok_0;
            &&& group_signature(accounts, span) is Ok
            &&& all_built(after, span)
            &&& continues(state, after)
            &&& find_variant(after.variants, group_name, group_signature(accounts, span)->Ok_0)
                == Some(generated)
        }),
    decreases accounts, accounts.len() + 1,
{
    let signature = group_signature(accounts, span)->Ok_0;
    let (generated, after) = collected_group(group_name, accounts, reserved, state, span)->Ok_0;
    if find_variant(state.variants, group_name, signature) is None {
        let count = accounts.len() as int;
        lemma_fields_built(accounts, count, reserved, state, span);
        let (fields, inner) = collected_fields(accounts, count, reserved, state, span)->Ok_0;
        assert(accounts.take(count) =~= accounts);
        let group = GroupView { name: generated, fields };
        let variant = VariantView { group: group_name, signature, generated_name: generated };
        assert(after.variants == inner.variants.push(variant));
        assert(after.variants.take(inner.variants.len() as int) =~= inner.variants);
        assert(after.variants.take(state.variants.len() as int) =~= state.variants);
        lemma_place(inner.groups, generated);
        assert(with_group(inner.groups, group)[place_of(inner.groups, generated)] == group);
        assert(after.groups.contains(group));
        lemma_written_stays(fields, accounts, inner.variants, after.variants, span);
        assert(stands_for(after, variant, group, accounts, span));
        assert forall|i: int| 0 <= i < after.variants.len() implies is_built(
            after,
            #[trigger] after.variants[i],
            span,
        ) by {
            if i < inner.variants.len() {
                let one = inner.variants[i];
                assert(after.variants[i] == one);
                assert(is_built(inner, one, span));
                let (kept, list) = choose|kept: GroupView, list: Seq<Json>| #[trigger]
                    stands_for(inner, one, kept, list, span);
                let k = choose|k: int| 0 <= k < inner.groups.len() && inner.groups[k] == kept;
                assert(group_names(inner.groups)[k] == kept.name);
                lemma_with_group_keeps(inner.groups, group, kept);
                lemma_written_stays(kept.fields, list, inner.variants, after.variants, span);
                assert(stands_for(after, one, kept, list, span));
            }
        }
        lemma_collected_again(group_name, accounts, reserved, state, span);
        if find_variant(after.variants, group_name, signature) is None {
            lemma_more_groups(accounts, count, reserved, after, span);
        }
    } else {
        assert(after.variants.take(state.variants.len() as int) =~= state.variants);
    }
}

proof fn lemma_more_groups(
    accounts: Seq<Json>,
    n: int,
    reserved: Seq<Seq<char>>,
    state: GroupsView,
    span: Span,
)
    requires
        0 <= n <= accounts.len(),
        collected_fields(accounts, n, reserved, state, span) is Ok,
    ensures
        collected_fields(accounts, n, reserved, state, span)->Ok_0.1.variants.len()
            >= state.variants.len(),
    decreases accounts, n,
{
    if n > 0 {
        lemma_more_groups(accounts, n - 1, reserved, state, span);
        let before = collected_fields(accounts, n - 1, reserved, state, span)->Ok_0.1;
        let account = accounts[n - 1];
        if array_at(account, "accounts"@) is Some {
            assert(decreases_to!(accounts => accounts[n - 1]));
            lemma_array_smaller(account, "accounts"@);
            let name = name_in(account, span);
            let inner = array_at(account, "accounts"@)->Some_0;
            if find_variant(
                before.variants,
                type_case(name),
                group_signature(inner, span)->Ok_0,
            ) is None {
                lemma_more_groups(inner, inner.len() as int, reserved, before, span);
            }
        }
    }
}

// ---------------------------------------------------------------------------
// Signatures
// ---------------------------------------------------------------------------

proof fn lemma_name_ends(a: Seq<char>, b: Seq<char>, x: Seq<char>, y: Seq<char>)
    requires
        !a.contains(':'),
        !b.contains(':'),
        a + seq![':'] + x == b + seq![':'] + y,
    ensures
        a == b,
        x == y,
{
    let left = a + seq![':'] + x;
    let right = b + seq![':'] + y;
    if a.len() < b.len() {
        assert(left[a.len() as int] == ':');
        assert(right[a.len() as int] == b[a.len() as int]);
        assert(b.contains(b[a.len() as int]));
    }
    if b.len() < a.len() {
        assert(right[b.len() as int] == ':');
        assert(left[b.len() as int] == a[b.len() as int]);
        assert(a.contains(a[b.len() as int]));
    }
    assert(left.take(a.len() as int) =~= a);
    assert(right.take(b.len() as int) =~= b);
    assert(left.skip(a.len() as int + 1) =~= x);
    assert(right.skip(b.len() as int + 1) =~= y);
}

proof fn lemma_same_start(a: Seq<char>, x: Seq<char>, y: Seq<char>)
    requires
        a + x == a + y,
    ensures
        x == y,
{
    assert((a + x).skip(a.len() as int) =~= x);
    assert((a + y).skip(a.len() as int) =~= y);
}

proof fn lemma_same_flag(a: bool, b: bool, x: Seq<char>, y: Seq<char>)
    requires
        flag(a) + x == flag(b) + y,
    ensures
        a == b,
        x == y,
{
    reveal_strlit("true");
    reveal_strlit("false");
    assert((flag(a) + x)[0] == flag(a)[0]);
    assert((flag(b) + y)[0] == flag(b)[0]);
    lemma_same_start(flag(a), x, y);
}

/// The signatures of the accounts from a place on, each with a semicolon behind it.
spec fn signatures_from(accounts: Seq<Json>, i: int, span: Span) -> Seq<char> {
    terminated(collected(signature_results(accounts, span))->Ok_0.skip(i), ";"@)
}

spec fn signature_of(account: Json, span: Span) -> Seq<char> {
    account_signature(account, span)->Ok_0
}

proof fn lemma_signatures_from(accounts: Seq<Json>, i: int, span: Span)
    requires
        0 <= i <= accounts.len(),
        group_signature(accounts, span) is Ok,
    ensures
        i == accounts.len() ==> signatures_from(accounts, i, span) == Seq::<char>::empty(),
        i < accounts.len() ==> account_signature(accounts[i], span) is Ok && signatures_from(
            accounts,
            i,
            span,
        ) == signature_of(accounts[i], span) + seq![';'] + signatures_from(accounts, i + 1, span),
        i == 0 ==> group_signature(accounts, span)->Ok_0 == signatures_from(accounts, 0, span),
{
    reveal_strlit(";");
    let results = signature_results(accounts, span);
    let list = collected(results)->Ok_0;
    lemma_collected_len(results);
    let ended = |part: Seq<char>| part + ";"@;
    if i < accounts.len() {
        assert(results[i] == account_signature(accounts[i], span));
        lemma_concat_front(list.skip(i).map_values(ended));
        assert(list.skip(i).map_values(ended).skip(1) =~= list.skip(i + 1).map_values(ended));
        assert(list.skip(i).map_values(ended)[0] == list[i] + ";"@);
        assert(";"@ =~= seq![';']);
    } else {
        assert(list.skip(i).map_values(ended) =~= Seq::<Seq<char>>::empty());
    }
    if i == 0 {
        assert(list.skip(0) =~= list);
    }
}

/// What a signature says of an account.
pub open spec fn same_account(a: Json, b: Json, span: Span) -> bool {
    &&& name_in(a, span) == name_in(b, span)
    &&& array_at(a, "accounts"@) is Some <==> array_at(b, "accounts"@) is Some
    &&& array_at(a, "accounts"@) is Some ==> group_signature(
        array_at(a, "accounts"@)->Some_0,
        span,
    ) == group_signature(array_at(b, "accounts"@)->Some_0, span)
    &&& array_at(a, "accounts"@) is None ==> {
        &&& has_flag(a, "writable"@, "isMut"@) == has_flag(b, "writable"@, "isMut"@)
        &&& has_flag(a, "signer"@, "isSigner"@) == has_flag(b, "signer"@, "isSigner"@)
        &&& is_optional(a) == is_optional(b)
    }
}

spec fn ends_or_goes_on(text: Seq<char>) -> bool {
    text.len() == 0 || text[0] == ';'
}

proof fn lemma_signature_starts(account: Json, span: Span)
    requires
        account_signature(account, span) is Ok,
    ensures
        signature_of(account, span).len() > 0,
        signature_of(account, span)[0] == (if array_at(account, "accounts"@) is Some {
            'n'
        } else {
            'l'
        }),
{
    reveal_strlit("nested:");
    reveal_strlit("leaf:");
}

spec fn leaf_words(name: Seq<char>, flags: (bool, bool, bool)) -> Seq<char> {
    "leaf:"@ + name + ":"@ + flag(flags.0) + ":"@ + flag(flags.1) + ":"@ + flag(flags.2)
}

spec fn leaf_steps(name: Seq<char>, flags: (bool, bool, bool), rest: Seq<char>) -> Seq<char> {
    let third = flag(flags.2) + (seq![';'] + rest);
    let second = flag(flags.1) + (seq![':'] + third);
    "leaf:"@ + (name + seq![':'] + (flag(flags.0) + (seq![':'] + second)))
}

proof fn lemma_leaf_steps(name: Seq<char>, flags: (bool, bool, bool), rest: Seq<char>)
    ensures
        leaf_words(name, flags) + seq![';'] + rest == leaf_steps(name, flags, rest),
{
    reveal_strlit(":");
    assert(":"@ =~= seq![':']);
    assert(leaf_words(name, flags) + seq![';'] + rest =~= leaf_steps(name, flags, rest));
}

proof fn lemma_leaf_words(
    na: Seq<char>,
    nb: Seq<char>,
    fa: (bool, bool, bool),
    fb: (bool, bool, bool),
    x: Seq<char>,
    y: Seq<char>,
)
    requires
        !na.contains(':'),
        !nb.contains(':'),
        leaf_words(na, fa) + seq![';'] + x == leaf_words(nb, fb) + seq![';'] + y,
    ensures
        na == nb,
        fa == fb,
        x == y,
{
    lemma_leaf_steps(na, fa, x);
    lemma_leaf_steps(nb, fb, y);
    let a3 = flag(fa.2) + (seq![';'] + x);
    let b3 = flag(fb.2) + (seq![';'] + y);
    let a2 = flag(fa.1) + (seq![':'] + a3);
    let b2 = flag(fb.1) + (seq![':'] + b3);
    let a1 = flag(fa.0) + (seq![':'] + a2);
    let b1 = flag(fb.0) + (seq![':'] + b2);
    lemma_same_start("leaf:"@, na + seq![':'] + a1, nb + seq![':'] + b1);
    lemma_name_ends(na, nb, a1, b1);
    lemma_same_flag(fa.0, fb.0, seq![':'] + a2, seq![':'] + b2);
    lemma_same_start(seq![':'], a2, b2);
    lemma_same_flag(fa.1, fb.1, seq![':'] + a3, seq![':'] + b3);
    lemma_same_start(seq![':'], a3, b3);
    lemma_same_flag(fa.2, fb.2, seq![';'] + x, seq![';'] + y);
    lemma_same_start(seq![';'], x, y);
}

proof fn lemma_nested_words(
    na: Seq<char>,
    nb: Seq<char>,
    ia: Seq<char>,
    ib: Seq<char>,
    x: Seq<char>,
    y: Seq<char>,
)
    requires
        !na.contains(':'),
        !nb.contains(':'),
        ("nested:"@ + na + ":"@ + ia) + seq![';'] + x == ("nested:"@ + nb + ":"@ + ib) + seq![';']
            + y,
    ensures
        na == nb,
        ia + (seq![';'] + x) == ib + (seq![';'] + y),
{
    reveal_strlit(":");
    assert(":"@ =~= seq![':']);
    let a1 = ia + (seq![';'] + x);
    let b1 = ib + (seq![';'] + y);
    assert(("nested:"@ + na + ":"@ + ia) + seq![';'] + x =~= "nested:"@ + (na + seq![':'] + a1));
    assert(("nested:"@ + nb + ":"@ + ib) + seq![';'] + y =~= "nested:"@ + (nb + seq![':'] + b1));
    lemma_same_start("nested:"@, na + seq![':'] + a1, nb + seq![':'] + b1);
    lemma_name_ends(na, nb, a1, b1);
}

proof fn lemma_leaf_told(a: Json, b: Json, x: Seq<char>, y: Seq<char>, span: Span)
    requires
        plain_one(a, span),
        plain_one(b, span),
        array_at(a, "accounts"@) is None,
        array_at(b, "accounts"@) is None,
        account_signature(a, span) is Ok,
        account_signature(b, span) is Ok,
        signature_of(a, span) + seq![';'] + x == signature_of(b, span) + seq![';'] + y,
    ensures
        same_account(a, b, span),
        x == y,
{
    lemma_leaf_words(
        name_in(a, span),
        name_in(b, span),
        (
            has_flag(a, "writable"@, "isMut"@),
            has_flag(a, "signer"@, "isSigner"@),
            is_optional(a),
        ),
        (
            has_flag(b, "writable"@, "isMut"@),
            has_flag(b, "signer"@, "isSigner"@),
            is_optional(b),
        ),
        x,
        y,
    );
}

proof fn lemma_signatures_told(
    a: Seq<Json>,
    b: Seq<Json>,
    i: int,
    x: Seq<char>,
    y: Seq<char>,
    span: Span,
)
    requires
        plain(a, span),
        plain(b, span),
        0 <= i <= a.len(),
        i <= b.len(),
        group_signature(a, span) is Ok,
        group_signature(b, span) is Ok,
        ends_or_goes_on(x),
        ends_or_goes_on(y),
        signatures_from(a, i, span) + x == signatures_from(b, i, span) + y,
    ensures
        a.len() == b.len(),
        signatures_from(a, i, span) == signatures_from(b, i, span),
        x == y,
        forall|k: int|
            i <= k < a.len() ==> same_account(#[trigger] a[k], b[k], span),
    decreases a, a.len() - i,
{
    let left = signatures_from(a, i, span) + x;
    let right = signatures_from(b, i, span) + y;
    lemma_signatures_from(a, i, span);
    lemma_signatures_from(b, i, span);
    if i < a.len() {
        lemma_signature_starts(a[i], span);
        assert(left[0] == signature_of(a[i], span)[0]);
    } else {
        assert(left =~= x);
    }
    if i < b.len() {
        lemma_signature_starts(b[i], span);
        assert(right[0] == signature_of(b[i], span)[0]);
    } else {
        assert(right =~= y);
    }
    if i < a.len() && i < b.len() {
        assert(plain_one(a[i], span));
        assert(plain_one(b[i], span));
        let semicolon = seq![';'];
        let xs = signatures_from(a, i + 1, span) + x;
        let ys = signatures_from(b, i + 1, span) + y;
        assert(left =~= signature_of(a[i], span) + semicolon + xs);
        assert(right =~= signature_of(b[i], span) + semicolon + ys);
        if array_at(a[i], "accounts"@) is None {
            lemma_leaf_told(a[i], b[i], xs, ys, span);
        } else {
            let ia = array_at(a[i], "accounts"@)->Some_0;
            let ib = array_at(b[i], "accounts"@)->Some_0;
            assert(decreases_to!(a => a[i]));
            lemma_array_smaller(a[i], "accounts"@);
            lemma_signatures_from(ia, 0, span);
            lemma_signatures_from(ib, 0, span);
            lemma_nested_words(
                name_in(a[i], span),
                name_in(b[i], span),
                signatures_from(ia, 0, span),
                signatures_from(ib, 0, span),
                xs,
                ys,
            );
            lemma_signatures_told(ia, ib, 0, semicolon + xs, semicolon + ys, span);
            lemma_same_start(semicolon, xs, ys);
        }
        lemma_signatures_told(a, b, i + 1, x, y, span);
    }
}

/// Accounts with the same signature have the same fields.
pub proof fn lemma_same_fields(
    a: Seq<Json>,
    b: Seq<Json>,
    variants: Seq<VariantView>,
    span: Span,
)
    requires
        plain(a, span),
        plain(b, span),
        group_signature(a, span) is Ok,
        group_signature(a, span) == group_signature(b, span),
    ensures
        a.len() == b.len(),
        forall|i: int|
            0 <= i < a.len() ==> line_of(#[trigger] a[i], variants, span) == line_of(
                b[i],
                variants,
                span,
            ),
{
    lemma_signatures_from(a, 0, span);
    lemma_signatures_from(b, 0, span);
    lemma_signatures_told(a, b, 0, Seq::empty(), Seq::empty(), span);
    assert forall|i: int| 0 <= i < a.len() implies line_of(#[trigger] a[i], variants, span)
        == line_of(b[i], variants, span) by {
        assert(same_account(a[i], b[i], span));
    }
}

} // verus!
