//! Groups of accounts in an interface description: each becomes an accounts struct,
//! and groups that agree share one.

use crate::failure::{
    code_view, collected, lemma_collected_len, lemma_collected_prefix, lemma_stepped_prefix,
    stepped, Failure, FailureView, Span,
};
use crate::json::{array_at, json_str, lemma_array_smaller, member_of, required_text, Json};
use crate::names::{item_name, new_ident, snake_case, to_snake_case, to_type_name, type_case};
use crate::text::{
    concat_all, decimal, flag, flag_text, is_less, lemma_decimal_differs, lemma_text_less_total,
    lemma_text_less_transitive, same_text, terminated, text_less, texts, wide_decimal_text,
};
use vstd::prelude::*;

verus! {

/// A field of an accounts struct: its name, its type and its attributes, as text.
pub struct DeclareAccountField {
    pub name: String,
    pub ty: String,
    pub attrs: String,
}

/// A field, as sequences of characters.
pub struct AccountFieldView {
    pub name: Seq<char>,
    pub ty: Seq<char>,
    pub attrs: Seq<char>,
}

impl View for DeclareAccountField {
    type V = AccountFieldView;

    open spec fn view(&self) -> AccountFieldView {
        AccountFieldView { name: self.name@, ty: self.ty@, attrs: self.attrs@ }
    }
}

/// A field as text.
pub open spec fn account_field_text(field: AccountFieldView) -> Seq<char> {
    field.attrs + " pub "@ + field.name + ": "@ + field.ty + ","@
}

impl DeclareAccountField {
    /// Writes the field.
    pub fn to_tokens(&self) -> (out: String)
        ensures
            out@ == account_field_text(self@),
    {
        self.attrs.clone().concat(" pub ").concat(self.name.as_str()).concat(": ").concat(
            self.ty.as_str(),
        ).concat(",")
    }
}

/// An accounts struct.
pub struct AccountGroup {
    pub name: String,
    pub fields: Vec<DeclareAccountField>,
}

/// An accounts struct, as sequences.
pub struct GroupView {
    pub name: Seq<char>,
    pub fields: Seq<AccountFieldView>,
}

/// Fields, as sequences of characters.
pub open spec fn fields_view(fields: Seq<DeclareAccountField>) -> Seq<AccountFieldView> {
    fields.map_values(|field: DeclareAccountField| field@)
}

impl View for AccountGroup {
    type V = GroupView;

    open spec fn view(&self) -> GroupView {
        GroupView { name: self.name@, fields: fields_view(self.fields@) }
    }
}

/// The name of the struct for a group with a signature.
pub struct DeclareAccountGroupVariant {
    pub group: String,
    pub signature: String,
    pub generated_name: String,
}

/// The name of the struct for a group with a signature, as sequences of characters.
pub struct VariantView {
    pub group: Seq<char>,
    pub signature: Seq<char>,
    pub generated_name: Seq<char>,
}

impl View for DeclareAccountGroupVariant {
    type V = VariantView;

    open spec fn view(&self) -> VariantView {
        VariantView {
            group: self.group@,
            signature: self.signature@,
            generated_name: self.generated_name@,
        }
    }
}

/// The accounts structs, ordered by name, and the groups that they stand for.
pub struct AccountGroups {
    pub groups: Vec<AccountGroup>,
    pub variants: Vec<DeclareAccountGroupVariant>,
}

/// The accounts structs and groups, as sequences.
pub struct GroupsView {
    pub groups: Seq<GroupView>,
    pub variants: Seq<VariantView>,
}

/// Accounts structs, as sequences.
pub open spec fn groups_view(groups: Seq<AccountGroup>) -> Seq<GroupView> {
    groups.map_values(|group: AccountGroup| group@)
}

/// Groups, as sequences.
pub open spec fn variants_view(variants: Seq<DeclareAccountGroupVariant>) -> Seq<VariantView> {
    variants.map_values(|variant: DeclareAccountGroupVariant| variant@)
}

impl View for AccountGroups {
    type V = GroupsView;

    open spec fn view(&self) -> GroupsView {
        GroupsView {
            groups: groups_view(self.groups@),
            variants: variants_view(self.variants@),
        }
    }
}

// ---------------------------------------------------------------------------
// Signatures
// ---------------------------------------------------------------------------

/// Whether an account has a flag, under its name or else under its older name.
pub open spec fn has_flag(account: Json, key: Seq<char>, older: Seq<char>) -> bool {
    match member_of(account, key) {
        Some(value) => value == Json::Bool(true),
        None => member_of(account, older) == Some(Json::Bool(true)),
    }
}

/// Whether an account may be absent.
pub open spec fn is_optional(account: Json) -> bool {
    member_of(account, "optional"@) == Some(Json::Bool(true))
}

fn flag_of(value: Option<&Json>) -> (set: bool)
    ensures
        set == (value matches Some(value) && *value == Json::Bool(true)),
{
    match value {
        Some(Json::Bool(set)) => *set,
        _ => false,
    }
}

fn read_flag(account: &Json, key: &str, older: &str) -> (set: bool)
    ensures
        set == has_flag(*account, key@, older@),
{
    match account.get(key) {
        Some(value) => flag_of(Some(value)),
        None => flag_of(account.get(older)),
    }
}

/// The signature of a list of accounts: that of each, with a semicolon behind it.
pub open spec fn group_signature(accounts: Seq<Json>, span: Span) -> Result<Seq<char>, FailureView>
    decreases accounts, 1int,
{
    match collected(signature_results(accounts, span)) {
        Err(failure) => Err(failure),
        Ok(signatures) => Ok(terminated(signatures, ";"@)),
    }
}

/// What the signature of each account in a list is.
pub open spec fn signature_results(accounts: Seq<Json>, span: Span) -> Seq<
    Result<Seq<char>, FailureView>,
>
    decreases accounts, 0int,
{
    Seq::new(
        accounts.len(),
        |i: int|
            if 0 <= i < accounts.len() {
                account_signature(accounts[i], span)
            } else {
                Ok(Seq::empty())
            },
    )
}

/// The signature of an account: its name and its flags, or its name and the signature
/// of the accounts that it groups.
pub open spec fn account_signature(account: Json, span: Span) -> Result<Seq<char>, FailureView>
    decreases account, 2int,
{
    match required_text(account, "name"@, span) {
        Err(failure) => Err(failure),
        Ok(name) => if array_at(account, "accounts"@) is Some {
            proof {
                lemma_array_smaller(account, "accounts"@);
            }
            match group_signature(array_at(account, "accounts"@)->Some_0, span) {
                Err(failure) => Err(failure),
                Ok(nested) => Ok("nested:"@ + name + ":"@ + nested),
            }
        } else {
            Ok(
                "leaf:"@ + name + ":"@ + flag(has_flag(account, "writable"@, "isMut"@)) + ":"@
                    + flag(has_flag(account, "signer"@, "isSigner"@)) + ":"@ + flag(
                    is_optional(account),
                ),
            )
        },
    }
}

proof fn lemma_terminated_push(parts: Seq<Seq<char>>, part: Seq<char>, sep: Seq<char>)
    ensures
        terminated(parts.push(part), sep) == terminated(parts, sep) + part + sep,
{
    let ended = |part: Seq<char>| part + sep;
    assert(parts.push(part).map_values(ended).drop_last() == parts.map_values(ended));
    assert(terminated(parts.push(part), sep) =~= terminated(parts, sep) + part + sep);
}

/// Writes the signature of a list of accounts.
pub fn declare_account_group_signature(accounts: &Vec<Json>, span: Span) -> (out: Result<
    String,
    Failure,
>)
    ensures
        code_view(out) == group_signature(accounts@, span),
    decreases accounts@,
{
    let mut signature = String::new();
    let ghost results = signature_results(accounts@, span);
    let ghost mut signatures: Seq<Seq<char>> = Seq::empty();
    assert(terminated(signatures, ";"@) == Seq::<char>::empty());
    for i in 0..accounts.len()
        invariant
            results == signature_results(accounts@, span),
            collected(results.take(i as int)) == Ok::<Seq<Seq<char>>, FailureView>(signatures),
            signature@ == terminated(signatures, ";"@),
    {
        assert(results.take(i + 1).drop_last() == results.take(i as int));
        assert(results[i as int] == account_signature(accounts@[i as int], span));
        assert(decreases_to!(accounts@ => accounts@[i as int]));
        match declare_account_signature(&accounts[i], span) {
            Ok(own) => {
                signature.append(own.as_str());
                signature.append(";");
                proof {
                    lemma_terminated_push(signatures, own@, ";"@);
                    signatures = signatures.push(own@);
                }
            },
            Err(failure) => {
                proof {
                    lemma_collected_prefix(results, i + 1);
                }
                return Err(failure);
            },
        }
    }
    assert(results.take(accounts@.len() as int) == results);
    Ok(signature)
}

/// Writes the signature of an account.
pub fn declare_account_signature(account: &Json, span: Span) -> (out: Result<String, Failure>)
    ensures
        code_view(out) == account_signature(*account, span),
    decreases account,
{
    let name = match json_str(account, "name", span) {
        Ok(name) => name,
        Err(failure) => return Err(failure),
    };
    if let Some(nested) = account.array_at("accounts") {
        proof {
            lemma_array_smaller(*account, "accounts"@);
        }
        return match declare_account_group_signature(nested, span) {
            Ok(signature) => Ok(
                "nested:".to_owned().concat(name).concat(":").concat(signature.as_str()),
            ),
            Err(failure) => Err(failure),
        };
    }
    let writable = read_flag(account, "writable", "isMut");
    let signer = read_flag(account, "signer", "isSigner");
    let optional = flag_of(account.get("optional"));
    Ok(
        "leaf:".to_owned().concat(name).concat(":").concat(flag_text(writable).as_str()).concat(
            ":",
        ).concat(flag_text(signer).as_str()).concat(":").concat(flag_text(optional).as_str()),
    )
}

// ---------------------------------------------------------------------------
// Names
// ---------------------------------------------------------------------------

/// The names of accounts structs.
pub open spec fn group_names(groups: Seq<GroupView>) -> Seq<Seq<char>> {
    groups.map_values(|group: GroupView| group.name)
}

/// Whether a name is neither reserved nor that of an accounts struct.
pub open spec fn is_free(
    name: Seq<char>,
    reserved: Seq<Seq<char>>,
    groups: Seq<GroupView>,
) -> bool {
    !group_names(groups).contains(name) && !reserved.contains(name)
}

/// Whether a number is the first, from two on, that makes a name free.
pub open spec fn first_free(
    base: Seq<char>,
    reserved: Seq<Seq<char>>,
    groups: Seq<GroupView>,
    suffix: nat,
) -> bool {
    &&& suffix >= 2
    &&& is_free(base + decimal(suffix), reserved, groups)
    &&& forall|k: nat|
        2 <= k < suffix ==> !is_free(base + #[trigger] decimal(k), reserved, groups)
}

/// The name of a new accounts struct: the given one, or the given one with the first
/// number behind it that makes it free.
pub open spec fn next_name(
    base: Seq<char>,
    reserved: Seq<Seq<char>>,
    groups: Seq<GroupView>,
) -> Seq<char> {
    if is_free(base, reserved, groups) {
        base
    } else {
        base + decimal(choose|suffix: nat| first_free(base, reserved, groups, suffix))
    }
}

proof fn lemma_suffix_exists(
    base: Seq<char>,
    reserved: Seq<Seq<char>>,
    groups: Seq<GroupView>,
    suffix: nat,
)
    requires
        suffix >= 2,
        forall|k: nat|
            2 <= k < suffix ==> !is_free(base + #[trigger] decimal(k), reserved, groups),
    ensures
        suffix <= 2 + group_names(groups).len() + reserved.len(),
{
    let all = group_names(groups) + reserved;
    let tried = Seq::new((suffix - 2) as nat, |i: int| base + decimal((i + 2) as nat));
    assert(tried.no_duplicates()) by {
        assert forall|a: int, b: int|
            0 <= a < tried.len() && 0 <= b < tried.len() && a != b implies tried[a]
            != tried[b] by {
            let x = decimal((a + 2) as nat);
            let y = decimal((b + 2) as nat);
            lemma_decimal_differs((a + 2) as nat, (b + 2) as nat);
            if base + x == base + y {
                assert((base + x).skip(base.len() as int) == x);
                assert((base + y).skip(base.len() as int) == y);
            }
        }
    }
    tried.unique_seq_to_set();
    all.lemma_cardinality_of_set();
    assert(tried.to_set().subset_of(all.to_set())) by {
        assert forall|name: Seq<char>| tried.to_set().contains(name) implies all.to_set().contains(
            name,
        ) by {
            let i = choose|i: int| 0 <= i < tried.len() && tried[i] == name;
            let k = (i + 2) as nat;
            assert(!is_free(base + decimal(k), reserved, groups));
            if group_names(groups).contains(name) {
                let p = choose|p: int|
                    0 <= p < group_names(groups).len() && group_names(groups)[p] == name;
                assert(all[p] == name);
            } else {
                let p = choose|p: int| 0 <= p < reserved.len() && reserved[p] == name;
                assert(all[group_names(groups).len() + p] == name);
            }
        }
    }
    vstd::set_lib::lemma_len_subset(tried.to_set(), all.to_set());
}

fn is_free_name(name: &str, reserved: &Vec<String>, groups: &Vec<AccountGroup>) -> (free: bool)
    ensures
        free == is_free(name@, texts(reserved@), groups_view(groups@)),
{
    let ghost names = group_names(groups_view(groups@));
    for i in 0..groups.len()
        invariant
            names == group_names(groups_view(groups@)),
            forall|k: int| 0 <= k < i ==> (#[trigger] names[k]) != name@,
    {
        if same_text(groups[i].name.as_str(), name) {
            assert(names[i as int] == name@);
            return false;
        }
        assert(names[i as int] != name@);
    }
    !crate::text::contains_text(reserved, name)
}

/// Finds the name of a new accounts struct.
pub fn next_declare_account_group_name(
    base_name: &str,
    reserved_names: &Vec<String>,
    groups: &Vec<AccountGroup>,
) -> (out: String)
    ensures
        out@ == next_name(base_name@, texts(reserved_names@), groups_view(groups@)),
        is_free(out@, texts(reserved_names@), groups_view(groups@)),
{
    if is_free_name(base_name, reserved_names, groups) {
        return base_name.to_owned();
    }
    let ghost reserved = texts(reserved_names@);
    let ghost views = groups_view(groups@);
    let group_count: usize = groups.len();
    let reserved_count: usize = reserved_names.len();
    let mut suffix: u128 = 2;
    loop
        invariant
            reserved == texts(reserved_names@),
            views == groups_view(groups@),
            group_count == groups@.len(),
            reserved_count == reserved_names@.len(),
            suffix >= 2,
            !is_free(base_name@, reserved, views),
            forall|k: nat|
                2 <= k < suffix ==> !is_free(base_name@ + #[trigger] decimal(k), reserved, views),
        decreases 3 + group_count + reserved_count - suffix,
    {
        proof {
            lemma_suffix_exists(base_name@, reserved, views, suffix as nat);
        }
        let candidate = base_name.to_owned().concat(wide_decimal_text(suffix).as_str());
        if is_free_name(candidate.as_str(), reserved_names, groups) {
            proof {
                assert(first_free(base_name@, reserved, views, suffix as nat));
                let found = choose|k: nat| first_free(base_name@, reserved, views, k);
                assert(first_free(base_name@, reserved, views, found));
                if found < suffix {
                    assert(!is_free(base_name@ + decimal(found), reserved, views));
                }
                if found > suffix {
                    assert(!is_free(base_name@ + decimal(suffix as nat), reserved, views));
                }
            }
            return candidate;
        }
        suffix = suffix + 1;
    }
}

// ---------------------------------------------------------------------------
// Collecting groups
// ---------------------------------------------------------------------------

/// The first place in an ordered list whose name does not come before the given one.
pub open spec fn place_of(groups: Seq<GroupView>, name: Seq<char>) -> int
    decreases groups.len(),
{
    if groups.len() == 0 || !text_less(groups[0].name, name) {
        0
    } else {
        1 + place_of(groups.skip(1), name)
    }
}

/// The accounts structs with one more, in its place by name. One of that name is
/// replaced.
pub open spec fn with_group(groups: Seq<GroupView>, group: GroupView) -> Seq<GroupView> {
    let place = place_of(groups, group.name);
    if place < groups.len() && groups[place].name == group.name {
        groups.update(place, group)
    } else {
        groups.insert(place, group)
    }
}

/// The name of the struct for a group with a signature.
pub open spec fn find_variant(
    variants: Seq<VariantView>,
    group: Seq<char>,
    signature: Seq<char>,
) -> Option<Seq<char>>
    decreases variants.len(),
{
    if variants.len() == 0 {
        None
    } else if variants[0].group == group && variants[0].signature == signature {
        Some(variants[0].generated_name)
    } else {
        find_variant(variants.skip(1), group, signature)
    }
}

/// The field for an account that groups no others.
pub open spec fn leaf_field(account: Json, name: Seq<char>) -> AccountFieldView {
    let writable = has_flag(account, "writable"@, "isMut"@);
    let signer = has_flag(account, "signer"@, "isSigner"@);
    AccountFieldView {
        name,
        ty: if is_optional(account) {
            "Option<anchor_lang::accounts::UncheckedAccount>"@
        } else {
            "anchor_lang::accounts::UncheckedAccount"@
        },
        attrs: if writable && signer {
            "#[account(mut, signer)]"@
        } else if writable {
            "#[account(mut)]"@
        } else if signer {
            "#[account(signer)]"@
        } else {
            ""@
        },
    }
}

/// The fields for accounts and the accounts structs, with those for one more account
/// after those that it groups were collected.
pub open spec fn with_account(
    so_far: (Seq<AccountFieldView>, GroupsView),
    account: Json,
    reserved: Seq<Seq<char>>,
    span: Span,
) -> Result<(Seq<AccountFieldView>, GroupsView), FailureView>
    decreases account, 0int,
{
    match required_text(account, "name"@, span) {
        Err(failure) => Err(failure),
        Ok(name) => match item_name(snake_case(name)) {
            Err(failure) => Err(failure),
            Ok(ident) => if array_at(account, "accounts"@) is Some {
                proof {
                    lemma_array_smaller(account, "accounts"@);
                }
                match collected_group(
                    type_case(name),
                    array_at(account, "accounts"@)->Some_0,
                    reserved,
                    so_far.1,
                    span,
                ) {
                    Err(failure) => Err(failure),
                    Ok((generated, after)) => match item_name(generated) {
                        Err(failure) => Err(failure),
                        Ok(nested) => Ok(
                            (
                                so_far.0.push(
                                    AccountFieldView {
                                        name: ident,
                                        ty: "anchor_lang::Nested<"@ + nested + ">"@,
                                        attrs: ""@,
                                    },
                                ),
                                after,
                            ),
                        ),
                    },
                }
            } else {
                Ok((so_far.0.push(leaf_field(account, ident)), so_far.1))
            },
        },
    }
}

/// The fields for the first `n` accounts, with the accounts structs after those that
/// they group were collected.
pub open spec fn collected_fields(
    accounts: Seq<Json>,
    n: int,
    reserved: Seq<Seq<char>>,
    state: GroupsView,
    span: Span,
) -> Result<(Seq<AccountFieldView>, GroupsView), FailureView>
    decreases accounts, 2int,
{
    stepped((Seq::empty(), state), n, account_step(accounts, reserved, span))
}

/// The step for each of the accounts.
pub open spec fn account_step(
    accounts: Seq<Json>,
    reserved: Seq<Seq<char>>,
    span: Span,
) -> spec_fn((Seq<AccountFieldView>, GroupsView), int) -> Result<
    (Seq<AccountFieldView>, GroupsView),
    FailureView,
>
    decreases accounts, 1int,
{
    |so_far: (Seq<AccountFieldView>, GroupsView), i: int|
        if 0 <= i < accounts.len() {
            with_account(so_far, accounts[i], reserved, span)
        } else {
            Ok(so_far)
        }
}

/// The name of the struct for a group of accounts, and the accounts structs after it
/// was collected. A group that was collected before keeps its struct.
pub open spec fn collected_group(
    group_name: Seq<char>,
    accounts: Seq<Json>,
    reserved: Seq<Seq<char>>,
    state: GroupsView,
    span: Span,
) -> Result<(Seq<char>, GroupsView), FailureView>
    decreases accounts, 3int,
{
    match group_signature(accounts, span) {
        Err(failure) => Err(failure),
        Ok(signature) => match find_variant(state.variants, group_name, signature) {
            Some(existing) => Ok((existing, state)),
            None => {
                let generated = next_name(group_name, reserved, state.groups);
                match collected_fields(accounts, accounts.len() as int, reserved, state, span) {
                    Err(failure) => Err(failure),
                    Ok((fields, after)) => Ok(
                        (
                            generated,
                            GroupsView {
                                groups: with_group(
                                    after.groups,
                                    GroupView { name: generated, fields },
                                ),
                                variants: after.variants.push(
                                    VariantView {
                                        group: group_name,
                                        signature,
                                        generated_name: generated,
                                    },
                                ),
                            },
                        ),
                    ),
                }
            },
        },
    }
}

fn insert_group(groups: &mut Vec<AccountGroup>, group: AccountGroup)
    ensures
        groups_view(final(groups)@) == with_group(groups_view(old(groups)@), group@),
{
    let ghost views = groups_view(groups@);
    let mut i: usize = 0;
    assert(views.skip(0) == views);
    while i < groups.len() && is_less(groups[i].name.as_str(), group.name.as_str())
        invariant
            *groups == *old(groups),
            views == groups_view(groups@),
            i <= groups@.len(),
            place_of(views, group@.name) == i + place_of(views.skip(i as int), group@.name),
        decreases groups@.len() - i,
    {
        assert(views.skip(i as int).skip(1) == views.skip(i + 1));
        i = i + 1;
    }
    if i < groups.len() && same_text(groups[i].name.as_str(), group.name.as_str()) {
        groups.set(i, group);
        assert(groups_view(groups@) == views.update(i as int, group@));
    } else {
        groups.insert(i, group);
        assert(groups_view(groups@) == views.insert(i as int, group@));
    }
}

fn find_existing(
    variants: &Vec<DeclareAccountGroupVariant>,
    group: &str,
    signature: &str,
) -> (out: Option<String>)
    ensures
        crate::text::option_text(out) == find_variant(variants_view(variants@), group@, signature@),
{
    let ghost views = variants_view(variants@);
    assert(views.skip(0) == views);
    for i in 0..variants.len()
        invariant
            views == variants_view(variants@),
            find_variant(views, group@, signature@) == find_variant(
                views.skip(i as int),
                group@,
                signature@,
            ),
    {
        assert(views.skip(i as int).skip(1) == views.skip(i + 1));
        if same_text(variants[i].group.as_str(), group) && same_text(
            variants[i].signature.as_str(),
            signature,
        ) {
            return Some(variants[i].generated_name.clone());
        }
    }
    None
}

fn make_leaf_field(account: &Json, name: String) -> (out: DeclareAccountField)
    ensures
        out@ == leaf_field(*account, name@),
{
    let writable = read_flag(account, "writable", "isMut");
    let signer = read_flag(account, "signer", "isSigner");
    let ty = if flag_of(account.get("optional")) {
        "Option<anchor_lang::accounts::UncheckedAccount>"
    } else {
        "anchor_lang::accounts::UncheckedAccount"
    };
    let attrs = if writable && signer {
        "#[account(mut, signer)]"
    } else if writable {
        "#[account(mut)]"
    } else if signer {
        "#[account(signer)]"
    } else {
        ""
    };
    DeclareAccountField { name, ty: ty.to_owned(), attrs: attrs.to_owned() }
}

fn collect_fields(
    accounts: &Vec<Json>,
    reserved_names: &Vec<String>,
    state: &mut AccountGroups,
    span: Span,
) -> (out: Result<Vec<DeclareAccountField>, Failure>)
    ensures
        (match out {
            Ok(fields) => Ok::<(Seq<AccountFieldView>, GroupsView), FailureView>(
                (fields_view(fields@), final(state)@),
            ),
            Err(failure) => Err(failure@),
        }) == collected_fields(
            accounts@,
            accounts@.len() as int,
            texts(reserved_names@),
            old(state)@,
            span,
        ),
    decreases accounts@, accounts@.len(),
{
    let ghost start = state@;
    let ghost reserved = texts(reserved_names@);
    let ghost count = accounts@.len() as int;
    let mut fields: Vec<DeclareAccountField> = Vec::new();
    assert(fields_view(fields@) == Seq::<AccountFieldView>::empty());
    for i in 0..accounts.len()
        invariant
            start == old(state)@,
            reserved == texts(reserved_names@),
            count == accounts@.len(),
            collected_fields(accounts@, i as int, reserved, start, span) == Ok::<
                (Seq<AccountFieldView>, GroupsView),
                FailureView,
            >((fields_view(fields@), state@)),
    {
        let account = &accounts[i];
        let ghost before = fields_view(fields@);
        proof {
            if collected_fields(accounts@, i + 1, reserved, start, span) is Err {
                lemma_stepped_prefix(
                    (Seq::empty(), start),
                    i + 1,
                    count,
                    account_step(accounts@, reserved, span),
                );
            }
        }
        let name = match json_str(account, "name", span) {
            Ok(name) => name,
            Err(failure) => return Err(failure),
        };
        let ident = match new_ident(to_snake_case(name)) {
            Ok(ident) => ident,
            Err(failure) => return Err(failure),
        };
        if let Some(nested) = account.array_at("accounts") {
            proof {
                assert(decreases_to!(accounts@ => accounts@[i as int]));
                lemma_array_smaller(accounts@[i as int], "accounts"@);
            }
            let generated = match collect_declare_account_group(
                to_type_name(name).as_str(),
                nested,
                reserved_names,
                state,
                span,
            ) {
                Ok(generated) => generated,
                Err(failure) => return Err(failure),
            };
            let nested_ident = match new_ident(generated) {
                Ok(nested_ident) => nested_ident,
                Err(failure) => return Err(failure),
            };
            let field = DeclareAccountField {
                name: ident,
                ty: "anchor_lang::Nested<".to_owned().concat(nested_ident.as_str()).concat(">"),
                attrs: "".to_owned(),
            };
            fields.push(field);
            assert(fields_view(fields@) == before.push(field@));
        } else {
            let field = make_leaf_field(account, ident);
            fields.push(field);
            assert(fields_view(fields@) == before.push(field@));
        }
    }
    Ok(fields)
}

/// Collects a group of accounts, and those that it groups in turn. Returns the name of
/// its accounts struct. After a failure the state holds part of the groups and is of no
/// further use.
pub fn collect_declare_account_group(
    group_name: &str,
    accounts: &Vec<Json>,
    reserved_names: &Vec<String>,
    state: &mut AccountGroups,
    span: Span,
) -> (out: Result<String, Failure>)
    ensures
        (match out {
            Ok(name) => Ok::<(Seq<char>, GroupsView), FailureView>((name@, final(state)@)),
            Err(failure) => Err(failure@),
        }) == collected_group(
            group_name@,
            accounts@,
            texts(reserved_names@),
            old(state)@,
            span,
        ),
    decreases accounts@, accounts@.len() + 1,
{
    let signature = match declare_account_group_signature(accounts, span) {
        Ok(signature) => signature,
        Err(failure) => return Err(failure),
    };
    if let Some(existing) = find_existing(&state.variants, group_name, signature.as_str()) {
        return Ok(existing);
    }
    let generated = next_declare_account_group_name(group_name, reserved_names, &state.groups);
    let fields = match collect_fields(accounts, reserved_names, state, span) {
        Ok(fields) => fields,
        Err(failure) => return Err(failure),
    };
    let ghost before = variants_view(state.variants@);
    insert_group(&mut state.groups, AccountGroup { name: generated.clone(), fields });
    let variant = DeclareAccountGroupVariant {
        group: group_name.to_owned(),
        signature,
        generated_name: generated.clone(),
    };
    state.variants.push(variant);
    assert(variants_view(state.variants@) == before.push(variant@));
    Ok(generated)
}

// ---------------------------------------------------------------------------
// Laws
// ---------------------------------------------------------------------------

/// There is a smallest number that makes a name free.
pub proof fn lemma_smallest_suffix(
    base: Seq<char>,
    reserved: Seq<Seq<char>>,
    groups: Seq<GroupView>,
    suffix: nat,
) -> (found: nat)
    requires
        suffix >= 2,
        forall|k: nat|
            2 <= k < suffix ==> !is_free(base + #[trigger] decimal(k), reserved, groups),
    ensures
        first_free(base, reserved, groups, found),
    decreases 3 + groups.len() + reserved.len() - suffix,
{
    lemma_suffix_exists(base, reserved, groups, suffix);
    if is_free(base + decimal(suffix), reserved, groups) {
        suffix
    } else {
        lemma_smallest_suffix(base, reserved, groups, suffix + 1)
    }
}

/// The name of a new accounts struct is neither reserved nor taken.
pub proof fn lemma_next_name_free(
    base: Seq<char>,
    reserved: Seq<Seq<char>>,
    groups: Seq<GroupView>,
)
    ensures
        is_free(next_name(base, reserved, groups), reserved, groups),
{
    if !is_free(base, reserved, groups) {
        let found = lemma_smallest_suffix(base, reserved, groups, 2);
        assert(first_free(base, reserved, groups, found));
        let chosen = choose|suffix: nat| first_free(base, reserved, groups, suffix);
        assert(first_free(base, reserved, groups, chosen));
    }
}

/// Whether accounts structs are ordered by name, each name once.
pub open spec fn is_ordered(groups: Seq<GroupView>) -> bool {
    forall|i: int, j: int|
        0 <= i < j < groups.len() ==> text_less(
            (#[trigger] groups[i]).name,
            (#[trigger] groups[j]).name,
        )
}

/// Whether a state holds what collecting builds up: ordered accounts structs, none with
/// a reserved name, and one for each group that was collected.
pub open spec fn is_collection(state: GroupsView, reserved: Seq<Seq<char>>) -> bool {
    &&& is_ordered(state.groups)
    &&& forall|i: int|
        0 <= i < state.groups.len() ==> !reserved.contains((#[trigger] state.groups[i]).name)
    &&& forall|i: int|
        0 <= i < state.variants.len() ==> group_names(state.groups).contains(
            (#[trigger] state.variants[i]).generated_name,
        )
}

/// A group goes behind all with a lesser name.
pub proof fn lemma_place(groups: Seq<GroupView>, name: Seq<char>)
    ensures
        0 <= place_of(groups, name) <= groups.len(),
        forall|i: int|
            0 <= i < place_of(groups, name) ==> text_less((#[trigger] groups[i]).name, name),
        place_of(groups, name) < groups.len() ==> !text_less(
            groups[place_of(groups, name)].name,
            name,
        ),
    decreases groups.len(),
{
    if groups.len() > 0 && text_less(groups[0].name, name) {
        lemma_place(groups.skip(1), name);
        assert forall|i: int| 0 <= i < place_of(groups, name) implies text_less(
            (#[trigger] groups[i]).name,
            name,
        ) by {
            if i > 0 {
                assert(groups.skip(1)[i - 1] == groups[i]);
            }
        }
    }
}

proof fn lemma_with_group(groups: Seq<GroupView>, group: GroupView)
    requires
        is_ordered(groups),
    ensures
        is_ordered(with_group(groups, group)),
        group_names(with_group(groups, group)).contains(group.name),
        forall|name: Seq<char>| #[trigger]
            group_names(groups).contains(name) ==> group_names(with_group(groups, group)).contains(
                name,
            ),
        forall|i: int|
            0 <= i < with_group(groups, group).len() ==> (#[trigger] with_group(
                groups,
                group,
            )[i]).name == group.name || group_names(groups).contains(
                with_group(groups, group)[i].name,
            ),
{
    lemma_place(groups, group.name);
    let place = place_of(groups, group.name);
    let out = with_group(groups, group);
    let replaced = place < groups.len() && groups[place].name == group.name;
    assert(group_names(out)[place] == group.name);
    assert forall|i: int| 0 <= i < out.len() implies (#[trigger] out[i]).name == group.name
        || group_names(groups).contains(out[i].name) by {
        if i != place {
            let from = if i < place || replaced {
                i
            } else {
                i - 1
            };
            assert(out[i] == groups[from]);
            assert(group_names(groups)[from] == out[i].name);
        }
    }
    assert forall|name: Seq<char>| #[trigger] group_names(groups).contains(name) implies group_names(
        out,
    ).contains(name) by {
        let i = choose|i: int|
            0 <= i < group_names(groups).len() && group_names(groups)[i] == name;
        let to = if i < place || replaced {
            i
        } else {
            i + 1
        };
        assert(group_names(out)[to] == name);
    }
    assert forall|i: int, j: int| 0 <= i < j < out.len() implies text_less(
        (#[trigger] out[i]).name,
        (#[trigger] out[j]).name,
    ) by {
        let a = if i < place || replaced {
            i
        } else {
            i - 1
        };
        let b = if j < place || replaced {
            j
        } else {
            j - 1
        };
        if replaced {
            assert(out[i].name == groups[i].name);
            assert(out[j].name == groups[j].name);
        } else if i == place {
            assert(out[j] == groups[j - 1]);
            lemma_text_less_total(groups[place].name, group.name);
            if j - 1 > place {
                lemma_text_less_transitive(group.name, groups[place].name, groups[j - 1].name);
            }
        } else if j == place {
            assert(out[i] == groups[i]);
        } else {
            assert(out[i] == groups[a]);
            assert(out[j] == groups[b]);
        }
    }
}

proof fn lemma_collected_fields_valid(
    accounts: Seq<Json>,
    n: int,
    reserved: Seq<Seq<char>>,
    state: GroupsView,
    span: Span,
)
    requires
        is_collection(state, reserved),
        0 <= n <= accounts.len(),
        collected_fields(accounts, n, reserved, state, span) is Ok,
    ensures
        is_collection(collected_fields(accounts, n, reserved, state, span)->Ok_0.1, reserved),
        keeps_names(state, collected_fields(accounts, n, reserved, state, span)->Ok_0.1),
    decreases accounts, n,
{
    if n > 0 {
        lemma_collected_fields_valid(accounts, n - 1, reserved, state, span);
        let before = collected_fields(accounts, n - 1, reserved, state, span)->Ok_0.1;
        let account = accounts[n - 1];
        if array_at(account, "accounts"@) is Some {
            assert(decreases_to!(accounts => accounts[n - 1]));
            lemma_array_smaller(account, "accounts"@);
            let name = required_text(account, "name"@, span)->Ok_0;
            lemma_collected_group_valid(
                type_case(name),
                array_at(account, "accounts"@)->Some_0,
                reserved,
                before,
                span,
            );
        }
    }
}

/// Whether a state still has an accounts struct of every name that another has.
pub open spec fn keeps_names(before: GroupsView, after: GroupsView) -> bool {
    forall|name: Seq<char>| #[trigger]
        group_names(before.groups).contains(name) ==> group_names(after.groups).contains(name)
}

/// Collecting a group keeps the accounts structs ordered, each name once and none of
/// them reserved; no name is lost, and there is a struct of the name that is returned.
pub proof fn lemma_collected_group_valid(
    group_name: Seq<char>,
    accounts: Seq<Json>,
    reserved: Seq<Seq<char>>,
    state: GroupsView,
    span: Span,
)
    requires
        is_collection(state, reserved),
        collected_group(group_name, accounts, reserved, state, span) is Ok,
    ensures
        is_collection(
            collected_group(group_name, accounts, reserved, state, span)->Ok_0.1,
            reserved,
        ),
        keeps_names(state, collected_group(group_name, accounts, reserved, state, span)->Ok_0.1),
        group_names(
            collected_group(group_name, accounts, reserved, state, span)->Ok_0.1.groups,
        ).contains(collected_group(group_name, accounts, reserved, state, span)->Ok_0.0),
    decreases accounts, accounts.len() + 1,
{
    let signature = group_signature(accounts, span)->Ok_0;
    match find_variant(state.variants, group_name, signature) {
        Some(existing) => {
            let i = lemma_variant_found(state.variants, group_name, signature);
        },
        None => {
            let generated = next_name(group_name, reserved, state.groups);
            lemma_next_name_free(group_name, reserved, state.groups);
            let count = accounts.len() as int;
            lemma_collected_fields_valid(accounts, count, reserved, state, span);
            let (fields, inner) = collected_fields(
                accounts,
                count,
                reserved,
                state,
                span,
            )->Ok_0;
            let group = GroupView { name: generated, fields };
            lemma_with_group(inner.groups, group);
            let after = collected_group(group_name, accounts, reserved, state, span)->Ok_0.1;
            assert(after.groups == with_group(inner.groups, group));
            assert forall|i: int| 0 <= i < after.groups.len() implies !reserved.contains(
                (#[trigger] after.groups[i]).name,
            ) by {
                let name = after.groups[i].name;
                if name != generated {
                    assert(group_names(inner.groups).contains(name));
                    let k = choose|k: int|
                        0 <= k < group_names(inner.groups).len() && group_names(inner.groups)[k]
                            == name;
                    assert(inner.groups[k].name == name);
                }
            }
            assert forall|i: int| 0 <= i < after.variants.len() implies group_names(
                after.groups,
            ).contains((#[trigger] after.variants[i]).generated_name) by {
                if i < inner.variants.len() {
                    assert(after.variants[i] == inner.variants[i]);
                }
            }
        },
    }
}

proof fn lemma_variant_found(variants: Seq<VariantView>, group: Seq<char>, signature: Seq<char>) -> (i:
    int)
    requires
        find_variant(variants, group, signature) is Some,
    ensures
        0 <= i < variants.len(),
        find_variant(variants, group, signature) == Some(variants[i].generated_name),
    decreases variants.len(),
{
    if variants[0].group == group && variants[0].signature == signature {
        0
    } else {
        let i = lemma_variant_found(variants.skip(1), group, signature);
        assert(variants.skip(1)[i] == variants[i + 1]);
        i + 1
    }
}

proof fn lemma_variant_pushed(variants: Seq<VariantView>, last: VariantView)
    requires
        forall|i: int|
            0 <= i < variants.len() ==> (#[trigger] variants[i]).group != last.group
                || variants[i].signature != last.signature,
    ensures
        find_variant(variants.push(last), last.group, last.signature) == Some(
            last.generated_name,
        ),
    decreases variants.len(),
{
    if variants.len() > 0 {
        assert(variants.push(last).skip(1) == variants.skip(1).push(last));
        assert forall|i: int| 0 <= i < variants.skip(1).len() implies (#[trigger] variants.skip(
            1,
        )[i]).group != last.group || variants.skip(1)[i].signature != last.signature by {
            assert(variants.skip(1)[i] == variants[i + 1]);
        }
        lemma_variant_pushed(variants.skip(1), last);
    }
}

proof fn lemma_variant_absent(variants: Seq<VariantView>, group: Seq<char>, signature: Seq<char>)
    requires
        find_variant(variants, group, signature) is None,
    ensures
        forall|i: int|
            0 <= i < variants.len() ==> (#[trigger] variants[i]).group != group
                || variants[i].signature != signature,
    decreases variants.len(),
{
    if variants.len() > 0 {
        lemma_variant_absent(variants.skip(1), group, signature);
        assert forall|i: int| 0 <= i < variants.len() implies (#[trigger] variants[i]).group
            != group || variants[i].signature != signature by {
            if i > 0 {
                assert(variants.skip(1)[i - 1] == variants[i]);
            }
        }
    }
}

/// Whether the groups of a state come first in another, and the signatures of those
/// behind them have at most the given length.
spec fn only_adds(before: GroupsView, after: GroupsView, len: nat) -> bool {
    &&& before.variants.len() <= after.variants.len()
    &&& forall|i: int|
        0 <= i < before.variants.len() ==> #[trigger] after.variants[i] == before.variants[i]
    &&& forall|i: int|
        before.variants.len() <= i < after.variants.len() ==> (#[trigger] after.variants[i]).signature.len()
            <= len
}

proof fn lemma_part_len(parts: Seq<Seq<char>>, i: int)
    requires
        0 <= i < parts.len(),
    ensures
        parts[i].len() <= concat_all(parts).len(),
    decreases parts.len(),
{
    if i < parts.len() - 1 {
        lemma_part_len(parts.drop_last(), i);
    }
}

proof fn lemma_signature_grows(accounts: Seq<Json>, span: Span, i: int)
    requires
        0 <= i < accounts.len(),
        group_signature(accounts, span) is Ok,
    ensures
        account_signature(accounts[i], span) is Ok,
        account_signature(accounts[i], span)->Ok_0.len() < group_signature(
            accounts,
            span,
        )->Ok_0.len(),
{
    reveal_strlit(";");
    let results = signature_results(accounts, span);
    let signatures = collected(results)->Ok_0;
    lemma_collected_len(results);
    assert(results[i] == account_signature(accounts[i], span));
    let parts = signatures.map_values(|part: Seq<char>| part + ";"@);
    lemma_part_len(parts, i);
    assert(parts[i] == signatures[i] + ";"@);
}

proof fn lemma_fields_add(
    accounts: Seq<Json>,
    n: int,
    reserved: Seq<Seq<char>>,
    state: GroupsView,
    span: Span,
    len: nat,
)
    requires
        0 <= n <= accounts.len(),
        group_signature(accounts, span) is Ok,
        group_signature(accounts, span)->Ok_0.len() <= len + 1,
        collected_fields(accounts, n, reserved, state, span) is Ok,
    ensures
        only_adds(state, collected_fields(accounts, n, reserved, state, span)->Ok_0.1, len),
    decreases accounts, n,
{
    if n > 0 {
        lemma_fields_add(accounts, n - 1, reserved, state, span, len);
        let before = collected_fields(accounts, n - 1, reserved, state, span)->Ok_0.1;
        let account = accounts[n - 1];
        if array_at(account, "accounts"@) is Some {
            assert(decreases_to!(accounts => accounts[n - 1]));
            lemma_array_smaller(account, "accounts"@);
            lemma_signature_grows(accounts, span, n - 1);
            let name = required_text(account, "name"@, span)->Ok_0;
            let nested = array_at(account, "accounts"@)->Some_0;
            assert(account_signature(account, span)->Ok_0.len() >= group_signature(
                nested,
                span,
            )->Ok_0.len());
            lemma_group_adds(type_case(name), nested, reserved, before, span, len);
        }
    }
}

proof fn lemma_group_adds(
    group_name: Seq<char>,
    accounts: Seq<Json>,
    reserved: Seq<Seq<char>>,
    state: GroupsView,
    span: Span,
    len: nat,
)
    requires
        group_signature(accounts, span) is Ok,
        group_signature(accounts, span)->Ok_0.len() <= len,
        collected_group(group_name, accounts, reserved, state, span) is Ok,
    ensures
        only_adds(
            state,
            collected_group(group_name, accounts, reserved, state, span)->Ok_0.1,
            len,
        ),
    decreases accounts, accounts.len() + 1,
{
    let signature = group_signature(accounts, span)->Ok_0;
    if find_variant(state.variants, group_name, signature) is None {
        lemma_fields_add(accounts, accounts.len() as int, reserved, state, span, len);
    }
}

/// Collecting a group again gives the same accounts struct and changes nothing.
pub proof fn lemma_collected_again(
    group_name: Seq<char>,
    accounts: Seq<Json>,
    reserved: Seq<Seq<char>>,
    state: GroupsView,
    span: Span,
)
    requires
        collected_group(group_name, accounts, reserved, state, span) is Ok,
    ensures
        collected_group(
            group_name,
            accounts,
            reserved,
            collected_group(group_name, accounts, reserved, state, span)->Ok_0.1,
            span,
        ) == collected_group(group_name, accounts, reserved, state, span),
{
    let signature = group_signature(accounts, span)->Ok_0;
    if find_variant(state.variants, group_name, signature) is None {
        let count = accounts.len() as int;
        let generated = next_name(group_name, reserved, state.groups);
        let inner = collected_fields(accounts, count, reserved, state, span)->Ok_0.1;
        if signature.len() > 0 {
            lemma_fields_add(
                accounts,
                count,
                reserved,
                state,
                span,
                (signature.len() - 1) as nat,
            );
        } else {
            reveal_strlit(";");
            assert(accounts.len() == 0);
        }
        lemma_variant_absent(state.variants, group_name, signature);
        let last = VariantView { group: group_name, signature, generated_name: generated };
        assert forall|i: int| 0 <= i < inner.variants.len() implies (#[trigger] inner.variants[i]).group
            != group_name || inner.variants[i].signature != signature by {
            if i < state.variants.len() {
                assert(inner.variants[i] == state.variants[i]);
            }
        }
        lemma_variant_pushed(inner.variants, last);
    }
}

/// Whether every accounts struct of a state is in another as it was.
pub open spec fn keeps_groups(before: GroupsView, after: GroupsView) -> bool {
    forall|i: int| 0 <= i < before.groups.len() ==> after.groups.contains(#[trigger] before.groups[i])
}

/// One more group leaves the others, but for one of its own name.
pub proof fn lemma_with_group_keeps(groups: Seq<GroupView>, group: GroupView, kept: GroupView)
    requires
        groups.contains(kept),
        kept.name != group.name,
    ensures
        with_group(groups, group).contains(kept),
{
    lemma_place(groups, group.name);
    let place = place_of(groups, group.name);
    let i = choose|i: int| 0 <= i < groups.len() && groups[i] == kept;
    let replaced = place < groups.len() && groups[place].name == group.name;
    let to = if i < place || replaced {
        i
    } else {
        i + 1
    };
    assert(with_group(groups, group)[to] == kept);
}

proof fn lemma_fields_keep(
    accounts: Seq<Json>,
    n: int,
    reserved: Seq<Seq<char>>,
    state: GroupsView,
    span: Span,
)
    requires
        0 <= n <= accounts.len(),
        collected_fields(accounts, n, reserved, state, span) is Ok,
    ensures
        keeps_groups(state, collected_fields(accounts, n, reserved, state, span)->Ok_0.1),
    decreases accounts, n,
{
    let after = collected_fields(accounts, n, reserved, state, span)->Ok_0.1;
    if n > 0 {
        lemma_fields_keep(accounts, n - 1, reserved, state, span);
        let before = collected_fields(accounts, n - 1, reserved, state, span)->Ok_0.1;
        let account = accounts[n - 1];
        if array_at(account, "accounts"@) is Some {
            assert(decreases_to!(accounts => accounts[n - 1]));
            lemma_array_smaller(account, "accounts"@);
            let name = required_text(account, "name"@, span)->Ok_0;
            lemma_collected_groups_stay(
                type_case(name),
                array_at(account, "accounts"@)->Some_0,
                reserved,
                before,
                span,
            );
            assert forall|i: int| 0 <= i < state.groups.len() implies after.groups.contains(
                #[trigger] state.groups[i],
            ) by {
                let k = choose|k: int|
                    0 <= k < before.groups.len() && before.groups[k] == state.groups[i];
                assert(after.groups.contains(before.groups[k]));
            }
        }
    }
}

/// Collecting a group leaves the accounts structs that were there as they are.
pub proof fn lemma_collected_groups_stay(
    group_name: Seq<char>,
    accounts: Seq<Json>,
    reserved: Seq<Seq<char>>,
    state: GroupsView,
    span: Span,
)
    requires
        collected_group(group_name, accounts, reserved, state, span) is Ok,
    ensures
        keeps_groups(state, collected_group(group_name, accounts, reserved, state, span)->Ok_0.1),
    decreases accounts, accounts.len() + 1,
{
    let signature = group_signature(accounts, span)->Ok_0;
    let after = collected_group(group_name, accounts, reserved, state, span)->Ok_0.1;
    if find_variant(state.variants, group_name, signature) is None {
        let count = accounts.len() as int;
        let generated = next_name(group_name, reserved, state.groups);
        lemma_next_name_free(group_name, reserved, state.groups);
        lemma_fields_keep(accounts, count, reserved, state, span);
        let (fields, inner) = collected_fields(accounts, count, reserved, state, span)->Ok_0;
        let group = GroupView { name: generated, fields };
        assert forall|i: int| 0 <= i < state.groups.len() implies after.groups.contains(
            #[trigger] state.groups[i],
        ) by {
            assert(group_names(state.groups)[i] == state.groups[i].name);
            lemma_with_group_keeps(inner.groups, group, state.groups[i]);
        }
    }
}

/// Whether no group inside the first `n` accounts takes the name that was chosen for
/// the group around it.
pub open spec fn fields_leave_names(
    accounts: Seq<Json>,
    n: int,
    reserved: Seq<Seq<char>>,
    state: GroupsView,
    span: Span,
) -> bool
    decreases accounts, n,
{
    if n <= 0 || n > accounts.len() {
        true
    } else {
        let account = accounts[n - 1];
        fields_leave_names(accounts, n - 1, reserved, state, span) && if array_at(
            account,
            "accounts"@,
        ) is Some {
            proof {
                lemma_array_smaller(account, "accounts"@);
            }
            leaves_names(
                type_case(required_text(account, "name"@, span)->Ok_0),
                array_at(account, "accounts"@)->Some_0,
                reserved,
                collected_fields(accounts, n - 1, reserved, state, span)->Ok_0.1,
                span,
            )
        } else {
            true
        }
    }
}

/// Whether no group inside a group takes the name that was chosen for the group around
/// it.
pub open spec fn leaves_names(
    group_name: Seq<char>,
    accounts: Seq<Json>,
    reserved: Seq<Seq<char>>,
    state: GroupsView,
    span: Span,
) -> bool
    decreases accounts, accounts.len() + 1,
{
    let signature = group_signature(accounts, span)->Ok_0;
    let count = accounts.len() as int;
    find_variant(state.variants, group_name, signature) is Some || (fields_leave_names(
        accounts,
        count,
        reserved,
        state,
        span,
    ) && !group_names(
        collected_fields(accounts, count, reserved, state, span)->Ok_0.1.groups,
    ).contains(next_name(group_name, reserved, state.groups)))
}

/// Whether no two groups share an accounts struct.
pub open spec fn groups_apart(state: GroupsView) -> bool {
    forall|i: int, j: int|
        0 <= i < j < state.variants.len() ==> (#[trigger] state.variants[i]).generated_name != (
        #[trigger] state.variants[j]).generated_name
}

proof fn lemma_fields_apart(
    accounts: Seq<Json>,
    n: int,
    reserved: Seq<Seq<char>>,
    state: GroupsView,
    span: Span,
)
    requires
        is_collection(state, reserved),
        groups_apart(state),
        0 <= n <= accounts.len(),
        collected_fields(accounts, n, reserved, state, span) is Ok,
        fields_leave_names(accounts, n, reserved, state, span),
    ensures
        groups_apart(collected_fields(accounts, n, reserved, state, span)->Ok_0.1),
    decreases accounts, n,
{
    if n > 0 {
        lemma_fields_apart(accounts, n - 1, reserved, state, span);
        lemma_collected_fields_valid(accounts, n - 1, reserved, state, span);
        let before = collected_fields(accounts, n - 1, reserved, state, span)->Ok_0.1;
        let account = accounts[n - 1];
        if array_at(account, "accounts"@) is Some {
            assert(decreases_to!(accounts => accounts[n - 1]));
            lemma_array_smaller(account, "accounts"@);
            let name = required_text(account, "name"@, span)->Ok_0;
            lemma_collected_groups_apart(
                type_case(name),
                array_at(account, "accounts"@)->Some_0,
                reserved,
                before,
                span,
            );
        }
    }
}

/// No two collected groups share an accounts struct, where no group inside another takes
/// the name that was chosen for the one around it.
pub proof fn lemma_collected_groups_apart(
    group_name: Seq<char>,
    accounts: Seq<Json>,
    reserved: Seq<Seq<char>>,
    state: GroupsView,
    span: Span,
)
    requires
        is_collection(state, reserved),
        groups_apart(state),
        collected_group(group_name, accounts, reserved, state, span) is Ok,
        leaves_names(group_name, accounts, reserved, state, span),
    ensures
        groups_apart(collected_group(group_name, accounts, reserved, state, span)->Ok_0.1),
    decreases accounts, accounts.len() + 1,
{
    let signature = group_signature(accounts, span)->Ok_0;
    if find_variant(state.variants, group_name, signature) is None {
        let count = accounts.len() as int;
        lemma_fields_apart(accounts, count, reserved, state, span);
        lemma_collected_fields_valid(accounts, count, reserved, state, span);
        let inner = collected_fields(accounts, count, reserved, state, span)->Ok_0.1;
        let after = collected_group(group_name, accounts, reserved, state, span)->Ok_0.1;
        assert forall|i: int, j: int| 0 <= i < j < after.variants.len() implies (
        #[trigger] after.variants[i]).generated_name != (#[trigger] after.variants[j]).generated_name by {
            assert(after.variants[i] == inner.variants[i]);
            if j < inner.variants.len() {
                assert(after.variants[j] == inner.variants[j]);
            }
        }
    }
}

} // verus!
