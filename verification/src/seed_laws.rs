//! Which addresses are derived from seeds, and how.

use crate::account_fields::{
    client_seeds, finder_of, finder_program, finder_seeds, first_type_argument, is_among,
    kind_of_field, with_param, AccountField, FieldKindView, FinderView, ScopeView, Seed, Seeds,
    SeedsProgram, FINDER,
};
use crate::handler::byte_literals;
use crate::names::item_name;
use crate::passages::{lemma_filled_from, lemma_filled_last, lemma_joined_parted, parted, stands_at};
use crate::syntax::type_text;
use crate::template::filled;
use crate::text::joined;
use vstd::prelude::*;

verus! {

spec fn finder_words() -> Seq<Seq<char>> {
    seq!["pub fn "@, "("@, ") -> (anchor_lang::Address, u8) {\n    anchor_lang::find_program_address(\n        &["@, "],\n        "@, ",\n    )\n}"@]
}

proof fn lemma_finder_text_marks()
    ensures
        FINDER@.len() == 119,
        stands_at(FINDER@, finder_words()[0], 0, 7),
        FINDER@[7] == '@' && FINDER@[8] == 'a',
        stands_at(FINDER@, finder_words()[1], 9, 1),
        FINDER@[10] == '@' && FINDER@[11] == 'b',
        stands_at(FINDER@, finder_words()[2], 12, 83),
        FINDER@[95] == '@' && FINDER@[96] == 'c',
        stands_at(FINDER@, finder_words()[3], 97, 11),
        FINDER@[108] == '@' && FINDER@[109] == 'd',
        stands_at(FINDER@, finder_words()[4], 110, 9),
{
    let template = FINDER@;
    let words = finder_words();
    reveal_strlit("pub fn @a(@b) -> (anchor_lang::Address, u8) {\n    anchor_lang::find_program_address(\n        &[@c],\n        @d,\n    )\n}");
    assert(stands_at(template, words[0], 0, 7)) by {
        reveal_strlit("pub fn ");
        assert(template.subrange(0, 7) =~= words[0]);
    }
    assert(stands_at(template, words[1], 9, 1)) by {
        reveal_strlit("(");
        assert(template.subrange(9, 10) =~= words[1]);
    }
    assert(stands_at(template, words[2], 12, 83)) by {
        reveal_strlit(") -> (anchor_lang::Address, u8) {\n    anchor_lang::find_program_address(\n        &[");
        assert(template.subrange(12, 95) =~= words[2]);
    }
    assert(stands_at(template, words[3], 97, 11)) by {
        reveal_strlit("],\n        ");
        assert(template.subrange(97, 108) =~= words[3]);
    }
    assert(stands_at(template, words[4], 110, 9)) by {
        reveal_strlit(",\n    )\n}");
        assert(template.subrange(110, 119) =~= words[4]);
    }
}

proof fn lemma_finder_text(parts: Seq<Seq<char>>)
    requires
        parts.len() == 4,
    ensures
        filled(FINDER@, parts) == "pub fn "@ + parts[0] + "("@ + parts[1] + ") -> (anchor_lang::Address, u8) {\n    anchor_lang::find_program_address(\n        &["@ + parts[2] + "],\n        "@ + parts[3] + ",\n    )\n}"@,
{
    let template = FINDER@;
    let words = finder_words();
    lemma_finder_text_marks();
    let told = filled(template, parts);
    assert(template.skip(0) =~= template);
    let done0 = Seq::<char>::empty();
    assert(told =~= done0 + filled(template.skip(0), parts));
    lemma_filled_from(template, 0, words[0], 'a', parts, done0, told);
    let done1 = words[0] + parts[0];
    assert(done0 + words[0] + parts[0] =~= done1);
    lemma_filled_from(template, 9, words[1], 'b', parts, done1, told);
    let done2 = done1 + words[1] + parts[1];
    lemma_filled_from(template, 12, words[2], 'c', parts, done2, told);
    let done3 = done2 + words[2] + parts[2];
    lemma_filled_from(template, 97, words[3], 'd', parts, done3, told);
    let done4 = done3 + words[3] + parts[3];
    lemma_filled_last(template, 110, words[4], parts, done4, told);
}

// ---------------------------------------------------------------------------
// Clients
// ---------------------------------------------------------------------------

/// Whether an expression begins with one of some names.
pub open spec fn begins_with_one(root: Option<String>, names: Seq<Seq<char>>) -> bool {
    exists|i: int| 0 <= i < names.len() && root is Some && (#[trigger] names[i]) == root->Some_0@
}

/// Whether a client can work out a seed: its bytes are known, or it begins with a field.
pub open spec fn workable(seed: Seed, scope: ScopeView) -> bool {
    seed.bytes is Some || begins_with_one(seed.root, scope.fields)
}

/// A seed as a client writes it: the known bytes before all, else the address of the field.
pub open spec fn worked_from(seed: Seed) -> Seq<char> {
    match seed.bytes {
        Some(bytes) => "&["@ + byte_literals(bytes@) + "] as &[u8]"@,
        None => seed.root->Some_0@ + ".as_ref()"@,
    }
}

/// Whether a client can work out the program that an address is derived for.
pub open spec fn program_workable(program: Option<SeedsProgram>, scope: ScopeView) -> bool {
    match program {
        None => true,
        Some(program) => {
            ||| begins_with_one(program.root, scope.fields)
            ||| !begins_with_one(program.root, scope.args) && !(program.root is None && (
            program.has_macro || program.references_local))
        },
    }
}

/// The program that an address is derived for, as a client writes it.
pub open spec fn program_from(program: Option<SeedsProgram>, scope: ScopeView) -> Seq<char> {
    match program {
        None => "&"@ + scope.program_id,
        Some(program) => if begins_with_one(program.root, scope.fields) {
            "&"@ + program.root->Some_0@
        } else {
            "&"@ + program.tokens@
        },
    }
}

/// Whether a field holds a program of a known type.
pub open spec fn holds_program(field: AccountField) -> bool {
    !field.is_optional && field.base_name@ == "Program"@ && first_type_argument(field.base) is Some
}

/// Whether a client can derive the address of a field: it is no program and must be
/// there, and all seeds and the program can be worked out.
pub open spec fn derivable(field: AccountField, scope: ScopeView) -> bool {
    &&& !field.is_optional
    &&& !holds_program(field)
    &&& field.seeds is Array
    &&& forall|i: int|
        0 <= i < field.seeds->Array_0@.len() ==> workable(
            #[trigger] field.seeds->Array_0@[i],
            scope,
        )
    &&& program_workable(field.seeds_program, scope)
}

proof fn lemma_among(root: Option<String>, names: Seq<Seq<char>>)
    ensures
        is_among(root, names) == begins_with_one(root, names),
{
    if is_among(root, names) {
        let i = choose|i: int| 0 <= i < names.len() && names[i] == root->Some_0@;
        assert(names[i] == root->Some_0@);
    }
}

proof fn lemma_client_seeds(seeds: Seq<Seed>, scope: ScopeView)
    ensures
        client_seeds(seeds, scope) is Some <==> forall|i: int|
            0 <= i < seeds.len() ==> workable(#[trigger] seeds[i], scope),
        client_seeds(seeds, scope) matches Some((exprs, deps)) ==> {
            &&& exprs == seeds.map_values(|seed: Seed| worked_from(seed))
            &&& forall|name: Seq<char>| #[trigger]
                deps.contains(name) <==> needs(seeds, name)
        },
    decreases seeds.len(),
{
    if seeds.len() == 0 {
        assert(client_seeds(seeds, scope)->Some_0.0 =~= seeds.map_values(
            |seed: Seed| worked_from(seed),
        ));
    } else {
        let before = seeds.drop_last();
        let last = seeds.last();
        lemma_client_seeds(before, scope);
        lemma_among(last.root, scope.fields);
        assert(seeds[seeds.len() - 1] == last);
        if client_seeds(before, scope) is Some {
            assert forall|i: int| 0 <= i < seeds.len() - 1 implies workable(
                #[trigger] seeds[i],
                scope,
            ) by {
                assert(before[i] == seeds[i]);
            }
            if let Some((exprs, deps)) = client_seeds(seeds, scope) {
                let earlier = client_seeds(before, scope)->Some_0.1;
                assert(exprs =~= seeds.map_values(|seed: Seed| worked_from(seed)));
                assert forall|name: Seq<char>| #[trigger] deps.contains(name) <==> needs(
                    seeds,
                    name,
                ) by {
                    lemma_needs_more(before, last, name);
                    assert(before.push(last) =~= seeds);
                    if last.bytes is None {
                        let root = last.root->Some_0@;
                        assert(deps == earlier.push(root));
                        if earlier.contains(name) {
                            let k = choose|k: int| 0 <= k < earlier.len() && earlier[k] == name;
                            assert(deps[k] == name);
                        }
                        assert(deps[earlier.len() as int] == root);
                        if deps.contains(name) && name != root {
                            let k = choose|k: int| 0 <= k < deps.len() && deps[k] == name;
                            assert(earlier[k] == name);
                        }
                    }
                }
            }
        } else {
            let i = choose|i: int|
                0 <= i < before.len() && !workable(#[trigger] before[i], scope);
            assert(seeds[i] == before[i]);
        }
    }
}

/// Whether a seed is the address of a field.
pub open spec fn needs(seeds: Seq<Seed>, name: Seq<char>) -> bool {
    exists|i: int|
        0 <= i < seeds.len() && (#[trigger] seeds[i]).bytes is None && seeds[i].root->Some_0@
            == name
}

proof fn lemma_needs_more(seeds: Seq<Seed>, last: Seed, name: Seq<char>)
    ensures
        needs(seeds.push(last), name) <==> needs(seeds, name) || (last.bytes is None
            && last.root->Some_0@ == name),
{
    let more = seeds.push(last);
    assert(more[seeds.len() as int] == last);
    if needs(seeds, name) {
        let i = choose|i: int|
            0 <= i < seeds.len() && (#[trigger] seeds[i]).bytes is None && seeds[i].root->Some_0@
                == name;
        assert(more[i] == seeds[i]);
    }
    if needs(more, name) && !(last.bytes is None && last.root->Some_0@ == name) {
        let i = choose|i: int|
            0 <= i < more.len() && (#[trigger] more[i]).bytes is None && more[i].root->Some_0@
                == name;
        assert(seeds[i] == more[i]);
    }
}

/// A client must give a field unless it holds a program of a known type, which has its
/// own address, or its address can be derived. Then it is derived from all seeds in
/// order, for the program that is given or else the program of the accounts, once the
/// fields that the seeds and the program name are known.
pub proof fn lemma_who_gives(field: AccountField, scope: ScopeView)
    ensures
        ({
            let kind = kind_of_field(field, scope);
            &&& kind is Required <==> !holds_program(field) && !derivable(field, scope)
            &&& holds_program(field) ==> kind == FieldKindView::Program(
                "<"@ + type_text(first_type_argument(field.base)->Some_0, None)
                    + " as anchor_lang::Id>::id()"@,
            )
            &&& derivable(field, scope) ==> {
                let seeds = field.seeds->Array_0@;
                &&& kind is Pda
                &&& kind->Pda_seed_exprs == seeds.map_values(|seed: Seed| worked_from(seed))
                &&& kind->Pda_program_ref == program_from(field.seeds_program, scope)
                &&& forall|name: Seq<char>| #[trigger]
                    kind->Pda_deps.contains(name) <==> needs(seeds, name) || (
                    field.seeds_program is Some && begins_with_one(
                        field.seeds_program->Some_0.root,
                        scope.fields,
                    ) && field.seeds_program->Some_0.root->Some_0@ == name)
            }
        }),
{
    let kind = kind_of_field(field, scope);
    if let Seeds::Array(list) = field.seeds {
        let seeds = list@;
        lemma_client_seeds(seeds, scope);
        if let Some(program) = field.seeds_program {
            lemma_among(program.root, scope.fields);
            lemma_among(program.root, scope.args);
            if derivable(field, scope) {
                let deps = client_seeds(seeds, scope)->Some_0.1;
                assert forall|name: Seq<char>| #[trigger]
                    kind->Pda_deps.contains(name) <==> needs(seeds, name) || (begins_with_one(
                        program.root,
                        scope.fields,
                    ) && program.root->Some_0@ == name) by {
                    if begins_with_one(program.root, scope.fields) {
                        let root = program.root->Some_0@;
                        if !deps.contains(root) {
                            assert(kind->Pda_deps == deps.push(root));
                            assert(kind->Pda_deps[deps.len() as int] == root);
                            if deps.contains(name) {
                                let k = choose|k: int| 0 <= k < deps.len() && deps[k] == name;
                                assert(kind->Pda_deps[k] == name);
                            }
                            if kind->Pda_deps.contains(name) && name != root {
                                let k = choose|k: int|
                                    0 <= k < kind->Pda_deps.len() && kind->Pda_deps[k] == name;
                                assert(deps[k] == name);
                            }
                        }
                    }
                }
            }
        }
    }
}

// ---------------------------------------------------------------------------
// Finders
// ---------------------------------------------------------------------------

/// Whether a function can find an address from a seed.
pub open spec fn findable(seed: Seed, scope: ScopeView) -> bool {
    ||| begins_with_one(seed.root, scope.fields)
    ||| begins_with_one(seed.root, scope.args)
    ||| seed.bytes is Some
}

/// A seed in the function that finds an address: a field by its address and an argument by
/// its bytes, both parameters of the function, and else the known bytes.
pub open spec fn found_from(seed: Seed, scope: ScopeView) -> Seq<char> {
    if begins_with_one(seed.root, scope.fields) {
        seed.root->Some_0@ + ".as_ref()"@
    } else if begins_with_one(seed.root, scope.args) {
        seed.root->Some_0@
    } else {
        "&["@ + byte_literals(seed.bytes->Some_0@) + "]"@
    }
}

/// Whether a seed is a parameter.
pub open spec fn is_param(seed: Seed, scope: ScopeView) -> bool {
    begins_with_one(seed.root, scope.fields) || begins_with_one(seed.root, scope.args)
}

/// Whether a seed begins with a name.
pub open spec fn is_root(seeds: Seq<Seed>, name: Seq<char>) -> bool {
    exists|i: int|
        0 <= i < seeds.len() && (#[trigger] seeds[i]).root is Some && seeds[i].root->Some_0@
            == name
}

/// The type of a parameter: bytes for an argument that is a seed, else an address.
pub open spec fn param_type(seeds: Seq<Seed>, name: Seq<char>, scope: ScopeView) -> Seq<char> {
    if !scope.fields.contains(name) && is_root(seeds, name) {
        "&[u8]"@
    } else {
        "&anchor_lang::Address"@
    }
}

spec fn fits(finder: FinderView, seeds: Seq<Seed>, scope: ScopeView) -> bool {
    &&& finder.exprs == seeds.map_values(|seed: Seed| found_from(seed, scope))
    &&& well_made(finder, seeds, scope)
    &&& forall|i: int| 0 <= i < finder.names.len() ==> is_root(seeds, #[trigger] finder.names[i])
    &&& forall|i: int|
        0 <= i < seeds.len() && is_param(#[trigger] seeds[i], scope) ==> finder.names.contains(
            seeds[i].root->Some_0@,
        )
}

/// Whether each parameter stands once, under its name and with its type.
pub open spec fn well_made(finder: FinderView, seeds: Seq<Seed>, scope: ScopeView) -> bool {
    &&& finder.params.len() == finder.names.len()
    &&& finder.names.no_duplicates()
    &&& forall|i: int|
        0 <= i < finder.params.len() ==> #[trigger] finder.params[i] == finder.names[i] + ": "@
            + param_type(seeds, finder.names[i], scope)
}

proof fn lemma_root_more(seeds: Seq<Seed>, last: Seed, name: Seq<char>)
    ensures
        is_root(seeds.push(last), name) <==> is_root(seeds, name) || (last.root is Some
            && last.root->Some_0@ == name),
{
    let more = seeds.push(last);
    assert(more[seeds.len() as int] == last);
    if is_root(seeds, name) {
        let i = choose|i: int|
            0 <= i < seeds.len() && (#[trigger] seeds[i]).root is Some && seeds[i].root->Some_0@
                == name;
        assert(more[i] == seeds[i]);
    }
    if is_root(more, name) && !(last.root is Some && last.root->Some_0@ == name) {
        let i = choose|i: int|
            0 <= i < more.len() && (#[trigger] more[i]).root is Some && more[i].root->Some_0@
                == name;
        assert(seeds[i] == more[i]);
    }
}

proof fn lemma_seed_more(finder: FinderView, seeds: Seq<Seed>, last: Seed, scope: ScopeView)
    requires
        fits(finder, seeds, scope),
    ensures
        well_made(finder, seeds.push(last), scope),
        forall|i: int|
            0 <= i < finder.names.len() ==> is_root(seeds.push(last), #[trigger] finder.names[i]),
{
    assert forall|i: int| 0 <= i < finder.names.len() implies is_root(
        seeds.push(last),
        #[trigger] finder.names[i],
    ) by {
        lemma_root_more(seeds, last, finder.names[i]);
    }
    assert forall|i: int| 0 <= i < finder.params.len() implies #[trigger] finder.params[i]
        == finder.names[i] + ": "@ + param_type(seeds.push(last), finder.names[i], scope) by {
        assert(is_root(seeds, finder.names[i]));
        lemma_root_more(seeds, last, finder.names[i]);
    }
}

proof fn lemma_with_param(
    finder: FinderView,
    name: Seq<char>,
    ty: Seq<char>,
    seeds: Seq<Seed>,
    scope: ScopeView,
)
    requires
        well_made(finder, seeds, scope),
        finder.names.contains(name) || ty == param_type(seeds, name, scope),
    ensures
        well_made(with_param(finder, name, ty), seeds, scope),
        with_param(finder, name, ty).names.contains(name),
        with_param(finder, name, ty).exprs == finder.exprs,
        forall|other: Seq<char>| #[trigger]
            finder.names.contains(other) ==> with_param(finder, name, ty).names.contains(other),
{
    let after = with_param(finder, name, ty);
    if !finder.names.contains(name) {
        assert(after.names[finder.names.len() as int] == name);
        assert forall|other: Seq<char>| #[trigger]
            finder.names.contains(other) implies after.names.contains(other) by {
            let k = choose|k: int| 0 <= k < finder.names.len() && finder.names[k] == other;
            assert(after.names[k] == other);
        }
        assert forall|i: int| 0 <= i < after.params.len() implies #[trigger] after.params[i]
            == after.names[i] + ": "@ + param_type(seeds, after.names[i], scope) by {
            if i < finder.params.len() {
                assert(after.params[i] == finder.params[i]);
            }
        }
        assert forall|i: int, j: int|
            0 <= i < j < after.names.len() implies after.names[i] != after.names[j] by {
            if j == finder.names.len() {
                assert(finder.names.contains(finder.names[i]));
            }
        }
    }
}

proof fn lemma_finder_seeds(seeds: Seq<Seed>, scope: ScopeView)
    ensures
        finder_seeds(seeds, scope) is Some <==> forall|i: int|
            0 <= i < seeds.len() ==> findable(#[trigger] seeds[i], scope),
        finder_seeds(seeds, scope) matches Some(finder) ==> fits(finder, seeds, scope),
    decreases seeds.len(),
{
    if seeds.len() == 0 {
        assert(finder_seeds(seeds, scope)->Some_0.exprs =~= seeds.map_values(
            |seed: Seed| found_from(seed, scope),
        ));
    } else {
        let before = seeds.drop_last();
        let last = seeds.last();
        lemma_finder_seeds(before, scope);
        lemma_among(last.root, scope.fields);
        lemma_among(last.root, scope.args);
        assert(seeds[seeds.len() - 1] == last);
        if let Some(earlier) = finder_seeds(before, scope) {
            assert forall|i: int| 0 <= i < seeds.len() - 1 implies findable(
                #[trigger] seeds[i],
                scope,
            ) by {
                assert(before[i] == seeds[i]);
            }
            assert(before.push(last) =~= seeds);
            lemma_seed_more(earlier, before, last, scope);
            if is_param(last, scope) {
                let root = last.root->Some_0@;
                lemma_root_more(before, last, root);
                if begins_with_one(last.root, scope.fields) {
                    lemma_with_param(earlier, root, "&anchor_lang::Address"@, seeds, scope);
                } else {
                    assert(!scope.fields.contains(root));
                    lemma_with_param(earlier, root, "&[u8]"@, seeds, scope);
                }
            }
            if let Some(finder) = finder_seeds(seeds, scope) {
                assert forall|i: int| 0 <= i < finder.names.len() implies is_root(
                    seeds,
                    #[trigger] finder.names[i],
                ) by {
                    if i < earlier.names.len() {
                        assert(finder.names[i] == earlier.names[i]);
                    }
                }
                assert(finder.exprs =~= seeds.map_values(|seed: Seed| found_from(seed, scope)));
                assert forall|i: int|
                    0 <= i < seeds.len() && is_param(#[trigger] seeds[i], scope) implies finder.names.contains(
                seeds[i].root->Some_0@) by {
                    if i < before.len() {
                        assert(before[i] == seeds[i]);
                        assert(earlier.names.contains(before[i].root->Some_0@));
                    }
                }
            }
        } else {
            let i = choose|i: int|
                0 <= i < before.len() && !findable(#[trigger] before[i], scope);
            assert(seeds[i] == before[i]);
        }
    }
}

proof fn lemma_same_root(a: Option<String>, b: Option<String>, scope: ScopeView)
    requires
        a is Some,
        b is Some,
        a->Some_0@ == b->Some_0@,
    ensures
        begins_with_one(a, scope.fields) == begins_with_one(b, scope.fields),
        begins_with_one(a, scope.args) == begins_with_one(b, scope.args),
{
    lemma_among(a, scope.fields);
    lemma_among(b, scope.fields);
    lemma_among(a, scope.args);
    lemma_among(b, scope.args);
}

/// Whether a function can find an address for a program.
pub open spec fn program_findable(program: Option<SeedsProgram>, scope: ScopeView) -> bool {
    match program {
        None => true,
        Some(program) => program.root is Some || !(program.has_macro || program.references_local),
    }
}

/// The program in the function that finds an address.
pub open spec fn program_found(program: Option<SeedsProgram>, scope: ScopeView) -> Seq<char> {
    match program {
        None => "&"@ + scope.program_id,
        Some(program) => if begins_with_one(program.root, scope.fields) || begins_with_one(
            program.root,
            scope.args,
        ) {
            program.root->Some_0@
        } else {
            "&"@ + program.tokens@
        },
    }
}

/// The function that finds an address, given its parameters.
pub open spec fn finder_said(
    field: AccountField,
    scope: ScopeView,
    params: Seq<Seq<char>>,
    program: Seq<char>,
) -> Seq<char> {
    let seeds = field.seeds->Array_0@;
    "pub fn "@ + item_name("find_"@ + field.name.text@ + "_address"@)->Ok_0 + "("@ + parted(params, ", "@) + ") -> (anchor_lang::Address, u8) {\n    anchor_lang::find_program_address(\n        &["@ + parted(seeds.map_values(|seed: Seed| found_from(seed, scope)), ", "@) + "],\n        "@ + program + ",\n    )\n}"@
}

/// There is a function that finds the address of a field exactly where its seeds are
/// listed, each is a field, an argument or known bytes, and the program is known. It
/// derives the address from all seeds in order, and has each field and argument among
/// them as a parameter once: a field by its address and an argument by its bytes.
pub proof fn lemma_finder_written(field: AccountField, scope: ScopeView)
    requires
        finder_of(field, scope) is Ok,
    ensures
        ({
            let seeds = field.seeds->Array_0@;
            let found = finder_of(field, scope)->Ok_0;
            &&& found is Some <==> field.seeds is Array && program_findable(
                field.seeds_program,
                scope,
            ) && forall|i: int|
                0 <= i < seeds.len() ==> findable(#[trigger] seeds[i], scope)
            &&& found is Some ==> exists|finder: FinderView|
                {
                    &&& #[trigger] well_made(finder, seeds, scope)
                    &&& forall|i: int|
                        0 <= i < seeds.len() && is_param(#[trigger] seeds[i], scope)
                            ==> finder.names.contains(seeds[i].root->Some_0@)
                    &&& found->Some_0 == finder_said(
                        field,
                        scope,
                        finder.params,
                        program_found(field.seeds_program, scope),
                    )
                }
        }),
{
    if let Seeds::Array(list) = field.seeds {
        let seeds = list@;
        lemma_finder_seeds(seeds, scope);
        if let Some(program) = field.seeds_program {
            lemma_among(program.root, scope.fields);
            lemma_among(program.root, scope.args);
        }
        if let Some(earlier) = finder_seeds(seeds, scope) {
            if let Some((finder, program)) = finder_program(
                earlier,
                field.seeds_program,
                scope,
            ) {
                if let Some(given) = field.seeds_program {
                    if begins_with_one(given.root, scope.fields) || begins_with_one(
                        given.root,
                        scope.args,
                    ) {
                        let root = given.root->Some_0@;
                        assert(earlier.names.contains(root) || param_type(seeds, root, scope)
                            == "&anchor_lang::Address"@) by {
                            if !scope.fields.contains(root) && is_root(seeds, root) {
                                let i = choose|i: int|
                                    0 <= i < seeds.len() && (#[trigger] seeds[i]).root is Some
                                        && seeds[i].root->Some_0@ == root;
                                lemma_same_root(seeds[i].root, given.root, scope);
                                assert(is_param(seeds[i], scope));
                            }
                        }
                        lemma_with_param(earlier, root, "&anchor_lang::Address"@, seeds, scope);
                    }
                }
                assert(well_made(finder, seeds, scope));
                assert forall|i: int|
                    0 <= i < seeds.len() && is_param(#[trigger] seeds[i], scope) implies finder.names.contains(
                seeds[i].root->Some_0@) by {
                    assert(earlier.names.contains(seeds[i].root->Some_0@));
                }
                lemma_joined_parted(finder.params, ", "@);
                lemma_joined_parted(finder.exprs, ", "@);
                lemma_finder_text(
                    seq![
                        item_name("find_"@ + field.name.text@ + "_address"@)->Ok_0,
                        joined(finder.params, ", "@),
                        joined(finder.exprs, ", "@),
                        program,
                    ],
                );
            }
        }
    }
}

} // verus!
