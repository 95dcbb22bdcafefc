//! The order in which a client derives addresses: programs first, then addresses
//! whose seeds are known.

use crate::account_fields::{FieldKind, FieldKindView};
use crate::text::{contains_text, texts};
use vstd::prelude::*;

verus! {

/// The kinds of the fields, as sequences of characters.
pub open spec fn kinds_view(kinds: Seq<FieldKind>) -> Seq<FieldKindView> {
    kinds.map_values(|kind: FieldKind| kind@)
}

/// Whether a client gives an address under the given name.
pub open spec fn is_given(
    names: Seq<Seq<char>>,
    kinds: Seq<FieldKindView>,
    name: Seq<char>,
) -> bool {
    exists|k: int|
        0 <= k < names.len() && (#[trigger] names[k]) == name && kinds[k] is Required
}

/// Whether one of the fields that were derived has the given name.
pub open spec fn is_derived(names: Seq<Seq<char>>, order: Seq<usize>, name: Seq<char>) -> bool {
    exists|p: int| 0 <= p < order.len() && names[(#[trigger] order[p]) as int] == name
}

/// Whether the address under a name is known once the fields in `order` were
/// derived.
pub open spec fn is_known(
    names: Seq<Seq<char>>,
    kinds: Seq<FieldKindView>,
    order: Seq<usize>,
    name: Seq<char>,
) -> bool {
    is_given(names, kinds, name) || is_derived(names, order, name)
}

/// Whether all addresses that a field needs are known.
pub open spec fn all_known(
    names: Seq<Seq<char>>,
    kinds: Seq<FieldKindView>,
    order: Seq<usize>,
    deps: Seq<Seq<char>>,
) -> bool {
    forall|d: int| 0 <= d < deps.len() ==> is_known(names, kinds, order, #[trigger] deps[d])
}

/// Whether a field can be derived now: its address is not known, and all that it
/// needs is.
pub open spec fn is_ready(
    names: Seq<Seq<char>>,
    kinds: Seq<FieldKindView>,
    order: Seq<usize>,
    i: int,
) -> bool {
    &&& !is_known(names, kinds, order, names[i])
    &&& kinds[i] matches FieldKindView::Pda { deps, .. } && all_known(names, kinds, order, deps)
}

/// The programs among the first `n` fields.
pub open spec fn programs(kinds: Seq<FieldKindView>, n: int) -> Seq<usize>
    decreases n,
{
    if n <= 0 {
        Seq::empty()
    } else if kinds[n - 1] is Program {
        programs(kinds, n - 1).push((n - 1) as usize)
    } else {
        programs(kinds, n - 1)
    }
}

/// The order after one walk over the fields from the given one on, in which each
/// field that is ready is derived.
pub open spec fn walked(
    names: Seq<Seq<char>>,
    kinds: Seq<FieldKindView>,
    order: Seq<usize>,
    i: int,
) -> Seq<usize>
    decreases names.len() - i,
{
    if i >= names.len() {
        order
    } else if is_ready(names, kinds, order, i) {
        walked(names, kinds, order.push(i as usize), i + 1)
    } else {
        walked(names, kinds, order, i + 1)
    }
}

/// The order after as many walks as derive something.
pub open spec fn settled(
    names: Seq<Seq<char>>,
    kinds: Seq<FieldKindView>,
    order: Seq<usize>,
) -> Seq<usize>
    decreases names.len() - order.len(),
{
    let next = walked(names, kinds, order, 0);
    if order.len() < next.len() <= names.len() {
        settled(names, kinds, next)
    } else {
        next
    }
}

/// The order in which the fields are derived.
pub open spec fn derivation_order(names: Seq<Seq<char>>, kinds: Seq<FieldKindView>) -> Seq<usize> {
    settled(names, kinds, programs(kinds, names.len() as int))
}

// ---------------------------------------------------------------------------
// Laws
// ---------------------------------------------------------------------------

/// Whether an order holds fields, and none twice.
pub open spec fn is_order(names: Seq<Seq<char>>, order: Seq<usize>) -> bool {
    &&& order.no_duplicates()
    &&& forall|p: int| 0 <= p < order.len() ==> (#[trigger] order[p]) < names.len()
}

/// Whether each field in an order is a program, or needs only what is known before
/// it.
pub open spec fn is_sound(
    names: Seq<Seq<char>>,
    kinds: Seq<FieldKindView>,
    order: Seq<usize>,
) -> bool {
    forall|p: int|
        0 <= p < order.len() ==> (match kinds[(#[trigger] order[p]) as int] {
            FieldKindView::Required => false,
            FieldKindView::Program(_) => true,
            FieldKindView::Pda { deps, .. } => all_known(names, kinds, order.take(p), deps),
        })
}

proof fn lemma_order_len(names: Seq<Seq<char>>, order: Seq<usize>)
    requires
        is_order(names, order),
    ensures
        order.len() <= names.len(),
{
    let places = order.map_values(|p: usize| p as int);
    assert(places.no_duplicates()) by {
        assert forall|a: int, b: int|
            0 <= a < places.len() && 0 <= b < places.len() && a != b implies places[a]
            != places[b] by {
            assert(order[a] != order[b]);
        }
    }
    places.unique_seq_to_set();
    let all = vstd::set_lib::set_int_range(0, names.len() as int);
    vstd::set_lib::lemma_int_range(0, names.len() as int);
    assert(places.to_set().subset_of(all)) by {
        assert forall|x: int| places.to_set().contains(x) implies all.contains(x) by {
            let p = choose|p: int| 0 <= p < places.len() && places[p] == x;
            assert(order[p] < names.len());
        }
    }
    vstd::set_lib::lemma_len_subset(places.to_set(), all);
}

proof fn lemma_known_grows(
    names: Seq<Seq<char>>,
    kinds: Seq<FieldKindView>,
    order: Seq<usize>,
    i: usize,
    name: Seq<char>,
)
    ensures
        is_known(names, kinds, order.push(i), name) == (is_known(names, kinds, order, name)
            || names[i as int] == name),
{
    let next = order.push(i);
    if is_derived(names, order, name) {
        let p = choose|p: int| 0 <= p < order.len() && names[(#[trigger] order[p]) as int] == name;
        assert(next[p] == order[p]);
    }
    if names[i as int] == name {
        assert(next[order.len() as int] == i);
    }
    if is_derived(names, next, name) {
        let p = choose|p: int| 0 <= p < next.len() && names[(#[trigger] next[p]) as int] == name;
        if p < order.len() {
            assert(order[p] == next[p]);
        }
    }
}

proof fn lemma_programs(names: Seq<Seq<char>>, kinds: Seq<FieldKindView>, n: int)
    requires
        0 <= n <= names.len(),
        names.len() <= usize::MAX,
    ensures
        is_order(names, programs(kinds, n)),
        is_sound(names, kinds, programs(kinds, n)),
        forall|p: int|
            0 <= p < programs(kinds, n).len() ==> (#[trigger] programs(kinds, n)[p]) < n
                && kinds[programs(kinds, n)[p] as int] is Program,
    decreases n,
{
    if n > 0 {
        lemma_programs(names, kinds, n - 1);
        let before = programs(kinds, n - 1);
        let all = programs(kinds, n);
        assert forall|p: int| 0 <= p < all.len() implies (#[trigger] all[p]) < n
            && kinds[all[p] as int] is Program by {
            if p < before.len() {
                assert(all[p] == before[p]);
            }
        }
    }
}

proof fn lemma_push_keeps(
    names: Seq<Seq<char>>,
    kinds: Seq<FieldKindView>,
    order: Seq<usize>,
    i: int,
)
    requires
        0 <= i < names.len(),
        names.len() <= usize::MAX,
        is_order(names, order),
        is_sound(names, kinds, order),
        is_ready(names, kinds, order, i),
    ensures
        is_order(names, order.push(i as usize)),
        is_sound(names, kinds, order.push(i as usize)),
{
    let next = order.push(i as usize);
    assert forall|p: int| 0 <= p < order.len() implies order[p] != i by {
        if order[p] == i {
            assert(names[order[p] as int] == names[i]);
        }
    }
    assert forall|p: int| 0 <= p < next.len() implies (match kinds[(#[trigger] next[p]) as int] {
        FieldKindView::Required => false,
        FieldKindView::Program(_) => true,
        FieldKindView::Pda { deps, .. } => all_known(names, kinds, next.take(p), deps),
    }) by {
        assert(next.take(p) == order.take(p));
        if p == order.len() {
            assert(order.take(p) == order);
        } else {
            assert(order[p] == next[p]);
        }
    }
}

proof fn lemma_walked(
    names: Seq<Seq<char>>,
    kinds: Seq<FieldKindView>,
    order: Seq<usize>,
    i: int,
)
    requires
        0 <= i <= names.len(),
        names.len() <= usize::MAX,
        is_order(names, order),
        is_sound(names, kinds, order),
    ensures
        is_order(names, walked(names, kinds, order, i)),
        is_sound(names, kinds, walked(names, kinds, order, i)),
        walked(names, kinds, order, i).len() >= order.len(),
        walked(names, kinds, order, i).len() == order.len() ==> walked(names, kinds, order, i)
            == order && forall|k: int|
            i <= k < names.len() ==> !#[trigger] is_ready(names, kinds, order, k),
    decreases names.len() - i,
{
    if i < names.len() {
        if is_ready(names, kinds, order, i) {
            lemma_push_keeps(names, kinds, order, i);
            lemma_walked(names, kinds, order.push(i as usize), i + 1);
        } else {
            lemma_walked(names, kinds, order, i + 1);
        }
    }
}

proof fn lemma_settled(names: Seq<Seq<char>>, kinds: Seq<FieldKindView>, order: Seq<usize>)
    requires
        names.len() <= usize::MAX,
        is_order(names, order),
        is_sound(names, kinds, order),
    ensures
        is_order(names, settled(names, kinds, order)),
        is_sound(names, kinds, settled(names, kinds, order)),
        forall|k: int|
            0 <= k < names.len() ==> !#[trigger] is_ready(
                names,
                kinds,
                settled(names, kinds, order),
                k,
            ),
    decreases names.len() - order.len(),
{
    let next = walked(names, kinds, order, 0);
    lemma_walked(names, kinds, order, 0);
    lemma_order_len(names, next);
    if order.len() < next.len() {
        lemma_settled(names, kinds, next);
    }
}

/// Each field that is derived is a program, or needs only addresses that the client
/// gives or that are derived before it. No field is derived twice, and none that could
/// be derived is left out.
pub proof fn lemma_derivation_order(names: Seq<Seq<char>>, kinds: Seq<FieldKindView>)
    requires
        names.len() <= usize::MAX,
    ensures
        is_order(names, derivation_order(names, kinds)),
        is_sound(names, kinds, derivation_order(names, kinds)),
        forall|k: int|
            0 <= k < names.len() ==> !#[trigger] is_ready(
                names,
                kinds,
                derivation_order(names, kinds),
                k,
            ),
{
    lemma_programs(names, kinds, names.len() as int);
    lemma_settled(names, kinds, programs(kinds, names.len() as int));
}

// ---------------------------------------------------------------------------
// Finding the order
// ---------------------------------------------------------------------------

spec fn matches_known(
    resolved: Seq<String>,
    names: Seq<Seq<char>>,
    kinds: Seq<FieldKindView>,
    order: Seq<usize>,
) -> bool {
    forall|name: Seq<char>| #[trigger]
        texts(resolved).contains(name) == is_known(names, kinds, order, name)
}

proof fn lemma_resolved_push(
    resolved: Seq<String>,
    name: String,
    names: Seq<Seq<char>>,
    kinds: Seq<FieldKindView>,
    order: Seq<usize>,
    i: usize,
)
    requires
        matches_known(resolved, names, kinds, order),
        names[i as int] == name@,
    ensures
        matches_known(resolved.push(name), names, kinds, order.push(i)),
{
    let next = texts(resolved.push(name));
    assert(next == texts(resolved).push(name@));
    assert forall|other: Seq<char>| #[trigger] next.contains(other) == is_known(
        names,
        kinds,
        order.push(i),
        other,
    ) by {
        lemma_known_grows(names, kinds, order, i, other);
        assert(texts(resolved).contains(other) == is_known(names, kinds, order, other));
        if next.contains(other) {
            let k = choose|k: int| 0 <= k < next.len() && next[k] == other;
            if k < resolved.len() {
                assert(texts(resolved)[k] == other);
            }
        }
        if texts(resolved).contains(other) {
            let k = choose|k: int| 0 <= k < resolved.len() && texts(resolved)[k] == other;
            assert(next[k] == other);
        }
        if name@ == other {
            assert(next[resolved.len() as int] == other);
        }
    }
}

fn deps_known(deps: &Vec<String>, resolved: &Vec<String>) -> (out: bool)
    ensures
        out == forall|d: int|
            0 <= d < deps@.len() ==> texts(resolved@).contains((#[trigger] texts(deps@)[d])),
{
    for d in 0..deps.len()
        invariant
            forall|k: int|
                0 <= k < d ==> texts(resolved@).contains((#[trigger] texts(deps@)[k])),
    {
        if !contains_text(resolved, deps[d].as_str()) {
            assert(!texts(resolved@).contains(texts(deps@)[d as int]));
            return false;
        }
    }
    true
}

fn find_given(names: &Vec<String>, kinds: &Vec<FieldKind>) -> (out: Vec<String>)
    requires
        names@.len() == kinds@.len(),
    ensures
        matches_known(out@, texts(names@), kinds_view(kinds@), Seq::empty()),
{
    let mut out: Vec<String> = Vec::new();
    let ghost all = texts(names@);
    let ghost views = kinds_view(kinds@);
    for i in 0..names.len()
        invariant
            names@.len() == kinds@.len(),
            all == texts(names@),
            views == kinds_view(kinds@),
            forall|name: Seq<char>| #[trigger]
                texts(out@).contains(name) == exists|k: int|
                    0 <= k < i && (#[trigger] all[k]) == name && views[k] is Required,
    {
        let ghost before = texts(out@);
        let ghost old_out = out@;
        let mut required = false;
        if let FieldKind::Required = &kinds[i] {
            required = true;
            out.push(names[i].clone());
            assert(texts(out@) == before.push(names@[i as int]@));
        }
        assert(required == (views[i as int] is Required));
        assert forall|name: Seq<char>| #[trigger]
            texts(out@).contains(name) == exists|k: int|
                0 <= k < i + 1 && (#[trigger] all[k]) == name && views[k] is Required by {
            assert(before.contains(name) == exists|k: int|
                0 <= k < i && (#[trigger] all[k]) == name && views[k] is Required);
            if required {
                assert(texts(out@) == before.push(all[i as int]));
                if before.contains(name) {
                    let k = choose|k: int| 0 <= k < before.len() && before[k] == name;
                    assert(texts(out@)[k] == name);
                }
                if all[i as int] == name {
                    assert(texts(out@)[before.len() as int] == name);
                }
                if texts(out@).contains(name) {
                    let k = choose|k: int| 0 <= k < texts(out@).len() && texts(out@)[k] == name;
                    if k < before.len() {
                        assert(before[k] == name);
                    } else {
                        assert(all[i as int] == name);
                    }
                }
            }
        }
    }
    out
}

/// Finds the order in which the fields are derived.
pub fn find_order(names: &Vec<String>, kinds: &Vec<FieldKind>) -> (order: Vec<usize>)
    requires
        names@.len() == kinds@.len(),
    ensures
        order@ == derivation_order(texts(names@), kinds_view(kinds@)),
        forall|p: int| 0 <= p < order@.len() ==> (#[trigger] order@[p]) < names@.len(),
{
    let ghost all = texts(names@);
    let ghost views = kinds_view(kinds@);
    let len: usize = names.len();
    let mut resolved = find_given(names, kinds);
    let mut order: Vec<usize> = Vec::new();
    for i in 0..len
        invariant
            len == names@.len(),
            names@.len() == kinds@.len(),
            all == texts(names@),
            views == kinds_view(kinds@),
            order@ == programs(views, i as int),
            matches_known(resolved@, all, views, order@),
    {
        if let FieldKind::Program(_) = &kinds[i] {
            assert(views[i as int] is Program);
            proof {
                lemma_resolved_push(resolved@, names@[i as int], all, views, order@, i);
            }
            order.push(i);
            resolved.push(names[i].clone());
        } else {
            assert(!(views[i as int] is Program));
        }
    }
    proof {
        lemma_programs(all, views, all.len() as int);
        lemma_order_len(all, order@);
    }
    let mut progress = true;
    while progress
        invariant
            len == names@.len(),
            names@.len() == kinds@.len(),
            all == texts(names@),
            views == kinds_view(kinds@),
            is_order(all, order@),
            is_sound(all, views, order@),
            order@.len() <= names@.len(),
            matches_known(resolved@, all, views, order@),
            progress ==> derivation_order(all, views) == settled(all, views, order@),
            !progress ==> derivation_order(all, views) == order@,
        decreases names@.len() - order@.len() + (if progress { 1int } else { 0int }),
    {
        progress = false;
        let ghost start = order@;
        for i in 0..len
            invariant
                len == names@.len(),
                names@.len() == kinds@.len(),
                all == texts(names@),
                views == kinds_view(kinds@),
                is_order(all, order@),
                is_sound(all, views, order@),
                matches_known(resolved@, all, views, order@),
                start.len() <= order@.len(),
                progress == (start.len() < order@.len()),
                walked(all, views, start, 0) == walked(all, views, order@, i as int),
        {
            assert(texts(resolved@).contains(all[i as int]) == is_known(
                all,
                views,
                order@,
                all[i as int],
            ));
            assert(views[i as int] == kinds@[i as int]@);
            if !contains_text(&resolved, names[i].as_str()) {
                if let FieldKind::Pda { deps, .. } = &kinds[i] {
                    if deps_known(deps, &resolved) {
                        proof {
                            assert forall|d: int| 0 <= d < texts(deps@).len() implies is_known(
                                all,
                                views,
                                order@,
                                #[trigger] texts(deps@)[d],
                            ) by {
                                assert(texts(resolved@).contains(texts(deps@)[d]));
                            }
                            assert(is_ready(all, views, order@, i as int));
                            lemma_push_keeps(all, views, order@, i as int);
                            lemma_resolved_push(resolved@, names@[i as int], all, views, order@, i);
                        }
                        order.push(i);
                        resolved.push(names[i].clone());
                        progress = true;
                    } else {
                        proof {
                            let d = choose|d: int|
                                0 <= d < deps@.len() && !texts(resolved@).contains(
                                    #[trigger] texts(deps@)[d],
                                );
                            assert(!is_known(all, views, order@, texts(deps@)[d]));
                            assert(!is_ready(all, views, order@, i as int));
                        }
                    }
                }
            }
        }
        proof {
            lemma_walked(all, views, start, 0);
            lemma_order_len(all, order@);
        }
    }
    order
}

} // verus!
