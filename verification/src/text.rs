//! Text: concatenation, joining, comparison and decimal numbers.

use vstd::prelude::*;

verus! {

/// `String::push`: appends one character at the end.
pub assume_specification[ String::push ](s: &mut String, ch: char)
    ensures
        final(s)@ == old(s)@.push(ch),
;

/// Whether two strings hold the same characters.
pub fn same_text(a: &str, b: &str) -> (same: bool)
    ensures
        same == (a@ == b@),
{
    a.to_owned() == b.to_owned()
}

/// The texts that a list of strings holds.
pub open spec fn texts(strings: Seq<String>) -> Seq<Seq<char>> {
    strings.map_values(|s: String| s@)
}

/// All parts, one after the other.
pub open spec fn concat_all(parts: Seq<Seq<char>>) -> Seq<char>
    decreases parts.len(),
{
    if parts.len() == 0 {
        Seq::empty()
    } else {
        concat_all(parts.drop_last()) + parts.last()
    }
}

/// All parts, with `sep` between each two neighbours.
pub open spec fn joined(parts: Seq<Seq<char>>, sep: Seq<char>) -> Seq<char>
    decreases parts.len(),
{
    if parts.len() == 0 {
        Seq::empty()
    } else if parts.len() == 1 {
        parts[0]
    } else {
        joined(parts.drop_last(), sep) + sep + parts.last()
    }
}

/// Each part with `sep` behind it.
pub open spec fn terminated(parts: Seq<Seq<char>>, sep: Seq<char>) -> Seq<char> {
    concat_all(parts.map_values(|part: Seq<char>| part + sep))
}

/// Concatenates all parts.
pub fn concat_strings(parts: &Vec<String>) -> (out: String)
    ensures
        out@ == concat_all(texts(parts@)),
{
    let mut out = String::new();
    for i in 0..parts.len()
        invariant
            out@ == concat_all(texts(parts@).take(i as int)),
    {
        assert(texts(parts@).take(i + 1).drop_last() == texts(parts@).take(i as int));
        out.append(parts[i].as_str());
    }
    assert(texts(parts@).take(parts.len() as int) == texts(parts@));
    out
}

/// Joins the parts with `sep` between each two neighbours.
pub fn join_strings(parts: &Vec<String>, sep: &str) -> (out: String)
    ensures
        out@ == joined(texts(parts@), sep@),
{
    let mut out = String::new();
    for i in 0..parts.len()
        invariant
            out@ == joined(texts(parts@).take(i as int), sep@),
    {
        assert(texts(parts@).take(i + 1).drop_last() == texts(parts@).take(i as int));
        if i > 0 {
            out.append(sep);
            out.append(parts[i].as_str());
        } else {
            out.append(parts[i].as_str());
            assert(Seq::<char>::empty() + parts[0]@ == parts[0]@);
        }
    }
    assert(texts(parts@).take(parts.len() as int) == texts(parts@));
    out
}

/// Writes `sep` behind each part.
pub fn terminate_strings(parts: &Vec<String>, sep: &str) -> (out: String)
    ensures
        out@ == terminated(texts(parts@), sep@),
{
    let closed = map_texts(
        parts,
        |part: &String| -> (s: String)
            ensures
                s@ == part@ + sep@
            { part.clone().concat(sep) },
        Ghost(|part: String| part@ + sep@),
    );
    assert(parts@.map_values(|part: String| part@ + sep@) == texts(parts@).map_values(
        |part: Seq<char>| part + sep@,
    ));
    concat_strings(&closed)
}

/// The text of each item, in order.
pub fn map_texts<T, F: Fn(&T) -> String>(
    items: &Vec<T>,
    f: F,
    Ghost(text): Ghost<spec_fn(T) -> Seq<char>>,
) -> (out: Vec<String>)
    requires
        forall|i: int| 0 <= i < items@.len() ==> #[trigger] f.requires((&items@[i],)),
        forall|i: int, s: String|
            0 <= i < items@.len() && #[trigger] f.ensures((&items@[i],), s) ==> s@ == text(
                items@[i],
            ),
    ensures
        texts(out@) == items@.map_values(text),
        out@.len() == items@.len(),
{
    let mut out: Vec<String> = Vec::new();
    for i in 0..items.len()
        invariant
            out@.len() == i,
            forall|k: int| 0 <= k < i ==> (#[trigger] out@[k])@ == text(items@[k]),
            forall|i: int| 0 <= i < items@.len() ==> #[trigger] f.requires((&items@[i],)),
            forall|i: int, s: String|
                0 <= i < items@.len() && #[trigger] f.ensures((&items@[i],), s) ==> s@ == text(
                    items@[i],
                ),
    {
        out.push(f(&items[i]));
    }
    assert(texts(out@) =~= items@.map_values(text));
    out
}

/// The texts that are there, in order.
pub open spec fn some_texts(parts: Seq<Option<Seq<char>>>) -> Seq<Seq<char>>
    decreases parts.len(),
{
    if parts.len() == 0 {
        Seq::empty()
    } else {
        match parts.last() {
            Some(text) => some_texts(parts.drop_last()).push(text),
            None => some_texts(parts.drop_last()),
        }
    }
}

/// A text that may be absent, as a sequence of characters.
pub open spec fn option_text(text: Option<String>) -> Option<Seq<char>> {
    match text {
        Some(text) => Some(text@),
        None => None,
    }
}

/// The text of each item that has one, in order.
pub fn filter_map_texts<T, F: Fn(&T) -> Option<String>>(
    items: &Vec<T>,
    f: F,
    Ghost(text): Ghost<spec_fn(T) -> Option<Seq<char>>>,
) -> (out: Vec<String>)
    requires
        forall|i: int| 0 <= i < items@.len() ==> #[trigger] f.requires((&items@[i],)),
        forall|i: int, s: Option<String>|
            0 <= i < items@.len() && #[trigger] f.ensures((&items@[i],), s) ==> option_text(s)
                == text(items@[i]),
    ensures
        texts(out@) == some_texts(items@.map_values(text)),
{
    let mut out: Vec<String> = Vec::new();
    let ghost parts = items@.map_values(text);
    assert(texts(out@) == Seq::<Seq<char>>::empty());
    for i in 0..items.len()
        invariant
            parts == items@.map_values(text),
            texts(out@) == some_texts(parts.take(i as int)),
            forall|i: int| 0 <= i < items@.len() ==> #[trigger] f.requires((&items@[i],)),
            forall|i: int, s: Option<String>|
                0 <= i < items@.len() && #[trigger] f.ensures((&items@[i],), s) ==> option_text(s)
                    == text(items@[i]),
    {
        assert(parts.take(i + 1).drop_last() == parts.take(i as int));
        if let Some(part) = f(&items[i]) {
            let ghost before = texts(out@);
            out.push(part);
            assert(texts(out@) == before.push(part@));
        }
    }
    assert(parts.take(items@.len() as int) == parts);
    out
}

/// Whether the list holds the text.
pub fn contains_text(list: &Vec<String>, item: &str) -> (found: bool)
    ensures
        found == texts(list@).contains(item@),
{
    for i in 0..list.len()
        invariant
            forall|k: int| 0 <= k < i ==> (#[trigger] list@[k])@ != item@,
    {
        if same_text(list[i].as_str(), item) {
            assert(texts(list@)[i as int] == item@);
            return true;
        }
    }
    assert forall|k: int| 0 <= k < texts(list@).len() implies texts(list@)[k] != item@ by {
        assert(list@[k]@ != item@);
    }
    false
}

/// Whether `text` begins with `prefix`.
pub open spec fn has_prefix<T>(text: Seq<T>, prefix: Seq<T>) -> bool {
    prefix.len() <= text.len() && text.take(prefix.len() as int) == prefix
}

/// The characters of a string, in order.
pub fn chars_of(text: &str) -> (out: Vec<char>)
    ensures
        out@ == text@,
{
    let mut out: Vec<char> = Vec::new();
    for ch in it: text.chars()
        invariant
            out@ == it.seq().take(it.index()),
            it.seq() == text@,
    {
        out.push(ch);
    }
    assert(text@.take(text@.len() as int) == text@);
    out
}

/// Whether `text` begins with `prefix`.
pub fn starts_with(text: &str, prefix: &str) -> (found: bool)
    ensures
        found == has_prefix(text@, prefix@),
{
    let all = chars_of(text);
    let head = chars_of(prefix);
    if head.len() > all.len() {
        return false;
    }
    for i in 0..head.len()
        invariant
            all@ == text@,
            head@ == prefix@,
            head@.len() <= all@.len(),
            forall|k: int| 0 <= k < i ==> all@[k] == head@[k],
    {
        if all[i] != head[i] {
            assert(all@.take(head@.len() as int)[i as int] != head@[i as int]);
            return false;
        }
    }
    assert(all@.take(head@.len() as int) =~= head@);
    true
}

/// Whether `text` begins with `prefix`.
pub fn bytes_start_with(text: &Vec<u8>, prefix: &Vec<u8>) -> (found: bool)
    ensures
        found == has_prefix(text@, prefix@),
{
    if prefix.len() > text.len() {
        return false;
    }
    for i in 0..prefix.len()
        invariant
            prefix@.len() <= text@.len(),
            forall|k: int| 0 <= k < i ==> text@[k] == prefix@[k],
    {
        if text[i] != prefix[i] {
            assert(text@.take(prefix@.len() as int)[i as int] != prefix@[i as int]);
            return false;
        }
    }
    assert(text@.take(prefix@.len() as int) =~= prefix@);
    true
}

/// Whether `a` comes before `b`: at the first place where they differ, `a` has
/// the smaller character or has ended.
pub open spec fn text_less(a: Seq<char>, b: Seq<char>) -> bool
    decreases b.len(),
{
    if b.len() == 0 {
        false
    } else if a.len() == 0 {
        true
    } else if a[0] != b[0] {
        a[0] < b[0]
    } else {
        text_less(a.drop_first(), b.drop_first())
    }
}

/// Whether `a` comes before `b`.
pub fn is_less(a: &str, b: &str) -> (less: bool)
    ensures
        less == text_less(a@, b@),
{
    let left = chars_of(a);
    let right = chars_of(b);
    let mut i: usize = 0;
    assert(a@.skip(0) == a@);
    assert(b@.skip(0) == b@);
    while i < left.len() && i < right.len()
        invariant
            left@ == a@,
            right@ == b@,
            i <= a@.len(),
            i <= b@.len(),
            text_less(a@, b@) == text_less(a@.skip(i as int), b@.skip(i as int)),
        decreases a@.len() - i,
    {
        if left[i] != right[i] {
            return left[i] < right[i];
        }
        assert(a@.skip(i as int).drop_first() == a@.skip(i + 1));
        assert(b@.skip(i as int).drop_first() == b@.skip(i + 1));
        i = i + 1;
    }
    i < right.len()
}

/// Of two different texts, exactly one comes before the other.
pub proof fn lemma_text_less_total(a: Seq<char>, b: Seq<char>)
    ensures
        text_less(a, b) || text_less(b, a) || a == b,
        !(text_less(a, b) && text_less(b, a)),
        a == b ==> !text_less(a, b),
    decreases b.len(),
{
    if a.len() > 0 && b.len() > 0 && a[0] == b[0] {
        lemma_text_less_total(a.drop_first(), b.drop_first());
        if a.drop_first() == b.drop_first() {
            assert(a == seq![a[0]] + a.drop_first());
            assert(b == seq![b[0]] + b.drop_first());
        }
    } else if a.len() == 0 && b.len() == 0 {
        assert(a == b);
    }
}

/// What comes before a text comes before what that text comes before.
pub proof fn lemma_text_less_transitive(a: Seq<char>, b: Seq<char>, c: Seq<char>)
    requires
        text_less(a, b),
        text_less(b, c),
    ensures
        text_less(a, c),
    decreases c.len(),
{
    if a.len() > 0 && a[0] == b[0] && b[0] == c[0] {
        lemma_text_less_transitive(a.drop_first(), b.drop_first(), c.drop_first());
    }
}

/// The decimal digit of a number below ten.
pub open spec fn digit(n: nat) -> char {
    (48 + n % 10) as char
}

/// The number in decimal, without leading zeros.
pub open spec fn decimal(n: nat) -> Seq<char>
    decreases n,
{
    if n < 10 {
        seq![digit(n)]
    } else {
        decimal(n / 10).push(digit(n % 10))
    }
}

/// Writes a number in decimal.
pub fn decimal_text(n: u64) -> (out: String)
    ensures
        out@ == decimal(n as nat),
    decreases n,
{
    let last: u8 = 48u8 + (n % 10) as u8;
    if n < 10 {
        let mut out = String::new();
        out.push(last as char);
        assert(out@ =~= seq![digit(n as nat)]);
        out
    } else {
        let mut out = decimal_text(n / 10);
        out.push(last as char);
        out
    }
}

/// Writes a number that a `u64` may not hold in decimal.
pub fn wide_decimal_text(n: u128) -> (out: String)
    ensures
        out@ == decimal(n as nat),
    decreases n,
{
    let last: u8 = 48u8 + (n % 10) as u8;
    if n < 10 {
        let mut out = String::new();
        out.push(last as char);
        assert(out@ =~= seq![digit(n as nat)]);
        out
    } else {
        let mut out = wide_decimal_text(n / 10);
        out.push(last as char);
        out
    }
}

/// Different numbers are written differently.
pub proof fn lemma_decimal_differs(a: nat, b: nat)
    requires
        a != b,
    ensures
        decimal(a) != decimal(b),
    decreases a + b,
{
    if decimal(a) == decimal(b) {
        assert(decimal(a).last() == digit(a % 10));
        assert(decimal(b).last() == digit(b % 10));
        assert(a % 10 == b % 10);
        if a < 10 || b < 10 {
            lemma_decimal_len(a);
            lemma_decimal_len(b);
        } else {
            assert(decimal(a).drop_last() == decimal(a / 10));
            assert(decimal(b).drop_last() == decimal(b / 10));
            lemma_decimal_differs(a / 10, b / 10);
        }
    }
}

proof fn lemma_decimal_len(n: nat)
    ensures
        decimal(n).len() >= 1,
        n >= 10 ==> decimal(n).len() >= 2,
    decreases n,
{
    if n >= 10 {
        lemma_decimal_len(n / 10);
    }
}

/// `true` or `false`.
pub open spec fn flag(value: bool) -> Seq<char> {
    if value {
        "true"@
    } else {
        "false"@
    }
}

/// Writes a truth value.
pub fn flag_text(value: bool) -> (out: String)
    ensures
        out@ == flag(value),
{
    if value {
        "true".to_owned()
    } else {
        "false".to_owned()
    }
}

/// Clones a list of strings.
pub fn clone_strings(list: &Vec<String>) -> (out: Vec<String>)
    ensures
        out@ == list@,
{
    let mut out: Vec<String> = Vec::new();
    for i in 0..list.len()
        invariant
            out@ == list@.take(i as int),
    {
        out.push(list[i].clone());
    }
    assert(list@.take(list@.len() as int) == list@);
    out
}

} // verus!
