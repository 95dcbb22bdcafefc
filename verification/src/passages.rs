//! Passages: texts that stand in a longer text, one behind the other.

use crate::template::{filled, hole_part, is_hole_letter, says, says_at};
use crate::text::{concat_all, joined, some_texts, terminated};
use vstd::prelude::*;

verus! {

/// Whether the passages stand in the text in this order, none over another.
pub open spec fn tells(text: Seq<char>, passages: Seq<Seq<char>>) -> bool
    decreases passages.len(),
{
    passages.len() == 0 || exists|at: int|
        #![trigger says_at(text, passages[0], at)]
        says_at(text, passages[0], at) && tells(
            text.skip(at + passages[0].len()),
            passages.skip(1),
        )
}

/// Lines: each of the texts with a line break behind it.
pub open spec fn lines(list: Seq<Seq<char>>) -> Seq<char>
    decreases list.len(),
{
    if list.len() == 0 {
        Seq::empty()
    } else {
        list[0] + seq!['\n'] + lines(list.skip(1))
    }
}

/// The texts that are there, in order.
pub open spec fn present(list: Seq<Option<Seq<char>>>) -> Seq<Seq<char>>
    decreases list.len(),
{
    if list.len() == 0 {
        Seq::empty()
    } else {
        match list[0] {
            Some(text) => seq![text] + present(list.skip(1)),
            None => present(list.skip(1)),
        }
    }
}

/// The texts of all lists, one list behind the other.
pub open spec fn all_of(lists: Seq<Seq<Seq<char>>>) -> Seq<Seq<char>>
    decreases lists.len(),
{
    if lists.len() == 0 {
        Seq::empty()
    } else {
        lists[0] + all_of(lists.skip(1))
    }
}

// ---------------------------------------------------------------------------
// Passages of joined texts
// ---------------------------------------------------------------------------

/// A text tells what a part of it tells.
pub proof fn lemma_tells_around(
    before: Seq<char>,
    text: Seq<char>,
    behind: Seq<char>,
    passages: Seq<Seq<char>>,
)
    requires
        tells(text, passages),
    ensures
        tells(before + text + behind, passages),
    decreases passages.len(),
{
    let whole = before + text + behind;
    if passages.len() > 0 {
        let first = passages[0];
        let at = choose|at: int|
            #![trigger says_at(text, first, at)]
            says_at(text, first, at) && tells(text.skip(at + first.len()), passages.skip(1));
        let rest = text.skip(at + first.len());
        lemma_tells_around(Seq::empty(), rest, behind, passages.skip(1));
        assert(whole.subrange(before.len() + at, before.len() + at + first.len())
            =~= text.subrange(at, at + first.len()));
        assert(whole.skip(before.len() + at + first.len()) =~= Seq::<char>::empty() + rest
            + behind);
        assert(says_at(whole, first, before.len() + at));
    }
}

/// Two texts tell together what each of them tells.
pub proof fn lemma_tells_joined(
    a: Seq<char>,
    b: Seq<char>,
    first: Seq<Seq<char>>,
    second: Seq<Seq<char>>,
)
    requires
        tells(a, first),
        tells(b, second),
    ensures
        tells(a + b, first + second),
    decreases first.len(),
{
    let all = first + second;
    if first.len() == 0 {
        assert(all =~= second);
        lemma_tells_around(a, b, Seq::empty(), second);
        assert(a + b + Seq::<char>::empty() =~= a + b);
    } else {
        let head = first[0];
        let at = choose|at: int|
            #![trigger says_at(a, head, at)]
            says_at(a, head, at) && tells(a.skip(at + head.len()), first.skip(1));
        let rest = a.skip(at + head.len());
        lemma_tells_joined(rest, b, first.skip(1), second);
        assert(all.skip(1) =~= first.skip(1) + second);
        assert((a + b).skip(at + head.len()) =~= rest + b);
        assert((a + b).subrange(at, at + head.len()) =~= a.subrange(at, at + head.len()));
        assert(all[0] == head);
        assert(says_at(a + b, all[0], at));
    }
}

/// A text tells itself.
pub proof fn lemma_tells_itself(text: Seq<char>)
    ensures
        tells(text, seq![text]),
{
    let passages = seq![text];
    assert(text.subrange(0, text.len() as int) =~= text);
    assert(passages.skip(1) =~= Seq::<Seq<char>>::empty());
    assert(tells(text.skip(text.len() as int), passages.skip(1)));
    assert(says_at(text, passages[0], 0));
}

/// What one passage tells is told in its place.
pub proof fn lemma_tells_within(
    text: Seq<char>,
    passages: Seq<Seq<char>>,
    k: int,
    inner: Seq<Seq<char>>,
)
    requires
        0 <= k < passages.len(),
        tells(text, passages),
        tells(passages[k], inner),
    ensures
        tells(text, passages.take(k) + inner + passages.skip(k + 1)),
    decreases passages.len(),
{
    let first = passages[0];
    let at = choose|at: int|
        #![trigger says_at(text, first, at)]
        says_at(text, first, at) && tells(text.skip(at + first.len()), passages.skip(1));
    let rest = text.skip(at + first.len());
    let out = passages.take(k) + inner + passages.skip(k + 1);
    if k == 0 {
        lemma_tells_joined(first, rest, inner, passages.skip(1));
        lemma_tells_around(text.take(at), first + rest, Seq::empty(), inner + passages.skip(1));
        assert(text.subrange(at, at + first.len()) == first);
        assert(text.take(at) + (first + rest) + Seq::<char>::empty() =~= text);
        assert(out =~= inner + passages.skip(1));
    } else {
        let tail = passages.skip(1);
        assert(tail[k - 1] == passages[k]);
        lemma_tells_within(rest, tail, k - 1, inner);
        assert(out.skip(1) =~= tail.take(k - 1) + inner + tail.skip(k));
        assert(out[0] == first);
        assert(says_at(text, out[0], at));
    }
}

/// Fewer passages are told as well.
pub proof fn lemma_tells_fewer(text: Seq<char>, passages: Seq<Seq<char>>, k: int)
    requires
        0 <= k < passages.len(),
        tells(text, passages),
    ensures
        tells(text, passages.take(k) + passages.skip(k + 1)),
{
    let none = Seq::<Seq<char>>::empty();
    assert(tells(passages[k], none));
    lemma_tells_within(text, passages, k, none);
    assert(passages.take(k) + none + passages.skip(k + 1) =~= passages.take(k) + passages.skip(
        k + 1,
    ));
}

/// What stands in a text is told by it, and the other way round.
pub proof fn lemma_tells_one(text: Seq<char>, passage: Seq<char>)
    ensures
        says(text, passage) <==> tells(text, seq![passage]),
{
    let passages = seq![passage];
    assert(passages.skip(1) =~= Seq::<Seq<char>>::empty());
    if says(text, passage) {
        let at = choose|at: int| says_at(text, passage, at);
        assert(tells(text.skip(at + passage.len()), passages.skip(1)));
        assert(says_at(text, passages[0], at));
    }
    if tells(text, passages) {
        let at = choose|at: int|
            #![trigger says_at(text, passages[0], at)]
            says_at(text, passages[0], at) && tells(
                text.skip(at + passages[0].len()),
                passages.skip(1),
            );
        assert(says_at(text, passage, at));
    }
}

/// Each of the passages that a text tells stands in it.
pub proof fn lemma_told_is_said(text: Seq<char>, passages: Seq<Seq<char>>, k: int)
    requires
        tells(text, passages),
        0 <= k < passages.len(),
    ensures
        says(text, passages[k]),
    decreases passages.len(),
{
    let first = passages[0];
    let at = choose|at: int|
        #![trigger says_at(text, first, at)]
        says_at(text, first, at) && tells(text.skip(at + first.len()), passages.skip(1));
    if k > 0 {
        let rest = text.skip(at + first.len());
        lemma_told_is_said(rest, passages.skip(1), k - 1);
        let own = passages[k];
        let behind = choose|behind: int| says_at(rest, own, behind);
        let place = at + first.len() + behind;
        assert(text.subrange(place, place + passages[k].len()) =~= rest.subrange(
            behind,
            behind + passages[k].len(),
        ));
        assert(says_at(text, passages[k], place));
    }
}

/// Where passages are told of a text that stands in another, the other tells them.
pub proof fn lemma_said_tells(text: Seq<char>, part: Seq<char>, passages: Seq<Seq<char>>)
    requires
        says(text, part),
        tells(part, passages),
    ensures
        tells(text, passages),
{
    let at = choose|at: int| says_at(text, part, at);
    lemma_tells_around(text.take(at), part, text.skip(at + part.len()), passages);
    assert(text.subrange(at, at + part.len()) == part);
    assert(text.take(at) + part + text.skip(at + part.len()) =~= text);
}

// ---------------------------------------------------------------------------
// Passages of lists
// ---------------------------------------------------------------------------

/// Texts put together begin with the first of them.
pub proof fn lemma_concat_front(parts: Seq<Seq<char>>)
    requires
        parts.len() > 0,
    ensures
        concat_all(parts) == parts[0] + concat_all(parts.skip(1)),
    decreases parts.len(),
{
    if parts.len() > 1 {
        lemma_concat_front(parts.drop_last());
        assert(parts.drop_last().skip(1) =~= parts.skip(1).drop_last());
        assert(parts.skip(1).last() == parts.last());
        assert(concat_all(parts) =~= parts[0] + concat_all(parts.skip(1)));
    } else {
        assert(parts.drop_last() =~= Seq::<Seq<char>>::empty());
        assert(parts.skip(1) =~= Seq::<Seq<char>>::empty());
        assert(concat_all(parts) =~= parts[0] + concat_all(parts.skip(1)));
    }
}

/// Texts with a line break behind each are lines.
pub proof fn lemma_terminated_lines(parts: Seq<Seq<char>>)
    ensures
        terminated(parts, "\n"@) == lines(parts),
    decreases parts.len(),
{
    reveal_strlit("\n");
    let ended = |part: Seq<char>| part + "\n"@;
    if parts.len() > 0 {
        lemma_terminated_lines(parts.skip(1));
        lemma_concat_front(parts.map_values(ended));
        assert(parts.map_values(ended).skip(1) =~= parts.skip(1).map_values(ended));
        assert("\n"@ =~= seq!['\n']);
        assert(terminated(parts, "\n"@) =~= parts[0] + seq!['\n'] + lines(parts.skip(1)));
    } else {
        assert(parts.map_values(ended) =~= Seq::<Seq<char>>::empty());
    }
}

/// Lines of two lists.
pub proof fn lemma_lines_joined(a: Seq<Seq<char>>, b: Seq<Seq<char>>)
    ensures
        lines(a + b) == lines(a) + lines(b),
    decreases a.len(),
{
    if a.len() == 0 {
        assert(a + b =~= b);
        assert(lines(a) + lines(b) =~= lines(b));
    } else {
        lemma_lines_joined(a.skip(1), b);
        assert((a + b).skip(1) =~= a.skip(1) + b);
        assert(lines(a + b) =~= lines(a) + lines(b));
    }
}

/// Lines put together are the lines of all lists.
pub proof fn lemma_lines_of_all(lists: Seq<Seq<Seq<char>>>)
    ensures
        concat_all(lists.map_values(|list: Seq<Seq<char>>| lines(list))) == lines(all_of(lists)),
    decreases lists.len(),
{
    let each = |list: Seq<Seq<char>>| lines(list);
    if lists.len() > 0 {
        lemma_lines_of_all(lists.skip(1));
        lemma_concat_front(lists.map_values(each));
        assert(lists.map_values(each).skip(1) =~= lists.skip(1).map_values(each));
        lemma_lines_joined(lists[0], all_of(lists.skip(1)));
    } else {
        assert(lists.map_values(each) =~= Seq::<Seq<char>>::empty());
    }
}

/// Lines tell the texts that they are made of.
pub proof fn lemma_lines_tell(list: Seq<Seq<char>>)
    ensures
        tells(lines(list), list),
    decreases list.len(),
{
    if list.len() > 0 {
        lemma_lines_tell(list.skip(1));
        lemma_tells_itself(list[0]);
        lemma_tells_around(seq!['\n'], lines(list.skip(1)), Seq::empty(), list.skip(1));
        let rest = seq!['\n'] + lines(list.skip(1)) + Seq::<char>::empty();
        lemma_tells_joined(list[0], rest, seq![list[0]], list.skip(1));
        assert(list[0] + rest =~= lines(list));
        assert(seq![list[0]] + list.skip(1) =~= list);
    }
}

proof fn lemma_present_joined(a: Seq<Option<Seq<char>>>, b: Seq<Option<Seq<char>>>)
    ensures
        present(a + b) == present(a) + present(b),
    decreases a.len(),
{
    if a.len() == 0 {
        assert(a + b =~= b);
        assert(present(a) + present(b) =~= present(b));
    } else {
        lemma_present_joined(a.skip(1), b);
        assert((a + b).skip(1) =~= a.skip(1) + b);
        assert(present(a + b) =~= present(a) + present(b));
    }
}

/// The texts that are picked are those that are there.
pub proof fn lemma_some_present(list: Seq<Option<Seq<char>>>)
    ensures
        some_texts(list) == present(list),
    decreases list.len(),
{
    if list.len() > 0 {
        lemma_some_present(list.drop_last());
        lemma_present_joined(list.drop_last(), seq![list.last()]);
        assert(list.drop_last() + seq![list.last()] =~= list);
        let last = seq![list.last()];
        let none = Seq::<Option<Seq<char>>>::empty();
        assert(last.skip(1) =~= none);
        assert(present(none) =~= Seq::<Seq<char>>::empty());
        assert(present(last) == (match list.last() {
            Some(text) => seq![text] + present(none),
            None => present(none),
        }));
        assert(some_texts(list) =~= present(list));
    }
}

/// The texts with a mark between each two neighbours.
pub open spec fn parted(list: Seq<Seq<char>>, mark: Seq<char>) -> Seq<char>
    decreases list.len(),
{
    if list.len() == 0 {
        Seq::empty()
    } else if list.len() == 1 {
        list[0]
    } else {
        list[0] + mark + parted(list.skip(1), mark)
    }
}

proof fn lemma_parted_more(list: Seq<Seq<char>>, mark: Seq<char>, last: Seq<char>)
    requires
        list.len() > 0,
    ensures
        parted(list.push(last), mark) == parted(list, mark) + mark + last,
    decreases list.len(),
{
    let more = list.push(last);
    assert(more.skip(1) =~= list.skip(1).push(last));
    if list.len() == 1 {
        assert(list.skip(1).push(last) =~= seq![last]);
        assert(parted(seq![last], mark) == last);
        assert(more[0] == list[0]);
    } else {
        lemma_parted_more(list.skip(1), mark, last);
        assert(more[0] == list[0]);
        assert(parted(more, mark) =~= parted(list, mark) + mark + last);
    }
}

/// Texts that are joined are parted by the mark.
pub proof fn lemma_joined_parted(list: Seq<Seq<char>>, mark: Seq<char>)
    ensures
        joined(list, mark) == parted(list, mark),
    decreases list.len(),
{
    if list.len() > 1 {
        lemma_joined_parted(list.drop_last(), mark);
        lemma_parted_more(list.drop_last(), mark, list.last());
        assert(list.drop_last().push(list.last()) =~= list);
    }
}

/// What is said of all items, in their order.
pub open spec fn each_of<T>(list: Seq<T>, said: spec_fn(T) -> Seq<char>) -> Seq<char>
    decreases list.len(),
{
    if list.len() == 0 {
        Seq::empty()
    } else {
        said(list[0]) + each_of(list.skip(1), said)
    }
}

/// Texts of items put together are what is said of all items.
pub proof fn lemma_each_of<T>(
    list: Seq<T>,
    text: spec_fn(T) -> Seq<char>,
    said: spec_fn(T) -> Seq<char>,
)
    requires
        forall|i: int| 0 <= i < list.len() ==> text(#[trigger] list[i]) == said(list[i]),
    ensures
        concat_all(list.map_values(text)) == each_of(list, said),
    decreases list.len(),
{
    if list.len() == 0 {
        assert(list.map_values(text) =~= Seq::<Seq<char>>::empty());
    } else {
        let rest = list.skip(1);
        assert forall|i: int| 0 <= i < rest.len() implies text(#[trigger] rest[i]) == said(
            rest[i],
        ) by {
            assert(rest[i] == list[i + 1]);
        }
        lemma_each_of(rest, text, said);
        lemma_concat_front(list.map_values(text));
        assert(list.map_values(text).skip(1) =~= rest.map_values(text));
        assert(text(list[0]) == said(list[0]));
    }
}

// ---------------------------------------------------------------------------
// Passages of templates
// ---------------------------------------------------------------------------

/// Whether words without a hole stand at a place.
pub open spec fn stands_at(template: Seq<char>, words: Seq<char>, at: int, len: int) -> bool {
    says_at(template, words, at) && words.len() == len && !words.contains('@')
}

/// Whether a place is inside a hole.
pub open spec fn in_hole(template: Seq<char>, at: int) -> bool {
    0 < at < template.len() && template[at - 1] == '@' && is_hole_letter(template[at])
}

/// A template is filled piece by piece.
pub proof fn lemma_filled_pieces(template: Seq<char>, at: int, parts: Seq<Seq<char>>)
    requires
        0 <= at <= template.len(),
        !in_hole(template, at),
    ensures
        filled(template, parts) == filled(template.take(at), parts) + filled(
            template.skip(at),
            parts,
        ),
    decreases template.len(),
{
    let a = template.take(at);
    let b = template.skip(at);
    if at == 0 {
        assert(b =~= template);
        assert(filled(a, parts) + filled(b, parts) =~= filled(b, parts));
    } else {
        let hole = template.len() >= 2 && template[0] == '@' && is_hole_letter(template[1]);
        let step = if hole {
            2int
        } else {
            1int
        };
        let rest = template.skip(step);
        assert(hole ==> at >= 2);
        assert(in_hole(rest, at - step) ==> in_hole(template, at));
        lemma_filled_pieces(rest, at - step, parts);
        assert(rest.take(at - step) =~= a.skip(step));
        assert(rest.skip(at - step) =~= b);
        assert(a[0] == template[0]);
        if a.len() >= 2 {
            assert(a[1] == template[1]);
        }
        assert(filled(template, parts) =~= filled(a, parts) + filled(b, parts));
    }
}

/// Words without a hole stay as they are.
pub proof fn lemma_filled_plain(words: Seq<char>, parts: Seq<Seq<char>>)
    requires
        !words.contains('@'),
    ensures
        filled(words, parts) == words,
    decreases words.len(),
{
    if words.len() > 0 {
        let tail = words.skip(1);
        assert forall|i: int| 0 <= i < tail.len() implies tail[i] != '@' by {
            assert(words.contains(words[i + 1]));
        }
        assert(words.contains(words[0]));
        lemma_filled_plain(tail, parts);
        assert(seq![words[0]] + tail =~= words);
    }
}

/// A hole behind words gives way to its part.
pub proof fn lemma_filled_hole(
    words: Seq<char>,
    ch: char,
    rest: Seq<char>,
    parts: Seq<Seq<char>>,
)
    requires
        !words.contains('@'),
        is_hole_letter(ch),
    ensures
        filled(words + seq!['@', ch] + rest, parts) == words + hole_part(ch, parts) + filled(
            rest,
            parts,
        ),
{
    let template = words + seq!['@', ch] + rest;
    let n = words.len() as int;
    if n > 0 {
        assert(words.contains(words[n - 1]));
        assert(template[n - 1] == words[n - 1]);
    }
    lemma_filled_pieces(template, n, parts);
    assert(template.take(n) =~= words);
    lemma_filled_plain(words, parts);
    let tail = template.skip(n);
    assert(tail.skip(2) =~= rest);
    assert(filled(template, parts) =~= words + hole_part(ch, parts) + filled(rest, parts));
}

/// The rest of a template that begins with words and a hole is filled with the words, the
/// part and what is behind them.
pub proof fn lemma_filled_from(
    template: Seq<char>,
    at: int,
    words: Seq<char>,
    ch: char,
    parts: Seq<Seq<char>>,
    done: Seq<char>,
    whole: Seq<char>,
)
    requires
        says_at(template, words, at),
        at + words.len() + 2 <= template.len(),
        template[at + words.len()] == '@',
        template[at + words.len() + 1] == ch,
        is_hole_letter(ch),
        !words.contains('@'),
        whole == done + filled(template.skip(at), parts),
    ensures
        whole == done + words + hole_part(ch, parts) + filled(
            template.skip(at + words.len() + 2),
            parts,
        ),
{
    let rest = template.skip(at + words.len() + 2);
    assert(template.subrange(at, at + words.len()) == words);
    assert forall|i: int| 0 <= i < words.len() implies template[at + i] == words[i] by {
        assert(template.subrange(at, at + words.len())[i] == words[i]);
    }
    assert(template.skip(at) =~= words + seq!['@', ch] + rest);
    lemma_filled_hole(words, ch, rest, parts);
    assert(done + (words + hole_part(ch, parts) + filled(rest, parts)) =~= done + words + hole_part(
        ch,
        parts,
    ) + filled(rest, parts));
}

/// The rest of a template that holds words alone is filled with them.
pub proof fn lemma_filled_last(
    template: Seq<char>,
    at: int,
    words: Seq<char>,
    parts: Seq<Seq<char>>,
    done: Seq<char>,
    whole: Seq<char>,
)
    requires
        says_at(template, words, at),
        at + words.len() == template.len(),
        !words.contains('@'),
        whole == done + filled(template.skip(at), parts),
    ensures
        whole == done + words,
{
    assert(template.skip(at) =~= template.subrange(at, at + words.len()));
    lemma_filled_plain(words, parts);
}

proof fn lemma_piece_told(
    template: Seq<char>,
    parts: Seq<Seq<char>>,
    at: int,
    piece: Seq<char>,
    later: Seq<Seq<char>>,
)
    requires
        says_at(template, piece, at),
        !in_hole(template, at),
        !in_hole(template, at + piece.len()),
        piece.len() > 0,
        tells(filled(template.skip(at + piece.len()), parts), later),
    ensures
        tells(filled(template, parts), seq![filled(piece, parts)] + later),
{
    let end = at + piece.len();
    let behind = template.skip(at);
    let n = piece.len() as int;
    lemma_filled_pieces(template, at, parts);
    assert(in_hole(behind, n) ==> in_hole(template, end));
    lemma_filled_pieces(behind, n, parts);
    assert(behind.take(n) =~= template.subrange(at, end));
    assert(behind.skip(n) =~= template.skip(end));
    let head = filled(template.take(at), parts);
    let own = filled(piece, parts);
    let rest = filled(template.skip(end), parts);
    lemma_tells_itself(own);
    lemma_tells_joined(own, rest, seq![own], later);
    lemma_tells_around(head, own + rest, Seq::empty(), seq![own] + later);
    assert(head + (own + rest) + Seq::<char>::empty() =~= filled(template, parts));
}

/// Where the piece at a place ends; the beginning where there is none.
spec fn piece_end(at: Seq<int>, pieces: Seq<Seq<char>>, k: int) -> int {
    if k < 0 {
        0
    } else {
        at[k] + pieces[k].len()
    }
}

proof fn lemma_pieces_told(
    template: Seq<char>,
    parts: Seq<Seq<char>>,
    at: Seq<int>,
    pieces: Seq<Seq<char>>,
    k: int,
)
    requires
        at.len() == pieces.len(),
        pieces_stand(template, at, pieces),
        0 <= k <= pieces.len(),
    ensures
        tells(
            filled(template.skip(piece_end(at, pieces, k - 1)), parts),
            pieces.skip(k).map_values(|piece: Seq<char>| filled(piece, parts)),
        ),
    decreases pieces.len() - k,
{
    let told = pieces.skip(k).map_values(|piece: Seq<char>| filled(piece, parts));
    if k < pieces.len() {
        let from = piece_end(at, pieces, k - 1);
        let here = template.skip(from);
        let piece = pieces[k];
        assert(piece_stands(template, at, pieces, k));
        assert(k > 0 ==> piece_stands(template, at, pieces, k - 1));
        lemma_pieces_told(template, parts, at, pieces, k + 1);
        let off = at[k] - from;
        assert(here.subrange(off, off + piece.len()) =~= template.subrange(
            at[k],
            at[k] + piece.len(),
        ));
        assert(in_hole(here, off) ==> in_hole(template, at[k]));
        assert(in_hole(here, off + piece.len()) ==> in_hole(template, at[k] + piece.len()));
        assert(here.skip(off + piece.len()) =~= template.skip(at[k] + piece.len()));
        let later = pieces.skip(k + 1).map_values(|piece: Seq<char>| filled(piece, parts));
        lemma_piece_told(here, parts, off, piece, later);
        assert(told =~= seq![filled(piece, parts)] + later);
    }
}

/// Whether a piece stands in a template at its place, behind the piece before it, with
/// no hole cut.
pub open spec fn piece_stands(
    template: Seq<char>,
    at: Seq<int>,
    pieces: Seq<Seq<char>>,
    k: int,
) -> bool {
    &&& says_at(template, pieces[k], at[k])
    &&& pieces[k].len() > 0
    &&& !in_hole(template, at[k])
    &&& !in_hole(template, at[k] + pieces[k].len())
    &&& k > 0 ==> at[k - 1] + pieces[k - 1].len() <= at[k]
}

/// Whether all pieces stand in a template at their places, in order.
pub open spec fn pieces_stand(template: Seq<char>, at: Seq<int>, pieces: Seq<Seq<char>>) -> bool {
    forall|k: int| 0 <= k < pieces.len() ==> #[trigger] piece_stands(template, at, pieces, k)
}

/// A filled template tells the pieces of the template, filled, in their order.
pub proof fn lemma_filled_tells(
    template: Seq<char>,
    parts: Seq<Seq<char>>,
    at: Seq<int>,
    pieces: Seq<Seq<char>>,
)
    requires
        at.len() == pieces.len(),
        pieces_stand(template, at, pieces),
    ensures
        tells(filled(template, parts), pieces.map_values(|piece: Seq<char>| filled(piece, parts))),
{
    lemma_pieces_told(template, parts, at, pieces, 0);
    assert(template.skip(0) =~= template);
    assert(pieces.skip(0) =~= pieces);
}

} // verus!
