//! Templates: code with holes. A hole is written as an at sign and a lower case
//! letter: `@a` stands for the first part, `@b` for the second, and so on.

use crate::text::{chars_of, texts};
use vstd::prelude::*;

verus! {

/// Whether `ch` names a hole.
pub open spec fn is_hole_letter(ch: char) -> bool {
    'a' <= ch && ch <= 'z'
}

/// The part that a hole stands for; nothing where there is no such part.
pub open spec fn hole_part(ch: char, parts: Seq<Seq<char>>) -> Seq<char> {
    let k = ch as int - 'a' as int;
    if 0 <= k < parts.len() {
        parts[k]
    } else {
        Seq::empty()
    }
}

/// The template with every hole replaced by its part.
pub open spec fn filled(template: Seq<char>, parts: Seq<Seq<char>>) -> Seq<char>
    decreases template.len(),
{
    if template.len() == 0 {
        Seq::empty()
    } else if template.len() >= 2 && template[0] == '@' && is_hole_letter(template[1]) {
        hole_part(template[1], parts) + filled(template.skip(2), parts)
    } else {
        seq![template[0]] + filled(template.skip(1), parts)
    }
}

/// Replaces every hole by its part.
pub fn fill(template: &str, parts: &Vec<String>) -> (out: String)
    ensures
        out@ == filled(template@, texts(parts@)),
{
    let chars = chars_of(template);
    let mut out = String::new();
    let mut i: usize = 0;
    assert(template@.skip(0) == template@);
    assert(Seq::<char>::empty() + filled(template@, texts(parts@)) == filled(
        template@,
        texts(parts@),
    ));
    while i < chars.len()
        invariant
            chars@ == template@,
            i <= chars@.len(),
            out@ + filled(template@.skip(i as int), texts(parts@)) == filled(
                template@,
                texts(parts@),
            ),
        decreases chars@.len() - i,
    {
        let ghost rest = template@.skip(i as int);
        let ghost before = out@;
        if chars.len() - i >= 2 && chars[i] == '@' && 'a' <= chars[i + 1] && chars[i + 1] <= 'z' {
            let k: usize = (chars[i + 1] as u32 - 'a' as u32) as usize;
            if k < parts.len() {
                out.append(parts[k].as_str());
            }
            assert(rest.skip(2) == template@.skip(i + 2));
            assert(out@ == before + hole_part(rest[1], texts(parts@)));
            assert(out@ + filled(rest.skip(2), texts(parts@)) == before + (hole_part(
                rest[1],
                texts(parts@),
            ) + filled(rest.skip(2), texts(parts@))));
            i = i + 2;
        } else {
            out.push(chars[i]);
            assert(rest.skip(1) == template@.skip(i + 1));
            assert(out@ + filled(rest.skip(1), texts(parts@)) == before + (seq![rest[0]] + filled(
                rest.skip(1),
                texts(parts@),
            )));
            i = i + 1;
        }
    }
    assert(template@.skip(i as int).len() == 0);
    assert(out@ + Seq::<char>::empty() == out@);
    out
}

/// Fills a template that has one part.
pub fn fill1(template: &str, a: &str) -> (out: String)
    ensures
        out@ == filled(template@, seq![a@]),
{
    let parts = vec![a.to_owned()];
    assert(texts(parts@) =~= seq![a@]);
    fill(template, &parts)
}

/// Fills a template that has two parts.
pub fn fill2(template: &str, a: &str, b: &str) -> (out: String)
    ensures
        out@ == filled(template@, seq![a@, b@]),
{
    let parts = vec![a.to_owned(), b.to_owned()];
    assert(texts(parts@) =~= seq![a@, b@]);
    fill(template, &parts)
}

/// Fills a template that has three parts.
pub fn fill3(template: &str, a: &str, b: &str, c: &str) -> (out: String)
    ensures
        out@ == filled(template@, seq![a@, b@, c@]),
{
    let parts = vec![a.to_owned(), b.to_owned(), c.to_owned()];
    assert(texts(parts@) =~= seq![a@, b@, c@]);
    fill(template, &parts)
}

/// Fills a template that has four parts.
pub fn fill4(template: &str, a: &str, b: &str, c: &str, d: &str) -> (out: String)
    ensures
        out@ == filled(template@, seq![a@, b@, c@, d@]),
{
    let parts = vec![a.to_owned(), b.to_owned(), c.to_owned(), d.to_owned()];
    assert(texts(parts@) =~= seq![a@, b@, c@, d@]);
    fill(template, &parts)
}

/// Fills a template that has five parts.
pub fn fill5(template: &str, a: &str, b: &str, c: &str, d: &str, e: &str) -> (out: String)
    ensures
        out@ == filled(template@, seq![a@, b@, c@, d@, e@]),
{
    let parts = vec![a.to_owned(), b.to_owned(), c.to_owned(), d.to_owned(), e.to_owned()];
    assert(texts(parts@) =~= seq![a@, b@, c@, d@, e@]);
    fill(template, &parts)
}

/// Fills a template that has six parts.
pub fn fill6(template: &str, a: &str, b: &str, c: &str, d: &str, e: &str, f: &str) -> (out: String)
    ensures
        out@ == filled(template@, seq![a@, b@, c@, d@, e@, f@]),
{
    let parts = vec![a.to_owned(), b.to_owned(), c.to_owned(), d.to_owned(), e.to_owned(), f.to_owned()];
    assert(texts(parts@) =~= seq![a@, b@, c@, d@, e@, f@]);
    fill(template, &parts)
}

/// Fills a template that has seven parts.
pub fn fill7(
    template: &str,
    a: &str,
    b: &str,
    c: &str,
    d: &str,
    e: &str,
    f: &str,
    g: &str,
) -> (out: String)
    ensures
        out@ == filled(template@, seq![a@, b@, c@, d@, e@, f@, g@]),
{
    let parts = vec![
        a.to_owned(),
        b.to_owned(),
        c.to_owned(),
        d.to_owned(),
        e.to_owned(),
        f.to_owned(),
        g.to_owned(),
    ];
    assert(texts(parts@) =~= seq![a@, b@, c@, d@, e@, f@, g@]);
    fill(template, &parts)
}

/// Fills a template that has eight parts.
pub fn fill8(
    template: &str,
    a: &str,
    b: &str,
    c: &str,
    d: &str,
    e: &str,
    f: &str,
    g: &str,
    h: &str,
) -> (out: String)
    ensures
        out@ == filled(template@, seq![a@, b@, c@, d@, e@, f@, g@, h@]),
{
    let parts = vec![
        a.to_owned(),
        b.to_owned(),
        c.to_owned(),
        d.to_owned(),
        e.to_owned(),
        f.to_owned(),
        g.to_owned(),
        h.to_owned(),
    ];
    assert(texts(parts@) =~= seq![a@, b@, c@, d@, e@, f@, g@, h@]);
    fill(template, &parts)
}

/// Fills a template that has nine parts.
pub fn fill9(
    template: &str,
    a: &str,
    b: &str,
    c: &str,
    d: &str,
    e: &str,
    f: &str,
    g: &str,
    h: &str,
    i: &str,
) -> (out: String)
    ensures
        out@ == filled(template@, seq![a@, b@, c@, d@, e@, f@, g@, h@, i@]),
{
    let parts = vec![
        a.to_owned(),
        b.to_owned(),
        c.to_owned(),
        d.to_owned(),
        e.to_owned(),
        f.to_owned(),
        g.to_owned(),
        h.to_owned(),
        i.to_owned(),
    ];
    assert(texts(parts@) =~= seq![a@, b@, c@, d@, e@, f@, g@, h@, i@]);
    fill(template, &parts)
}

/// Fills a template that has ten parts.
pub fn fill10(
    template: &str,
    a: &str,
    b: &str,
    c: &str,
    d: &str,
    e: &str,
    f: &str,
    g: &str,
    h: &str,
    i: &str,
    j: &str,
) -> (out: String)
    ensures
        out@ == filled(template@, seq![a@, b@, c@, d@, e@, f@, g@, h@, i@, j@]),
{
    let parts = vec![
        a.to_owned(),
        b.to_owned(),
        c.to_owned(),
        d.to_owned(),
        e.to_owned(),
        f.to_owned(),
        g.to_owned(),
        h.to_owned(),
        i.to_owned(),
        j.to_owned(),
    ];
    assert(texts(parts@) =~= seq![a@, b@, c@, d@, e@, f@, g@, h@, i@, j@]);
    fill(template, &parts)
}

/// Fills a template that has eleven parts.
pub fn fill11(
    template: &str,
    a: &str,
    b: &str,
    c: &str,
    d: &str,
    e: &str,
    f: &str,
    g: &str,
    h: &str,
    i: &str,
    j: &str,
    k: &str,
) -> (out: String)
    ensures
        out@ == filled(template@, seq![a@, b@, c@, d@, e@, f@, g@, h@, i@, j@, k@]),
{
    let parts = vec![
        a.to_owned(),
        b.to_owned(),
        c.to_owned(),
        d.to_owned(),
        e.to_owned(),
        f.to_owned(),
        g.to_owned(),
        h.to_owned(),
        i.to_owned(),
        j.to_owned(),
        k.to_owned(),
    ];
    assert(texts(parts@) =~= seq![a@, b@, c@, d@, e@, f@, g@, h@, i@, j@, k@]);
    fill(template, &parts)
}

// ---------------------------------------------------------------------------
// What a filled template says
// ---------------------------------------------------------------------------

/// Whether the words stand in the text at a place.
pub open spec fn says_at(text: Seq<char>, words: Seq<char>, at: int) -> bool {
    0 <= at && at + words.len() <= text.len() && text.subrange(at, at + words.len()) == words
}

/// Whether the words stand somewhere in the text.
pub open spec fn says(text: Seq<char>, words: Seq<char>) -> bool {
    exists|at: int| says_at(text, words, at)
}

/// Words that hold no hole stay in front of what is filled in behind them.
proof fn lemma_filled_words(words: Seq<char>, rest: Seq<char>, parts: Seq<Seq<char>>)
    requires
        !words.contains('@'),
    ensures
        filled(words + rest, parts) == words + filled(rest, parts),
    decreases words.len(),
{
    if words.len() == 0 {
        assert(words + rest == rest);
        assert(words + filled(rest, parts) == filled(rest, parts));
    } else {
        let tail = words.skip(1);
        assert forall|i: int| 0 <= i < tail.len() implies tail[i] != '@' by {
            assert(words.contains(words[i + 1]));
        }
        assert(words.contains(words[0]));
        lemma_filled_words(tail, rest, parts);
        assert((words + rest).skip(1) == tail + rest);
        assert(seq![words[0]] + (tail + filled(rest, parts)) == words + filled(rest, parts));
    }
}

/// A filled template says what the template says, where the words hold no hole and
/// begin with no letter that a hole could end with.
pub proof fn lemma_filled_says(template: Seq<char>, parts: Seq<Seq<char>>, words: Seq<char>)
    requires
        says(template, words),
        words.len() > 0,
        !is_hole_letter(words[0]),
        !words.contains('@'),
    ensures
        says(filled(template, parts), words),
    decreases template.len(),
{
    let at = choose|at: int| says_at(template, words, at);
    let out = filled(template, parts);
    assert(forall|i: int| 0 <= i < words.len() ==> template[at + i] == words[i]) by {
        assert forall|i: int| 0 <= i < words.len() implies template[at + i] == words[i] by {
            assert(template.subrange(at, at + words.len())[i] == words[i]);
        }
    }
    if at == 0 {
        let rest = template.skip(words.len() as int);
        assert(template == words + rest);
        lemma_filled_words(words, rest, parts);
        assert(out.subrange(0, words.len() as int) == words);
        assert(says_at(out, words, 0));
    } else {
        let hole = template.len() >= 2 && template[0] == '@' && is_hole_letter(template[1]);
        let step = if hole {
            2int
        } else {
            1int
        };
        if hole && at == 1 {
            assert(template[at + 0] == words[0]);
        }
        let rest = template.skip(step);
        let head = if hole {
            hole_part(template[1], parts)
        } else {
            seq![template[0]]
        };
        assert(rest.subrange(at - step, at - step + words.len()) == words);
        assert(says_at(rest, words, at - step));
        lemma_filled_says(rest, parts, words);
        let behind = choose|behind: int| says_at(filled(rest, parts), words, behind);
        assert(out == head + filled(rest, parts));
        assert(out.subrange(head.len() + behind, head.len() + behind + words.len())
            == filled(rest, parts).subrange(behind, behind + words.len()));
        assert(says_at(out, words, head.len() + behind));
    }
}

/// A filled template says the part of every hole that it has.
pub proof fn lemma_filled_part(template: Seq<char>, parts: Seq<Seq<char>>, at: int)
    requires
        0 <= at < template.len() - 1,
        template[at] == '@',
        is_hole_letter(template[at + 1]),
    ensures
        says(filled(template, parts), hole_part(template[at + 1], parts)),
    decreases template.len(),
{
    let out = filled(template, parts);
    let words = hole_part(template[at + 1], parts);
    if at == 0 {
        assert(out.subrange(0, words.len() as int) == words);
        assert(says_at(out, words, 0));
    } else {
        let hole = template[0] == '@' && is_hole_letter(template[1]);
        let step = if hole {
            2int
        } else {
            1int
        };
        let rest = template.skip(step);
        let head = if hole {
            hole_part(template[1], parts)
        } else {
            seq![template[0]]
        };
        assert(rest[at - step] == template[at]);
        assert(rest[at - step + 1] == template[at + 1]);
        lemma_filled_part(rest, parts, at - step);
        let behind = choose|behind: int| says_at(filled(rest, parts), words, behind);
        assert(out == head + filled(rest, parts));
        assert(out.subrange(head.len() + behind, head.len() + behind + words.len())
            == filled(rest, parts).subrange(behind, behind + words.len()));
        assert(says_at(out, words, head.len() + behind));
    }
}

/// Whether every opening bracket has a character behind it that is neither `ch` nor
/// the beginning of a hole.
pub open spec fn no_bracket_before(text: Seq<char>, ch: char) -> bool {
    forall|i: int| 0 <= i < text.len() && #[trigger] text[i] == '(' ==> i + 1 < text.len() && text[i
        + 1] != ch && text[i + 1] != '@'
}

/// Parts without brackets put no bracket before a character that the template has no
/// bracket before.
pub proof fn lemma_filled_brackets(template: Seq<char>, parts: Seq<Seq<char>>, ch: char)
    requires
        no_bracket_before(template, ch),
        forall|k: int| 0 <= k < parts.len() ==> !(#[trigger] parts[k]).contains('('),
    ensures
        forall|i: int|
            0 <= i < filled(template, parts).len() - 1 && #[trigger] filled(template, parts)[i] == '('
                ==> filled(template, parts)[i + 1] != ch,
    decreases template.len(),
{
    let out = filled(template, parts);
    if template.len() == 0 {
    } else {
        let hole = template.len() >= 2 && template[0] == '@' && is_hole_letter(template[1]);
        let step = if hole {
            2int
        } else {
            1int
        };
        let head = if hole {
            hole_part(template[1], parts)
        } else {
            seq![template[0]]
        };
        let rest = template.skip(step);
        let tail = filled(rest, parts);
        assert(out == head + tail);
        assert forall|i: int| 0 <= i < rest.len() && #[trigger] rest[i] == '(' implies i + 1
            < rest.len() && rest[i + 1] != ch && rest[i + 1] != '@' by {
            assert(template[i + step] == '(');
        }
        lemma_filled_brackets(rest, parts, ch);
        assert forall|i: int| 0 <= i < out.len() - 1 && #[trigger] out[i] == '(' implies out[i + 1]
            != ch by {
            if i >= head.len() {
                assert(tail[i - head.len()] == '(');
                assert(tail[i - head.len() + 1] == out[i + 1]);
            } else {
                assert(out[i] == head[i]);
                if hole {
                    assert(head.contains(head[i]));
                } else {
                    assert(template[0] == '(');
                    assert(rest[0] == template[1]);
                    assert(tail[0] == rest[0]);
                    assert(out[1] == tail[0]);
                }
            }
        }
    }
}

} // verus!
