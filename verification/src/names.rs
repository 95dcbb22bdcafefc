//! Names: case conversions, identifiers and discriminator bytes.

use crate::failure::{Failure, FailureView};
use crate::outside::{read_word, uppercase, uppercase_of, word_reading};
use crate::text::{decimal, decimal_text, join_strings, joined, map_texts, same_text, texts};
use vstd::prelude::*;

verus! {

/// Whether a character is an ASCII capital.
pub open spec fn is_capital(ch: char) -> bool {
    'A' <= ch && ch <= 'Z'
}

/// Whether a character is an ASCII small letter.
pub open spec fn is_small(ch: char) -> bool {
    'a' <= ch && ch <= 'z'
}

/// The character with an ASCII capital made small.
pub open spec fn small(ch: char) -> char {
    if is_capital(ch) {
        (ch as u32 + 32) as char
    } else {
        ch
    }
}

/// The character with an ASCII small letter made a capital.
pub open spec fn capital(ch: char) -> char {
    if is_small(ch) {
        (ch as u32 - 32) as char
    } else {
        ch
    }
}

fn to_small(ch: char) -> (out: char)
    ensures
        out == small(ch),
{
    if 'A' <= ch && ch <= 'Z' {
        ((ch as u32 + 32) as u8) as char
    } else {
        ch
    }
}

fn to_capital(ch: char) -> (out: char)
    ensures
        out == capital(ch),
{
    if 'a' <= ch && ch <= 'z' {
        ((ch as u32 - 32) as u8) as char
    } else {
        ch
    }
}

/// What stands in a snake case name for one character of the input.
pub open spec fn snake_piece(ch: char, first: bool) -> Seq<char> {
    if ch == '-' || ch == ' ' {
        seq!['_']
    } else if is_capital(ch) && !first {
        seq!['_', small(ch)]
    } else {
        seq![small(ch)]
    }
}

/// The input in snake case, character by character.
pub open spec fn snake_case(input: Seq<char>) -> Seq<char>
    decreases input.len(),
{
    if input.len() == 0 {
        Seq::empty()
    } else {
        snake_case(input.drop_last()) + snake_piece(input.last(), input.len() == 1)
    }
}

/// Writes a name in snake case: dashes and spaces become underscores, and a
/// capital becomes small with an underscore before it unless it comes first.
pub fn to_snake_case(input: &str) -> (out: String)
    ensures
        out@ == snake_case(input@),
{
    let mut out = String::new();
    let mut first = true;
    for ch in it: input.chars()
        invariant
            it.seq() == input@,
            out@ == snake_case(input@.take(it.index())),
            first == (it.index() == 0),
    {
        assert(input@.take(it.index() + 1).drop_last() == input@.take(it.index()));
        if ch == '-' || ch == ' ' {
            out.push('_');
        } else {
            if !first && 'A' <= ch && ch <= 'Z' {
                out.push('_');
            }
            out.push(to_small(ch));
        }
        assert(out@ == snake_case(input@.take(it.index())) + snake_piece(ch, first));
        first = false;
    }
    assert(input@.take(input@.len() as int) == input@);
    out
}

/// Whether the last character of a text begins a part, where underscores part the
/// text.
pub open spec fn starts_part(text: Seq<char>) -> bool {
    text.last() != '_' && (text.len() == 1 || text[text.len() - 2] == '_')
}

/// The first characters of the parts of a text, where underscores part the text.
pub open spec fn initials(text: Seq<char>) -> Seq<char>
    decreases text.len(),
{
    if text.len() == 0 {
        Seq::empty()
    } else if starts_part(text) {
        initials(text.drop_last()).push(text.last())
    } else {
        initials(text.drop_last())
    }
}

/// The text without its underscores, the first character of each part replaced by
/// the capital given for it.
pub open spec fn capitalized(text: Seq<char>, capitals: Seq<Seq<char>>) -> Seq<char>
    decreases text.len(),
{
    if text.len() == 0 {
        Seq::empty()
    } else if text.last() == '_' {
        capitalized(text.drop_last(), capitals)
    } else if starts_part(text) {
        capitalized(text.drop_last(), capitals) + capitals[initials(text).len() - 1]
    } else {
        capitalized(text.drop_last(), capitals).push(text.last())
    }
}

/// The characters that begin a part of the text.
pub fn part_initials(text: &str) -> (out: Vec<char>)
    ensures
        out@ == initials(text@),
{
    let mut out: Vec<char> = Vec::new();
    let mut fresh = true;
    for ch in it: text.chars()
        invariant
            it.seq() == text@,
            out@ == initials(text@.take(it.index())),
            fresh == (it.index() == 0 || text@[it.index() - 1] == '_'),
    {
        assert(text@.take(it.index() + 1).drop_last() == text@.take(it.index()));
        if ch == '_' {
            fresh = true;
        } else {
            if fresh {
                out.push(ch);
            }
            fresh = false;
        }
    }
    assert(text@.take(text@.len() as int) == text@);
    out
}

proof fn lemma_initials_grow(text: Seq<char>, n: int)
    requires
        0 <= n <= text.len(),
    ensures
        initials(text.take(n)).len() <= initials(text).len(),
    decreases text.len(),
{
    if n == text.len() {
        assert(text.take(n) == text);
    } else {
        assert(text.drop_last().take(n) == text.take(n));
        lemma_initials_grow(text.drop_last(), n);
    }
}

/// Drops the underscores and puts the given capitals in place of the characters
/// that begin a part.
pub fn with_capitals(text: &str, capitals: &Vec<String>) -> (out: String)
    requires
        capitals@.len() == initials(text@).len(),
    ensures
        out@ == capitalized(text@, texts(capitals@)),
{
    let mut out = String::new();
    let mut fresh = true;
    let mut used: usize = 0;
    for ch in it: text.chars()
        invariant
            it.seq() == text@,
            capitals@.len() == initials(text@).len(),
            used == initials(text@.take(it.index())).len(),
            out@ == capitalized(text@.take(it.index()), texts(capitals@)),
            fresh == (it.index() == 0 || text@[it.index() - 1] == '_'),
    {
        assert(text@.take(it.index() + 1).drop_last() == text@.take(it.index()));
        proof {
            lemma_initials_grow(text@, it.index() + 1);
        }
        if ch == '_' {
            fresh = true;
        } else {
            if fresh {
                assert(used < capitals.len());
                out.append(capitals[used].as_str());
                used = used + 1;
            } else {
                out.push(ch);
            }
            fresh = false;
        }
    }
    assert(text@.take(text@.len() as int) == text@);
    out
}

/// The ASCII capital of each character, as texts.
pub open spec fn ascii_capitals(chars: Seq<char>) -> Seq<Seq<char>> {
    chars.map_values(|ch: char| seq![capital(ch)])
}

/// The type name for an input: its snake case parts run together, each beginning
/// with an ASCII capital.
pub open spec fn type_case(input: Seq<char>) -> Seq<char> {
    let snake = snake_case(input);
    capitalized(snake, ascii_capitals(initials(snake)))
}

/// Writes a name as a type name.
pub fn to_type_name(input: &str) -> (out: String)
    ensures
        out@ == type_case(input@),
{
    let snake = to_snake_case(input);
    let heads = part_initials(snake.as_str());
    let capitals = map_texts(
        &heads,
        |ch: &char| -> (s: String)
            ensures
                s@ == seq![capital(*ch)]
            {
                let mut s = String::new();
                s.push(to_capital(*ch));
                assert(s@ == seq![capital(*ch)]);
                s
            },
        Ghost(|ch: char| seq![capital(ch)]),
    );
    with_capitals(snake.as_str(), &capitals)
}

/// The input with its underscores dropped and the first character of each part in
/// upper case.
pub open spec fn camel_case(s: Seq<char>) -> Seq<char> {
    capitalized(s, initials(s).map_values(|ch: char| uppercase_of(ch)))
}

/// Writes a snake case name in camel case.
pub fn to_camel_case(s: &str) -> (out: String)
    ensures
        out@ == camel_case(s@),
        !out@.contains('_'),
{
    let heads = part_initials(s);
    let mut capitals: Vec<String> = Vec::new();
    proof {
        lemma_initials_chars(s@);
    }
    for i in 0..heads.len()
        invariant
            heads@ == initials(s@),
            forall|k: int| 0 <= k < heads@.len() ==> #[trigger] heads@[k] != '_',
            capitals@.len() == i,
            forall|k: int|
                0 <= k < i ==> (#[trigger] capitals@[k])@ == uppercase_of(heads@[k])
                    && !capitals@[k]@.contains('_'),
    {
        capitals.push(uppercase(heads[i]));
    }
    assert(texts(capitals@) == initials(s@).map_values(|ch: char| uppercase_of(ch)));
    proof {
        lemma_capitalized_part(s@, texts(capitals@));
    }
    with_capitals(s, &capitals)
}

/// Bytes in decimal, in square brackets and parted by commas.
pub open spec fn bytes_text(bytes: Seq<u8>) -> Seq<char> {
    "["@ + joined(bytes.map_values(|b: u8| decimal(b as nat)), ", "@) + "]"@
}

/// Writes the bytes of a discriminator for a message.
pub fn format_discriminator_bytes(discriminator: &Vec<u8>) -> (out: String)
    ensures
        out@ == bytes_text(discriminator@),
{
    let bytes = map_texts(
        discriminator,
        |b: &u8| -> (s: String)
            ensures
                s@ == decimal(*b as nat)
            { decimal_text(*b as u64) },
        Ghost(|b: u8| decimal(b as nat)),
    );
    "[".to_owned().concat(join_strings(&bytes, ", ").as_str()).concat("]")
}

/// Whether a text can name an item, given the word that it reads as: it must read
/// back as itself, and not be a raw identifier.
pub open spec fn is_name(text: Seq<char>, word: Option<Seq<char>>) -> bool {
    &&& word == Some(text)
    &&& !crate::text::has_prefix(text, "r#"@)
}

/// Whether the text can name an item, given the word that it reads as.
pub fn check_name(text: &str, word: &Option<String>) -> (valid: bool)
    ensures
        valid == is_name(text@, crate::text::option_text(*word)),
{
    match word {
        Some(word) => same_text(word.as_str(), text) && !crate::text::starts_with(text, "r#"),
        None => false,
    }
}

/// The name of an item, or the failure of a text that cannot be one.
pub open spec fn item_name(text: Seq<char>) -> Result<Seq<char>, FailureView> {
    if is_name(text, word_reading(text)) {
        Ok(text)
    } else {
        Err(FailureView::NotAnIdentifier(text))
    }
}

/// Makes the name of an item from a text.
pub fn new_ident(text: String) -> (out: Result<String, Failure>)
    ensures
        crate::failure::code_view(out) == item_name(text@),
{
    let word = read_word(text.as_str());
    if check_name(text.as_str(), &word) {
        Ok(text)
    } else {
        Err(Failure::NotAnIdentifier(text))
    }
}

// ---------------------------------------------------------------------------
// Laws
// ---------------------------------------------------------------------------

/// Whether a character can stand in a name in snake case.
pub open spec fn is_snake_char(ch: char) -> bool {
    !is_capital(ch) && ch != '-' && ch != ' '
}

proof fn lemma_small(ch: char)
    ensures
        !is_capital(small(ch)),
        is_capital(ch) ==> is_small(small(ch)),
{
}

proof fn lemma_snake_piece(ch: char, first: bool)
    ensures
        forall|i: int|
            0 <= i < snake_piece(ch, first).len() ==> is_snake_char(
                #[trigger] snake_piece(ch, first)[i],
            ),
        is_snake_char(ch) ==> snake_piece(ch, first) == seq![ch],
{
    lemma_small(ch);
}

/// A name in snake case holds no capitals, dashes or spaces.
pub proof fn lemma_snake_chars(input: Seq<char>)
    ensures
        forall|i: int|
            0 <= i < snake_case(input).len() ==> is_snake_char(#[trigger] snake_case(input)[i]),
    decreases input.len(),
{
    if input.len() > 0 {
        let before = snake_case(input.drop_last());
        let piece = snake_piece(input.last(), input.len() == 1);
        lemma_snake_chars(input.drop_last());
        lemma_snake_piece(input.last(), input.len() == 1);
        assert forall|i: int| 0 <= i < snake_case(input).len() implies is_snake_char(
            #[trigger] snake_case(input)[i],
        ) by {
            if i < before.len() {
                assert(snake_case(input)[i] == before[i]);
            } else {
                assert(snake_case(input)[i] == piece[i - before.len()]);
            }
        }
    }
}

proof fn lemma_snake_same(input: Seq<char>)
    requires
        forall|i: int| 0 <= i < input.len() ==> is_snake_char(#[trigger] input[i]),
    ensures
        snake_case(input) == input,
    decreases input.len(),
{
    if input.len() > 0 {
        assert forall|i: int| 0 <= i < input.drop_last().len() implies is_snake_char(
            #[trigger] input.drop_last()[i],
        ) by {
            assert(input.drop_last()[i] == input[i]);
        }
        lemma_snake_same(input.drop_last());
        lemma_snake_piece(input.last(), input.len() == 1);
        assert(input.drop_last() + seq![input.last()] == input);
    }
}

/// A name in snake case stays as it is.
pub proof fn lemma_snake_twice(input: Seq<char>)
    ensures
        snake_case(snake_case(input)) == snake_case(input),
{
    lemma_snake_chars(input);
    lemma_snake_same(snake_case(input));
}

/// The type name for an input is the type name for its snake case.
pub proof fn lemma_type_case_of_snake(input: Seq<char>)
    ensures
        type_case(snake_case(input)) == type_case(input),
{
    lemma_snake_twice(input);
}

proof fn lemma_capitalized_part(text: Seq<char>, capitals: Seq<Seq<char>>)
    requires
        initials(text).len() <= capitals.len(),
        forall|i: int|
            0 <= i < capitals.len() ==> !(#[trigger] capitals[i]).contains('_'),
    ensures
        !capitalized(text, capitals).contains('_'),
    decreases text.len(),
{
    if text.len() > 0 {
        lemma_initials_grow(text, text.len() - 1);
        assert(text.take(text.len() - 1) == text.drop_last());
        lemma_capitalized_part(text.drop_last(), capitals);
        let before = capitalized(text.drop_last(), capitals);
        let out = capitalized(text, capitals);
        if out.contains('_') {
            let i = choose|i: int| 0 <= i < out.len() && out[i] == '_';
            if i < before.len() {
                assert(before[i] == '_');
            } else if starts_part(text) {
                let part = capitals[initials(text).len() - 1];
                assert(part[i - before.len()] == '_');
            }
        }
    }
}

/// A type name holds no underscore.
pub proof fn lemma_type_case_chars(input: Seq<char>)
    ensures
        !type_case(input).contains('_'),
{
    let snake = snake_case(input);
    let heads = initials(snake);
    lemma_initials_chars(snake);
    let capitals = ascii_capitals(heads);
    assert forall|i: int| 0 <= i < capitals.len() implies !(#[trigger] capitals[i]).contains(
        '_',
    ) by {
        assert(capitals[i] == seq![capital(heads[i])]);
        assert(heads[i] != '_');
    }
    lemma_capitalized_part(snake, capitals);
}

proof fn lemma_initials_chars(text: Seq<char>)
    ensures
        forall|i: int| 0 <= i < initials(text).len() ==> #[trigger] initials(text)[i] != '_',
    decreases text.len(),
{
    if text.len() > 0 {
        let before = initials(text.drop_last());
        lemma_initials_chars(text.drop_last());
        assert forall|i: int| 0 <= i < initials(text).len() implies #[trigger] initials(text)[i]
            != '_' by {
            if i < before.len() {
                assert(initials(text)[i] == before[i]);
            }
        }
    }
}

// ---------------------------------------------------------------------------
// Laws of camel case
// ---------------------------------------------------------------------------

/// The text without its underscores, the first character of each part raised by `f`.
spec fn raised(text: Seq<char>, f: spec_fn(char) -> Seq<char>) -> Seq<char>
    decreases text.len(),
{
    if text.len() == 0 {
        Seq::empty()
    } else if text.last() == '_' {
        raised(text.drop_last(), f)
    } else if starts_part(text) {
        raised(text.drop_last(), f) + f(text.last())
    } else {
        raised(text.drop_last(), f).push(text.last())
    }
}

proof fn lemma_capitalized_raised(
    text: Seq<char>,
    capitals: Seq<Seq<char>>,
    f: spec_fn(char) -> Seq<char>,
)
    requires
        initials(text).len() <= capitals.len(),
        forall|k: int|
            0 <= k < initials(text).len() ==> #[trigger] capitals[k] == f(initials(text)[k]),
    ensures
        capitalized(text, capitals) == raised(text, f),
    decreases text.len(),
{
    if text.len() > 0 {
        let before = initials(text.drop_last());
        assert forall|k: int| 0 <= k < before.len() implies #[trigger] capitals[k] == f(
            before[k],
        ) by {
            assert(initials(text)[k] == before[k]);
        }
        lemma_capitalized_raised(text.drop_last(), capitals, f);
    }
}

proof fn lemma_camel_raised(text: Seq<char>)
    ensures
        camel_case(text) == raised(text, |ch: char| uppercase_of(ch)),
{
    let f = |ch: char| uppercase_of(ch);
    lemma_capitalized_raised(text, initials(text).map_values(f), f);
}

proof fn lemma_raised_parts(a: Seq<char>, b: Seq<char>, f: spec_fn(char) -> Seq<char>)
    ensures
        raised(a + seq!['_'] + b, f) == raised(a, f) + raised(b, f),
    decreases b.len(),
{
    let whole = a + seq!['_'] + b;
    if b.len() == 0 {
        assert(whole == a + seq!['_']);
        assert(whole.drop_last() == a);
        assert(raised(a, f) + raised(b, f) == raised(a, f));
    } else {
        lemma_raised_parts(a, b.drop_last(), f);
        assert(whole.drop_last() == a + seq!['_'] + b.drop_last());
        assert(whole.last() == b.last());
        assert(starts_part(whole) == starts_part(b)) by {
            if b.len() == 1 {
                assert(whole[whole.len() - 2] == '_');
            } else {
                assert(whole[whole.len() - 2] == b[b.len() - 2]);
            }
        }
    }
}

/// The parts of a name are written one after the other in camel case, and the empty name
/// is written as nothing.
pub proof fn lemma_camel_parts(a: Seq<char>, b: Seq<char>)
    ensures
        camel_case(a + seq!['_'] + b) == camel_case(a) + camel_case(b),
        camel_case(Seq::empty()) == Seq::<char>::empty(),
{
    lemma_camel_raised(a);
    lemma_camel_raised(b);
    lemma_camel_raised(a + seq!['_'] + b);
    lemma_raised_parts(a, b, |ch: char| uppercase_of(ch));
}

/// Whether a character is an ASCII letter, an ASCII digit or an underscore.
pub open spec fn is_plain(ch: char) -> bool {
    is_capital(ch) || is_small(ch) || '0' <= ch && ch <= '9' || ch == '_'
}

/// Whether a name holds ASCII letters, ASCII digits and underscores alone.
pub open spec fn is_plain_name(name: Seq<char>) -> bool {
    forall|i: int| 0 <= i < name.len() ==> is_plain(#[trigger] name[i])
}

proof fn lemma_plain_type_raised(name: Seq<char>)
    requires
        is_plain_name(name),
    ensures
        raised(snake_case(name), |ch: char| seq![capital(ch)]) == raised(
            name,
            |ch: char| uppercase_of(ch),
        ),
        snake_case(name).len() == 0 <==> name.len() == 0,
        name.len() > 0 ==> (snake_case(name).last() == '_' <==> name.last() == '_'),
    decreases name.len(),
{
    if name.len() > 0 {
        let f = |ch: char| seq![capital(ch)];
        let g = |ch: char| uppercase_of(ch);
        let head = name.drop_last();
        let ch = name.last();
        assert forall|i: int| 0 <= i < head.len() implies is_plain(#[trigger] head[i]) by {
            assert(head[i] == name[i]);
        }
        lemma_plain_type_raised(head);
        assert(is_plain(name[name.len() - 1]));
        let before = snake_case(head);
        let snake = snake_case(name);
        lemma_small(ch);
        if is_capital(ch) && name.len() > 1 {
            let mid = before.push('_');
            assert(snake == mid.push(small(ch)));
            assert(snake.drop_last() == mid);
            assert(mid.drop_last() == before);
            assert(snake[snake.len() - 2] == '_');
            assert(starts_part(snake));
            assert(raised(mid, f) == raised(before, f));
            assert(capital(small(ch)) == ch);
            assert(f(small(ch)) == seq![ch]);
            assert(g(ch) == seq![ch]);
            assert(raised(before, f) + seq![ch] == raised(before, f).push(ch));
        } else {
            assert(snake == before.push(small(ch)));
            assert(snake.drop_last() == before);
            if name.len() > 1 {
                assert(snake[snake.len() - 2] == before.last());
                assert(name[name.len() - 2] == head.last());
            }
            if ch != '_' {
                assert(starts_part(snake) == starts_part(name));
                assert(capital(small(ch)) == capital(ch));
                assert(f(small(ch)) == g(ch));
            }
        }
    }
}

/// A name of ASCII letters, digits and underscores is the same in camel case as the type
/// name for it.
pub proof fn lemma_camel_is_type_case(name: Seq<char>)
    requires
        is_plain_name(name),
    ensures
        camel_case(name) == type_case(name),
{
    let f = |ch: char| seq![capital(ch)];
    let snake = snake_case(name);
    lemma_plain_type_raised(name);
    lemma_camel_raised(name);
    lemma_capitalized_raised(snake, ascii_capitals(initials(snake)), f);
}

} // verus!
