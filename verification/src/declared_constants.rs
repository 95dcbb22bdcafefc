//! Constants of an interface description.

use crate::declared_types::{
    array_len, declare_idl_array_len_to_tokens, declare_idl_type_to_tokens, idl_type,
};
use crate::discriminator::bytes_view;
use crate::failure::{
    at_call_site, call_site, code_view, collected, diagnostic, lemma_collected_prefix, list_view,
    new_diagnostic, try_map_texts, Failure, FailureView, Span,
};
use crate::handler::{byte_literals, print_byte_literals};
use crate::json::{array_at, elements, json_str, member_of, number_of, required_text, text_of, Json};
use crate::names::{bytes_text, item_name, new_ident};
use crate::outside::{
    byte_error, byte_value, digits_value, expr_reading, is_digits, is_white_space, literal_of,
    literal_reading, read_byte, read_expr, read_literal, string_literal, white_space,
};
use crate::text::{
    chars_of, decimal, decimal_text, filter_map_texts, joined, option_text, same_text, some_texts,
    terminate_strings, terminated, texts,
};
use vstd::prelude::*;

verus! {

// ---------------------------------------------------------------------------
// Documentation
// ---------------------------------------------------------------------------

/// A line of documentation as an attribute; nothing where the value is no text.
pub open spec fn doc_attr(line: Json) -> Option<Seq<char>> {
    match text_of(line) {
        Some(text) => Some(
            "#[doc = "@ + literal_of(
                if text.len() == 0 {
                    text
                } else {
                    " "@ + text
                },
            ) + "]"@,
        ),
        None => None,
    }
}

/// The documentation of a value as attributes, each on a line of its own.
pub open spec fn docs_text(value: Json) -> Seq<char> {
    terminated(
        some_texts(elements(value, "docs"@).map_values(|line: Json| doc_attr(line))),
        "\n"@,
    )
}

fn print_doc_attr(line: &Json) -> (out: Option<String>)
    ensures
        option_text(out) == doc_attr(*line),
{
    match line.as_str() {
        Some(text) => {
            let chars = chars_of(text);
            let shown = if chars.len() == 0 {
                text.to_owned()
            } else {
                " ".to_owned().concat(text)
            };
            Some("#[doc = ".to_owned().concat(string_literal(shown.as_str()).as_str()).concat("]"))
        },
        None => None,
    }
}

/// Writes the documentation of a value as attributes.
pub fn gen_declare_program_docs(value: &Json) -> (out: String)
    ensures
        out@ == docs_text(*value),
{
    let none: Vec<Json> = Vec::new();
    let lines = value.array_or("docs", &none);
    let attrs = filter_map_texts(
        lines,
        |line: &Json| -> (s: Option<String>)
            ensures
                option_text(s) == doc_attr(*line)
            { print_doc_attr(line) },
        Ghost(|line: Json| doc_attr(line)),
    );
    terminate_strings(&attrs, "\n")
}

// ---------------------------------------------------------------------------
// Byte arrays
// ---------------------------------------------------------------------------

/// The text without white space at its beginning.
pub open spec fn trimmed_start(text: Seq<char>) -> Seq<char>
    decreases text.len(),
{
    if text.len() > 0 && is_white_space(text[0]) {
        trimmed_start(text.skip(1))
    } else {
        text
    }
}

/// The text without white space at its end.
pub open spec fn trimmed_end(text: Seq<char>) -> Seq<char>
    decreases text.len(),
{
    if text.len() > 0 && is_white_space(text.last()) {
        trimmed_end(text.drop_last())
    } else {
        text
    }
}

/// The text without white space at both ends.
pub open spec fn trimmed(text: Seq<char>) -> Seq<char> {
    trimmed_end(trimmed_start(text))
}

/// The parts of a text between commas.
pub open spec fn comma_parts(text: Seq<char>) -> Seq<Seq<char>>
    decreases text.len(),
{
    if text.len() == 0 {
        seq![Seq::empty()]
    } else {
        let before = comma_parts(text.drop_last());
        if text.last() == ',' {
            before.push(Seq::empty())
        } else {
            before.update(before.len() - 1, before.last().push(text.last()))
        }
    }
}

/// The byte that a part of a list writes.
pub open spec fn part_byte(part: Seq<char>, span: Span) -> Result<u8, FailureView> {
    match byte_value(trimmed(part)) {
        Some(byte) => Ok(byte),
        None => Err(diagnostic(span, "invalid byte constant: "@ + byte_error(trimmed(part)))),
    }
}

/// The bytes that a text in square brackets writes, parted by commas.
pub open spec fn byte_array(value: Seq<char>, span: Span) -> Result<Seq<u8>, FailureView> {
    let text = trimmed(value);
    if text.len() < 2 || text[0] != '[' || text.last() != ']' {
        Err(diagnostic(span, "byte-array constant value must be `[u8, ...]`"@))
    } else {
        let inner = text.subrange(1, text.len() - 1);
        if trimmed(inner).len() == 0 {
            Ok(Seq::empty())
        } else {
            collected(comma_parts(inner).map_values(|part: Seq<char>| part_byte(part, span)))
        }
    }
}

fn trim(text: &Vec<char>, from: usize, to: usize) -> (out: (usize, usize))
    requires
        from <= to <= text@.len(),
    ensures
        from <= out.0 <= out.1 <= to,
        text@.subrange(out.0 as int, out.1 as int) == trimmed(
            text@.subrange(from as int, to as int),
        ),
{
    let ghost all = text@.subrange(from as int, to as int);
    let mut start: usize = from;
    while start < to && white_space(text[start])
        invariant
            from <= start <= to <= text@.len(),
            trimmed_start(all) == trimmed_start(text@.subrange(start as int, to as int)),
        decreases to - start,
    {
        assert(text@.subrange(start as int, to as int).skip(1) == text@.subrange(
            start + 1,
            to as int,
        ));
        start = start + 1;
    }
    let ghost rest = text@.subrange(start as int, to as int);
    assert(trimmed_start(all) == rest);
    let mut end: usize = to;
    while end > start && white_space(text[end - 1])
        invariant
            from <= start <= end <= to <= text@.len(),
            trimmed_end(rest) == trimmed_end(text@.subrange(start as int, end as int)),
        decreases end - start,
    {
        assert(text@.subrange(start as int, end as int).drop_last() == text@.subrange(
            start as int,
            end - 1,
        ));
        end = end - 1;
    }
    (start, end)
}

fn slice(text: &Vec<char>, from: usize, to: usize) -> (out: String)
    requires
        from <= to <= text@.len(),
    ensures
        out@ == text@.subrange(from as int, to as int),
{
    let mut out = String::new();
    for i in from..to
        invariant
            from <= to <= text@.len(),
            out@ == text@.subrange(from as int, i as int),
    {
        out.push(text[i]);
        assert(text@.subrange(from as int, i + 1) == text@.subrange(from as int, i as int).push(
            text@[i as int],
        ));
    }
    out
}

fn split_commas(text: &Vec<char>, from: usize, to: usize) -> (out: Vec<String>)
    requires
        from <= to <= text@.len(),
    ensures
        texts(out@) == comma_parts(text@.subrange(from as int, to as int)),
{
    let mut out: Vec<String> = Vec::new();
    let mut current = String::new();
    assert(texts(out@).push(current@) == seq![Seq::<char>::empty()]);
    for i in from..to
        invariant
            from <= to <= text@.len(),
            texts(out@).push(current@) == comma_parts(text@.subrange(from as int, i as int)),
    {
        let ghost seen = text@.subrange(from as int, i as int);
        let ghost done = texts(out@);
        let ghost part = current@;
        assert(text@.subrange(from as int, i + 1).drop_last() == seen);
        if text[i] == ',' {
            out.push(current);
            current = String::new();
            assert(texts(out@) == done.push(part));
            assert(texts(out@).push(current@) == done.push(part).push(Seq::empty()));
        } else {
            current.push(text[i]);
            assert(done.push(current@) == done.push(part).update(
                done.push(part).len() - 1,
                done.push(part).last().push(text@[i as int]),
            ));
        }
    }
    let ghost done = texts(out@);
    out.push(current);
    assert(texts(out@) == done.push(current@));
    out
}

/// Reads bytes from a text in square brackets.
pub fn parse_declare_program_byte_array(value: &str, span: Span) -> (out: Result<Vec<u8>, Failure>)
    ensures
        bytes_view(out) == byte_array(value@, span),
{
    let chars = chars_of(value);
    assert(chars@.subrange(0, chars@.len() as int) == chars@);
    let (start, end) = trim(&chars, 0, chars.len());
    let ghost text = chars@.subrange(start as int, end as int);
    if end - start < 2 || chars[start] != '[' || chars[end - 1] != ']' {
        return Err(
            new_diagnostic(span, "byte-array constant value must be `[u8, ...]`".to_owned()),
        );
    }
    let ghost inner = text.subrange(1, text.len() - 1);
    assert(chars@.subrange(start + 1, end - 1) == inner);
    let (inner_start, inner_end) = trim(&chars, start + 1, end - 1);
    if inner_start == inner_end {
        return Ok(Vec::new());
    }
    let parts = split_commas(&chars, start + 1, end - 1);
    let ghost results = comma_parts(inner).map_values(|part: Seq<char>| part_byte(part, span));
    let mut bytes: Vec<u8> = Vec::new();
    for i in 0..parts.len()
        invariant
            texts(parts@) == comma_parts(inner),
            results == comma_parts(inner).map_values(|part: Seq<char>| part_byte(part, span)),
            collected(results.take(i as int)) == Ok::<Seq<u8>, FailureView>(bytes@),
            collected(results) == byte_array(value@, span),
    {
        assert(results.take(i + 1).drop_last() == results.take(i as int));
        let part = chars_of(parts[i].as_str());
        assert(part@ == texts(parts@)[i as int]);
        assert(part@.subrange(0, part@.len() as int) == part@);
        let (from, to) = trim(&part, 0, part.len());
        let digits = slice(&part, from, to);
        match read_byte(digits.as_str()) {
            Ok(byte) => {
                bytes.push(byte);
            },
            Err(message) => {
                proof {
                    lemma_collected_prefix(results, i + 1);
                }
                return Err(
                    new_diagnostic(
                        span,
                        "invalid byte constant: ".to_owned().concat(message.as_str()),
                    ),
                );
            },
        }
    }
    assert(results.take(parts@.len() as int) == results);
    Ok(bytes)
}

// ---------------------------------------------------------------------------
// Constants
// ---------------------------------------------------------------------------

/// The type of a constant, which borrows where a value would own.
pub open spec fn const_type(value: Json, span: Span) -> Result<Seq<char>, FailureView> {
    if text_of(value) == Some("bytes"@) {
        Ok("&'static [u8]"@)
    } else if text_of(value) == Some("string"@) {
        Ok("&'static str"@)
    } else {
        idl_type(value, span)
    }
}

/// Writes the type of a constant.
pub fn declare_idl_const_type_to_tokens(value: &Json, span: Span) -> (out: Result<String, Failure>)
    ensures
        code_view(out) == const_type(*value, span),
{
    if let Some(name) = value.as_str() {
        if same_text(name, "bytes") {
            return Ok("&'static [u8]".to_owned());
        }
        if same_text(name, "string") {
            return Ok("&'static str".to_owned());
        }
    }
    declare_idl_type_to_tokens(value, span)
}

/// Whether a type is an array of bytes.
pub open spec fn is_byte_array(ty: Json) -> bool {
    match array_at(ty, "array"@) {
        Some(array) => array.len() == 2 && text_of(array[0]) == Some("u8"@),
        None => false,
    }
}

/// A constant whose value is an expression.
pub open spec fn expr_const(
    ident: Seq<char>,
    ty: Seq<char>,
    value: Seq<char>,
    what: Seq<char>,
    span: Span,
) -> Result<Seq<char>, FailureView> {
    match expr_reading(value) {
        Err(unread) => Err(diagnostic(span, what + unread.message)),
        Ok(expr) => Ok("pub const "@ + ident + ": "@ + ty + " = "@ + expr + ";"@),
    }
}

/// A constant that is an array of bytes: there must be as many as its type says.
pub open spec fn byte_array_const(
    ident: Seq<char>,
    len_value: Json,
    value: Seq<char>,
    span: Span,
) -> Result<Seq<char>, FailureView> {
    match array_len(len_value, span) {
        Err(failure) => Err(failure),
        Ok(len) => match byte_array(value, span) {
            Err(failure) => Err(failure),
            Ok(bytes) => match number_of(len_value) {
                Some(n) if n != bytes.len() => Err(
                    diagnostic(
                        span,
                        "constant `"@ + ident + "` has "@ + decimal(bytes.len())
                            + " bytes, expected "@ + decimal(n as nat),
                    ),
                ),
                _ => Ok(
                    "pub const "@ + ident + ": [u8; "@ + len + "] = ["@ + byte_literals(bytes)
                        + "];"@,
                ),
            },
        },
    }
}

/// A constant as an item.
pub open spec fn const_item(ident: Seq<char>, ty: Json, value: Seq<char>, span: Span) -> Result<
    Seq<char>,
    FailureView,
> {
    if text_of(ty) == Some("bytes"@) {
        match byte_array(value, span) {
            Err(failure) => Err(failure),
            Ok(bytes) => Ok(
                "pub const "@ + ident + ": &'static [u8] = &["@ + byte_literals(bytes) + "];"@,
            ),
        }
    } else if text_of(ty) == Some("string"@) {
        expr_const(
            ident,
            "&'static str"@,
            value,
            "failed to parse string constant value: "@,
            span,
        )
    } else if text_of(ty) == Some("pubkey"@) {
        Ok(
            "pub const "@ + ident + ": anchor_lang::Address = anchor_lang::address!("@ + literal_of(
                match literal_reading(value) {
                    Some(text) => text,
                    None => value,
                },
            ) + ");"@,
        )
    } else if is_byte_array(ty) {
        byte_array_const(ident, array_at(ty, "array"@)->Some_0[1], value, span)
    } else {
        match const_type(ty, span) {
            Err(failure) => Err(failure),
            Ok(ty) => expr_const(
                ident,
                ty,
                value,
                "failed to parse constant value: "@,
                span,
            ),
        }
    }
}

fn print_expr_const(ident: &str, ty: &str, value: &str, what: &str, span: Span) -> (out: Result<
    String,
    Failure,
>)
    ensures
        code_view(out) == expr_const(ident@, ty@, value@, what@, span),
{
    match read_expr(value) {
        Err(unread) => Err(new_diagnostic(span, what.to_owned().concat(unread.message.as_str()))),
        Ok(expr) => Ok(
            "pub const ".to_owned().concat(ident).concat(": ").concat(ty).concat(" = ").concat(
                expr.as_str(),
            ).concat(";"),
        ),
    }
}

fn print_byte_array_const(ident: &str, len_value: &Json, value: &str, span: Span) -> (out: Result<
    String,
    Failure,
>)
    ensures
        code_view(out) == byte_array_const(ident@, *len_value, value@, span),
{
    let len = match declare_idl_array_len_to_tokens(len_value, span) {
        Ok(len) => len,
        Err(failure) => return Err(failure),
    };
    let bytes = match parse_declare_program_byte_array(value, span) {
        Ok(bytes) => bytes,
        Err(failure) => return Err(failure),
    };
    if let Some(n) = len_value.as_u64() {
        if n != bytes.len() as u64 {
            return Err(
                new_diagnostic(
                    span,
                    "constant `".to_owned().concat(ident).concat("` has ").concat(
                        decimal_text(bytes.len() as u64).as_str(),
                    ).concat(" bytes, expected ").concat(decimal_text(n).as_str()),
                ),
            );
        }
    }
    Ok(
        "pub const ".to_owned().concat(ident).concat(": [u8; ").concat(len.as_str()).concat(
            "] = [",
        ).concat(print_byte_literals(&bytes).as_str()).concat("];"),
    )
}

/// Writes a constant as an item.
pub fn gen_declare_program_constant(ident: &str, ty_value: &Json, value: &str, span: Span) -> (out:
    Result<String, Failure>)
    ensures
        code_view(out) == const_item(ident@, *ty_value, value@, span),
{
    if let Some(name) = ty_value.as_str() {
        if same_text(name, "bytes") {
            return match parse_declare_program_byte_array(value, span) {
                Ok(bytes) => Ok(
                    "pub const ".to_owned().concat(ident).concat(": &'static [u8] = &[").concat(
                        print_byte_literals(&bytes).as_str(),
                    ).concat("];"),
                ),
                Err(failure) => Err(failure),
            };
        }
        if same_text(name, "string") {
            return print_expr_const(
                ident,
                "&'static str",
                value,
                "failed to parse string constant value: ",
                span,
            );
        }
        if same_text(name, "pubkey") {
            let text = match read_literal(value) {
                Some(text) => text,
                None => value.to_owned(),
            };
            return Ok(
                "pub const ".to_owned().concat(ident).concat(
                    ": anchor_lang::Address = anchor_lang::address!(",
                ).concat(string_literal(text.as_str()).as_str()).concat(");"),
            );
        }
    }
    if let Some(array) = ty_value.array_at("array") {
        if array.len() == 2 {
            if let Some(element) = array[0].as_str() {
                if same_text(element, "u8") {
                    return print_byte_array_const(ident, &array[1], value, span);
                }
            }
        }
    }
    match declare_idl_const_type_to_tokens(ty_value, span) {
        Err(failure) => Err(failure),
        Ok(ty) => print_expr_const(
            ident,
            ty.as_str(),
            value,
            "failed to parse constant value: ",
            span,
        ),
    }
}

/// A constant of the interface description, with its documentation.
pub open spec fn declared_const(constant: Json) -> Result<Seq<char>, FailureView> {
    match required_text(constant, "name"@, call_site()) {
        Err(failure) => Err(failure),
        Ok(name) => match item_name(name) {
            Err(failure) => Err(failure),
            Ok(ident) => match member_of(constant, "type"@) {
                None => Err(
                    diagnostic(call_site(), "constant `"@ + name + "` is missing type"@),
                ),
                Some(ty) => match required_text(constant, "value"@, call_site()) {
                    Err(failure) => Err(failure),
                    Ok(value) => match const_item(ident, ty, value, call_site()) {
                        Err(failure) => Err(failure),
                        Ok(item) => Ok(docs_text(constant) + item + "\n"@),
                    },
                },
            },
        },
    }
}

fn print_declared_const(constant: &Json) -> (out: Result<String, Failure>)
    ensures
        code_view(out) == declared_const(*constant),
{
    let span = at_call_site();
    let name = match json_str(constant, "name", span) {
        Ok(name) => name,
        Err(failure) => return Err(failure),
    };
    let ident = match new_ident(name.to_owned()) {
        Ok(ident) => ident,
        Err(failure) => return Err(failure),
    };
    let ty = match constant.get("type") {
        Some(ty) => ty,
        None => {
            return Err(
                new_diagnostic(
                    span,
                    "constant `".to_owned().concat(name).concat("` is missing type"),
                ),
            );
        },
    };
    let value = match json_str(constant, "value", span) {
        Ok(value) => value,
        Err(failure) => return Err(failure),
    };
    match gen_declare_program_constant(ident.as_str(), ty, value, span) {
        Ok(item) => Ok(
            gen_declare_program_docs(constant).concat(item.as_str()).concat("\n"),
        ),
        Err(failure) => Err(failure),
    }
}

/// The constants of the interface description, or the first failure.
pub open spec fn declared_consts(idl: Json) -> Result<Seq<Seq<char>>, FailureView> {
    collected(elements(idl, "constants"@).map_values(|constant: Json| declared_const(constant)))
}

/// Writes the constants of the interface description.
pub fn gen_declare_program_constants(idl: &Json) -> (out: Result<Vec<String>, Failure>)
    ensures
        list_view(out) == declared_consts(*idl),
{
    let none: Vec<Json> = Vec::new();
    let constants = idl.array_or("constants", &none);
    try_map_texts(
        constants,
        |constant: &Json| -> (r: Result<String, Failure>)
            ensures
                code_view(r) == declared_const(*constant)
            { print_declared_const(constant) },
        Ghost(|constant: Json| declared_const(constant)),
    )
}

// ---------------------------------------------------------------------------
// Laws
// ---------------------------------------------------------------------------

proof fn lemma_decimal_digits(n: nat)
    ensures
        decimal(n).len() > 0,
        is_digits(decimal(n)),
        digits_value(decimal(n)) == n,
    decreases n,
{
    let text = decimal(n);
    if n < 10 {
        assert(text.drop_last() == Seq::<char>::empty());
        assert(digits_value(text.drop_last()) == 0);
        assert(text.last() as nat - '0' as nat == n);
    } else {
        lemma_decimal_digits(n / 10);
        assert(text.drop_last() == decimal(n / 10));
        assert(text.last() as nat - '0' as nat == n % 10);
        assert forall|i: int| 0 <= i < text.len() implies '0' <= #[trigger] text[i] && text[i]
            <= '9' by {
            if i < text.len() - 1 {
                assert(text[i] == decimal(n / 10)[i]);
            }
        }
    }
}

proof fn lemma_untrimmed(text: Seq<char>)
    requires
        text.len() > 0,
        !is_white_space(text[0]),
        !is_white_space(text.last()),
    ensures
        trimmed(text) == text,
{
}

proof fn lemma_byte_part(byte: u8, span: Span)
    ensures
        part_byte(decimal(byte as nat), span) == Ok::<u8, FailureView>(byte),
        part_byte(seq![' '] + decimal(byte as nat), span) == Ok::<u8, FailureView>(byte),
{
    let text = decimal(byte as nat);
    lemma_decimal_digits(byte as nat);
    assert('0' <= text[0] && text[0] <= '9');
    assert('0' <= text[text.len() - 1] && text[text.len() - 1] <= '9');
    lemma_untrimmed(text);
    let spaced = seq![' '] + text;
    assert(spaced.skip(1) == text);
    assert(trimmed_start(spaced) == trimmed_start(text));
    assert(byte_value(text) == Some(byte));
}

proof fn lemma_parts_of_more(text: Seq<char>, more: Seq<char>)
    requires
        !more.contains(','),
    ensures
        comma_parts(text).len() > 0,
        comma_parts(text + more) == comma_parts(text).update(
            comma_parts(text).len() - 1,
            comma_parts(text).last() + more,
        ),
    decreases text.len() + more.len(),
{
    if more.len() == 0 {
        if text.len() > 0 {
            lemma_parts_of_more(text.drop_last(), Seq::empty());
        }
        assert(text + more == text);
        assert(comma_parts(text).last() + more == comma_parts(text).last());
    } else {
        let less = more.drop_last();
        assert forall|i: int| 0 <= i < less.len() implies less[i] != ',' by {
            assert(more.contains(more[i]));
        }
        assert(more.contains(more.last()));
        lemma_parts_of_more(text, less);
        assert((text + more).drop_last() == text + less);
        assert(comma_parts(text).last() + more == (comma_parts(text).last() + less).push(
            more.last(),
        ));
    }
}

/// The parts of a list of bytes: each in decimal, with a blank before all but the first.
spec fn listed_parts(bytes: Seq<u8>) -> Seq<Seq<char>> {
    Seq::new(
        bytes.len(),
        |i: int|
            if i == 0 {
                decimal(bytes[i] as nat)
            } else {
                seq![' '] + decimal(bytes[i] as nat)
            },
    )
}

/// A list of bytes without its brackets.
spec fn listed(bytes: Seq<u8>) -> Seq<char> {
    joined(bytes.map_values(|b: u8| decimal(b as nat)), ", "@)
}

proof fn lemma_listed_parts(bytes: Seq<u8>)
    requires
        bytes.len() > 0,
    ensures
        comma_parts(listed(bytes)) == listed_parts(bytes),
        listed(bytes).len() > 0,
        !is_white_space(listed(bytes)[0]),
        !is_white_space(listed(bytes).last()),
    decreases bytes.len(),
{
    let texts = bytes.map_values(|b: u8| decimal(b as nat));
    let last = decimal(bytes.last() as nat);
    lemma_decimal_digits(bytes.last() as nat);
    assert('0' <= last[last.len() - 1] && last[last.len() - 1] <= '9');
    assert('0' <= last[0] && last[0] <= '9');
    assert(!last.contains(','));
    if bytes.len() == 1 {
        assert(listed(bytes) == last);
        lemma_parts_of_more(Seq::empty(), last);
        assert(Seq::<char>::empty() + last == last);
        assert(comma_parts(listed(bytes)) == listed_parts(bytes));
    } else {
        let rest = bytes.drop_last();
        lemma_listed_parts(rest);
        assert(texts.drop_last() == rest.map_values(|b: u8| decimal(b as nat)));
        reveal_strlit(", ");
        let head = listed(rest);
        let tail = seq![' '] + last;
        let closed = head.push(',');
        assert(listed(bytes) == closed + tail);
        assert(closed.drop_last() == head);
        assert(!tail.contains(',')) by {
            assert forall|i: int| 0 <= i < tail.len() implies tail[i] != ',' by {
                if i > 0 {
                    assert(last.contains(last[i - 1]));
                }
            }
        }
        lemma_parts_of_more(closed, tail);
        assert(Seq::<char>::empty() + tail == tail);
        assert(comma_parts(closed) == comma_parts(head).push(Seq::empty()));
        assert(comma_parts(listed(bytes)) =~= listed_parts(bytes));
    }
}

proof fn lemma_collected_all<A>(results: Seq<Result<A, FailureView>>, values: Seq<A>)
    requires
        results.len() == values.len(),
        forall|i: int|
            0 <= i < results.len() ==> #[trigger] results[i] == Ok::<A, FailureView>(values[i]),
    ensures
        collected(results) == Ok::<Seq<A>, FailureView>(values),
    decreases results.len(),
{
    if results.len() == 0 {
        assert(values == Seq::<A>::empty());
    } else {
        lemma_collected_all(results.drop_last(), values.drop_last());
        assert(values.drop_last().push(values.last()) == values);
    }
}

/// Bytes are read back from the text that they are written as.
pub proof fn lemma_bytes_read_back(bytes: Seq<u8>, span: Span)
    ensures
        byte_array(bytes_text(bytes), span) == Ok::<Seq<u8>, FailureView>(bytes),
{
    reveal_strlit("[");
    reveal_strlit("]");
    let text = bytes_text(bytes);
    let inner = listed(bytes);
    lemma_untrimmed(text);
    assert(text.subrange(1, text.len() - 1) == inner);
    if bytes.len() == 0 {
        assert(inner == Seq::<char>::empty());
        assert(bytes == Seq::<u8>::empty());
    } else {
        lemma_listed_parts(bytes);
        lemma_untrimmed(inner);
        let results = comma_parts(inner).map_values(|part: Seq<char>| part_byte(part, span));
        assert forall|i: int| 0 <= i < results.len() implies #[trigger] results[i] == Ok::<
            u8,
            FailureView,
        >(bytes[i]) by {
            lemma_byte_part(bytes[i], span);
            assert(comma_parts(inner)[i] == listed_parts(bytes)[i]);
        }
        lemma_collected_all(results, bytes);
    }
}

} // verus!
