use vstd::prelude::*;
use super::grammar::{
    is_digit, spec_digits_end, spec_digits_value, spec_escaped_end, spec_literal_int,
    spec_literal_string, spec_parse_literal, spec_skip_multispace,
};
use super::syntax::Literal;
use super::util::{
    is_digit_char, is_escapable_character, is_string_character, parsed_as, within, ParseError,
    ParseResult, Source, Token,
};

verus! {

/// The position after the content of a string literal that goes on at
/// `pos`.
fn escaped_end(source: &Source, pos: usize) -> (end: Option<usize>)
    requires
        pos <= source@.len(),
    ensures
        match spec_escaped_end(source@, pos as int) {
            Some(position) => end is Some && end->0 == position && pos <= position
                <= source@.len(),
            None => end is None,
        },
{
    let mut end = pos;
    loop
        invariant
            pos <= end <= source@.len(),
            spec_escaped_end(source@, end as int) == spec_escaped_end(source@, pos as int),
        decreases source@.len() - end,
    {
        if end >= source.len() {
            return Some(end);
        }
        let c = source.char_at(end);
        if is_string_character(c) {
            end = end + 1;
        } else if c == '\\' {
            if end + 1 < source.len() && is_escapable_character(source.char_at(end + 1)) {
                end = end + 2;
            } else {
                return None;
            }
        } else {
            return Some(end);
        }
    }
}

fn literal_string(source: &Source, pos: usize) -> (result: ParseResult<Literal>)
    requires
        source.wf(),
    ensures
        parsed_as(result, spec_literal_string(source@, pos as int), pos),
        within(result, pos, source@.len()),
{
    let start = source.skip_space(pos);
    if start >= source.len() || !source.has_char(start, '"') {
        return Err(ParseError { position: pos });
    }
    match escaped_end(source, start + 1) {
        Some(end) => {
            if start + 1 < end && end < source.len() && source.has_char(end, '"') {
                let value = Literal::String(source.substring(start + 1, end));
                Ok((end + 1, Token { position: start, value }))
            } else {
                Err(ParseError { position: pos })
            }
        },
        None => Err(ParseError { position: pos }),
    }
}

/// The position after the digits from `pos` on.
fn digits_end(source: &Source, pos: usize) -> (end: usize)
    ensures
        end == spec_digits_end(source@, pos as int),
        pos <= end,
        pos <= source@.len() ==> end <= source@.len(),
        forall|i: int| pos <= i < end ==> is_digit(#[trigger] source@[i]),
{
    let mut end = pos;
    while end < source.len() && is_digit_char(source.char_at(end))
        invariant
            pos <= end,
            pos <= source@.len() ==> end <= source@.len(),
            spec_digits_end(source@, end as int) == spec_digits_end(source@, pos as int),
            forall|i: int| pos <= i < end ==> is_digit(#[trigger] source@[i]),
        decreases source@.len() - end,
    {
        end = end + 1;
    }
    end
}

/// More digits spell a number that is no smaller.
proof fn lemma_digits_value_grows(s: Seq<char>, start: int, middle: int, end: int)
    requires
        0 <= start <= middle <= end <= s.len(),
        forall|i: int| start <= i < end ==> is_digit(#[trigger] s[i]),
    ensures
        0 <= spec_digits_value(s, start, middle) <= spec_digits_value(s, start, end),
    decreases end - middle, middle - start,
{
    if middle < end {
        lemma_digits_value_grows(s, start, middle, end - 1);
        assert(is_digit(s[end - 1]));
    } else if start < middle {
        lemma_digits_value_grows(s, start, middle - 1, middle - 1);
        assert(is_digit(s[middle - 1]));
    }
}

fn parse_int(source: &Source, pos: usize) -> (result: ParseResult<Literal>)
    ensures
        parsed_as(result, spec_literal_int(source@, pos as int), pos),
        within(result, pos, source@.len()),
{
    let start = source.skip_multispace(pos);
    let end = digits_end(source, start);
    if end == start || end > source.len() {
        return Err(ParseError { position: pos });
    }
    let mut value: i64 = 0;
    let mut index: usize = start;
    while index < end
        invariant
            start <= index <= end <= source@.len(),
            start == spec_skip_multispace(source@, pos as int),
            end == spec_digits_end(source@, start as int),
            forall|i: int| start <= i < end ==> is_digit(#[trigger] source@[i]),
            0 <= value == spec_digits_value(source@, start as int, index as int),
        decreases end - index,
    {
        let c = source.char_at(index);
        assert(is_digit(source@[index as int]));
        let digit: i64 = (c as u32 - '0' as u32) as i64;
        if value > (i64::MAX - digit) / 10 {
            proof {
                lemma_digits_value_grows(source@, start as int, index + 1, end as int);
                assert(spec_digits_value(source@, start as int, index + 1) == value * 10 + digit);
                assert(value * 10 + digit > i64::MAX);
            }
            return Err(ParseError { position: pos });
        }
        value = value * 10 + digit;
        index = index + 1;
    }
    Ok((end, Token { position: start, value: Literal::Integer(value) }))
}

fn literal_int(source: &Source, pos: usize) -> (result: ParseResult<Literal>)
    ensures
        parsed_as(result, spec_literal_int(source@, pos as int), pos),
        within(result, pos, source@.len()),
{
    parse_int(source, pos)
}

/// A literal: a string or an integer.
pub fn parse_literal(source: &Source, pos: usize) -> (result: ParseResult<Literal>)
    requires
        source.wf(),
    ensures
        parsed_as(result, spec_parse_literal(source@, pos as int), pos),
        within(result, pos, source@.len()),
{
    match literal_string(source, pos) {
        Ok(parsed) => Ok(parsed),
        Err(_) => literal_int(source, pos),
    }
}

} // verus!
