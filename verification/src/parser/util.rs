//! The text that is parsed, and the smallest parsers.

use vstd::prelude::*;
use vstd::std_specs::iter::IteratorSpec;
use vstd::string::StrSliceExecFns;
use super::grammar::{
    is_digit, is_escapable, is_identifier_char, is_string_char, spec_char,
    spec_skip_multispace, spec_skip_space, spec_tag, Parsed,
};

verus! {

/// A piece of syntax with the position in the text at which it began.
#[derive(Debug, PartialEq, Eq)]
pub struct Token<T> {
    pub position: usize,
    pub value: T,
}

/// The failure to read something at a position of the text.
#[derive(Clone, Copy, Debug, PartialEq, Eq, Structural)]
pub struct ParseError {
    pub position: usize,
}

/// The position after what was read and what was read, or an error.
pub type ParseResult<T> = Result<(usize, Token<T>), ParseError>;

/// Whether a parser's result is what the grammar reads at `pos`.
pub open spec fn parsed_as<T: View>(
    result: ParseResult<T>,
    expected: Option<Parsed<T::V>>,
    pos: usize,
) -> bool {
    match expected {
        None => result == Err::<(usize, Token<T>), ParseError>(ParseError { position: pos }),
        Some(parsed) => {
            &&& result is Ok
            &&& result->Ok_0.0 == parsed.rest
            &&& result->Ok_0.1.position == parsed.position
            &&& result->Ok_0.1.value@ == parsed.value
        },
    }
}

/// Whether what a parser read lies between `pos` and the end of the text.
pub open spec fn within<T>(result: ParseResult<T>, pos: usize, length: nat) -> bool {
    result is Ok ==> pos <= result->Ok_0.0 <= length
}

/// A text with its characters laid out for reading by position.
#[derive(Debug)]
pub struct Source<'a> {
    text: &'a str,
    chars: Vec<char>,
}

impl<'a> View for Source<'a> {
    type V = Seq<char>;

    closed spec fn view(&self) -> Seq<char> {
        self.chars@
    }
}

impl<'a> Source<'a> {
    /// Whether the characters are those of the text.
    pub closed spec fn wf(&self) -> bool {
        self.chars@ == self.text@
    }

    pub fn new(text: &'a str) -> (source: Source<'a>)
        ensures
            source@ == text@,
            source.wf(),
    {
        let mut chars: Vec<char> = Vec::new();
        for c in it: text.chars()
            invariant
                it.seq() == text@,
                chars@ == it.seq().take(it.index() as int),
        {
            chars.push(c);
            assert(chars@ =~= it.seq().take(it.index() + 1));
        }
        assert(chars@ =~= text@);
        Source { text, chars }
    }

    /// The number of characters.
    pub fn len(&self) -> (length: usize)
        ensures
            length == self@.len(),
    {
        self.chars.len()
    }

    /// Whether the character at `pos` is `c`.
    pub fn has_char(&self, pos: usize, c: char) -> (found: bool)
        ensures
            found == spec_char(self@, pos as int, c),
    {
        pos < self.chars.len() && self.chars[pos] == c
    }

    /// The characters from `from` up to `to`.
    pub fn substring(&self, from: usize, to: usize) -> (string: String)
        requires
            self.wf(),
            from <= to <= self@.len(),
        ensures
            string@ == self@.subrange(from as int, to as int),
    {
        self.text.substring_char(from, to).to_owned()
    }

    /// The position of the first character from `pos` on that is not blank.
    pub fn skip_space(&self, pos: usize) -> (rest: usize)
        ensures
            rest == spec_skip_space(self@, pos as int),
            pos <= rest,
            pos <= self@.len() ==> rest <= self@.len(),
    {
        let mut rest = pos;
        while rest < self.chars.len() && (self.chars[rest] == ' ' || self.chars[rest] == '\t')
            invariant
                pos <= rest,
                pos <= self@.len() ==> rest <= self@.len(),
                spec_skip_space(self@, rest as int) == spec_skip_space(self@, pos as int),
            decreases self.chars.len() - rest,
        {
            rest = rest + 1;
        }
        rest
    }

    /// The position of the first character from `pos` on that is neither
    /// blank nor a line break.
    pub fn skip_multispace(&self, pos: usize) -> (rest: usize)
        ensures
            rest == spec_skip_multispace(self@, pos as int),
            pos <= rest,
            pos <= self@.len() ==> rest <= self@.len(),
    {
        let mut rest = pos;
        while rest < self.chars.len() && (self.chars[rest] == ' ' || self.chars[rest] == '\t'
            || self.chars[rest] == '\r' || self.chars[rest] == '\n')
            invariant
                pos <= rest,
                pos <= self@.len() ==> rest <= self@.len(),
                spec_skip_multispace(self@, rest as int) == spec_skip_multispace(
                    self@,
                    pos as int,
                ),
            decreases self.chars.len() - rest,
        {
            rest = rest + 1;
        }
        rest
    }

    /// The position after `tag`, where the text continues with it at `pos`.
    pub fn tag(&self, pos: usize, tag: &str) -> (rest: Option<usize>)
        ensures
            match spec_tag(self@, pos as int, tag@) {
                Some(after) => rest is Some && rest->0 == after && after <= self@.len(),
                None => rest is None,
            },
    {
        let length = tag.unicode_len();
        if pos > self.chars.len() || length > self.chars.len() - pos {
            return None;
        }
        let mut index: usize = 0;
        while index < length
            invariant
                index <= length == tag@.len(),
                pos + length <= self.chars.len(),
                forall|i: int| 0 <= i < index ==> self@[pos + i] == tag@[i],
            decreases length - index,
        {
            if self.chars[pos + index] != tag.get_char(index) {
                assert(self@.subrange(pos as int, pos + length)[index as int] != tag@[index as int]);
                return None;
            }
            index = index + 1;
        }
        assert(self@.subrange(pos as int, pos + length) =~= tag@);
        Some(pos + length)
    }

    /// The character at `pos`.
    pub fn char_at(&self, pos: usize) -> (c: char)
        requires
            pos < self@.len(),
        ensures
            c == self@[pos as int],
    {
        self.chars[pos]
    }
}

pub fn is_digit_char(c: char) -> (result: bool)
    ensures
        result == is_digit(c),
{
    '0' <= c && c <= '9'
}

pub fn is_identifier_character(c: char) -> (result: bool)
    ensures
        result == is_identifier_char(c),
{
    ('a' <= c && c <= 'z') || ('A' <= c && c <= 'Z') || ('0' <= c && c <= '9') || c == '_'
}

pub fn is_string_character(c: char) -> (result: bool)
    ensures
        result == is_string_char(c),
{
    ('a' <= c && c <= 'z') || ('A' <= c && c <= 'Z') || ('0' <= c && c <= '9') || c == ' ' || c
        == '!' || c == '@' || c == '#' || c == '$' || c == '%' || c == '^' || c == '&' || c
        == '*' || c == '(' || c == ')'
}

pub fn is_escapable_character(c: char) -> (result: bool)
    ensures
        result == is_escapable(c),
{
    c == '"' || c == 'n' || c == '\\'
}

} // verus!
