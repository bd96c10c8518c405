use vstd::prelude::*;
use super::grammar::{spec_identifier_end, spec_parse_identifier, spec_tag};
use super::syntax::Identifier;
use super::util::{
    is_identifier_character, parsed_as, within, ParseError, ParseResult, Source, Token,
};

verus! {

/// The position after the characters of an identifier from `pos` on.
pub fn identifier_name(source: &Source, pos: usize) -> (end: usize)
    ensures
        end == spec_identifier_end(source@, pos as int),
        pos <= end,
        pos <= source@.len() ==> end <= source@.len(),
{
    let mut end = pos;
    while end < source.len() && is_identifier_character(source.char_at(end))
        invariant
            pos <= end,
            pos <= source@.len() ==> end <= source@.len(),
            spec_identifier_end(source@, end as int) == spec_identifier_end(source@, pos as int),
        decreases source@.len() - end,
    {
        end = end + 1;
    }
    end
}

/// Whether the characters from `start` up to `end` spell `word`.
fn spells(source: &Source, start: usize, end: usize, word: &str) -> (result: bool)
    requires
        start <= end <= source@.len(),
    ensures
        result == (source@.subrange(start as int, end as int) == word@),
{
    match source.tag(start, word) {
        Some(rest) => rest == end,
        None => {
            assert(source@.subrange(start as int, end as int) == word@ ==> spec_tag(
                source@,
                start as int,
                word@,
            ) is Some);
            false
        },
    }
}

/// An identifier.
pub fn parse_identifier(source: &Source, pos: usize) -> (result: ParseResult<Identifier>)
    requires
        source.wf(),
    ensures
        parsed_as(result, spec_parse_identifier(source@, pos as int), pos),
        within(result, pos, source@.len()),
{
    let start = source.skip_multispace(pos);
    let end = identifier_name(source, start);
    if end == start || end > source.len() {
        return Err(ParseError { position: pos });
    }
    if spells(source, start, end, "def") || spells(source, start, end, "let") || spells(
        source,
        start,
        end,
        "if",
    ) || spells(source, start, end, "else") {
        return Err(ParseError { position: pos });
    }
    Ok((end, Token { position: start, value: Identifier(source.substring(start, end)) }))
}

} // verus!
