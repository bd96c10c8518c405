//! The tokens and the keywords.

use vstd::prelude::*;
use super::grammar::spec_token;
use super::util::{parsed_as, within, ParseError, ParseResult, Source, Token};

verus! {

/// A token: white space, then the token's text.
pub fn token(source: &Source, pos: usize, text: &str) -> (result: ParseResult<String>)
    ensures
        parsed_as(result, spec_token(source@, pos as int, text@), pos),
        within(result, pos, source@.len()),
{
    let start = source.skip_multispace(pos);
    match source.tag(start, text) {
        Some(rest) => Ok((rest, Token { position: start, value: text.to_owned() })),
        None => Err(ParseError { position: pos }),
    }
}

pub fn comma_token(source: &Source, pos: usize) -> (result: ParseResult<String>)
    ensures
        parsed_as(result, spec_token(source@, pos as int, ","@), pos),
        within(result, pos, source@.len()),
{
    token(source, pos, ",")
}

pub fn open_brace_token(source: &Source, pos: usize) -> (result: ParseResult<String>)
    ensures
        parsed_as(result, spec_token(source@, pos as int, "{"@), pos),
        within(result, pos, source@.len()),
{
    token(source, pos, "{")
}

pub fn close_brace_token(source: &Source, pos: usize) -> (result: ParseResult<String>)
    ensures
        parsed_as(result, spec_token(source@, pos as int, "}"@), pos),
        within(result, pos, source@.len()),
{
    token(source, pos, "}")
}

pub fn add_token(source: &Source, pos: usize) -> (result: ParseResult<String>)
    ensures
        parsed_as(result, spec_token(source@, pos as int, "+"@), pos),
        within(result, pos, source@.len()),
{
    token(source, pos, "+")
}

pub fn subtract_token(source: &Source, pos: usize) -> (result: ParseResult<String>)
    ensures
        parsed_as(result, spec_token(source@, pos as int, "-"@), pos),
        within(result, pos, source@.len()),
{
    token(source, pos, "-")
}

pub fn multiply_token(source: &Source, pos: usize) -> (result: ParseResult<String>)
    ensures
        parsed_as(result, spec_token(source@, pos as int, "*"@), pos),
        within(result, pos, source@.len()),
{
    token(source, pos, "*")
}

pub fn divide_token(source: &Source, pos: usize) -> (result: ParseResult<String>)
    ensures
        parsed_as(result, spec_token(source@, pos as int, "/"@), pos),
        within(result, pos, source@.len()),
{
    token(source, pos, "/")
}

pub fn equality_token(source: &Source, pos: usize) -> (result: ParseResult<String>)
    ensures
        parsed_as(result, spec_token(source@, pos as int, "=="@), pos),
        within(result, pos, source@.len()),
{
    token(source, pos, "==")
}

pub fn inequality_token(source: &Source, pos: usize) -> (result: ParseResult<String>)
    ensures
        parsed_as(result, spec_token(source@, pos as int, "!="@), pos),
        within(result, pos, source@.len()),
{
    token(source, pos, "!=")
}

pub fn less_than_token(source: &Source, pos: usize) -> (result: ParseResult<String>)
    ensures
        parsed_as(result, spec_token(source@, pos as int, "<"@), pos),
        within(result, pos, source@.len()),
{
    token(source, pos, "<")
}

pub fn less_or_equal_token(source: &Source, pos: usize) -> (result: ParseResult<String>)
    ensures
        parsed_as(result, spec_token(source@, pos as int, "<="@), pos),
        within(result, pos, source@.len()),
{
    token(source, pos, "<=")
}

pub fn greater_than_token(source: &Source, pos: usize) -> (result: ParseResult<String>)
    ensures
        parsed_as(result, spec_token(source@, pos as int, ">"@), pos),
        within(result, pos, source@.len()),
{
    token(source, pos, ">")
}

pub fn greater_or_equal_token(source: &Source, pos: usize) -> (result: ParseResult<String>)
    ensures
        parsed_as(result, spec_token(source@, pos as int, ">="@), pos),
        within(result, pos, source@.len()),
{
    token(source, pos, ">=")
}

pub fn assignment_token(source: &Source, pos: usize) -> (result: ParseResult<String>)
    ensures
        parsed_as(result, spec_token(source@, pos as int, "="@), pos),
        within(result, pos, source@.len()),
{
    token(source, pos, "=")
}

pub fn def_keyword(source: &Source, pos: usize) -> (result: ParseResult<String>)
    ensures
        parsed_as(result, spec_token(source@, pos as int, "def"@), pos),
        within(result, pos, source@.len()),
{
    token(source, pos, "def")
}

pub fn let_keyword(source: &Source, pos: usize) -> (result: ParseResult<String>)
    ensures
        parsed_as(result, spec_token(source@, pos as int, "let"@), pos),
        within(result, pos, source@.len()),
{
    token(source, pos, "let")
}

pub fn if_keyword(source: &Source, pos: usize) -> (result: ParseResult<String>)
    ensures
        parsed_as(result, spec_token(source@, pos as int, "if"@), pos),
        within(result, pos, source@.len()),
{
    token(source, pos, "if")
}

pub fn else_keyword(source: &Source, pos: usize) -> (result: ParseResult<String>)
    ensures
        parsed_as(result, spec_token(source@, pos as int, "else"@), pos),
        within(result, pos, source@.len()),
{
    token(source, pos, "else")
}

pub fn return_keyword(source: &Source, pos: usize) -> (result: ParseResult<String>)
    ensures
        parsed_as(result, spec_token(source@, pos as int, "return"@), pos),
        within(result, pos, source@.len()),
{
    token(source, pos, "return")
}

pub fn while_keyword(source: &Source, pos: usize) -> (result: ParseResult<String>)
    ensures
        parsed_as(result, spec_token(source@, pos as int, "while"@), pos),
        within(result, pos, source@.len()),
{
    token(source, pos, "while")
}

} // verus!
