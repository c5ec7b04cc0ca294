pub mod token;
pub mod operator;
pub mod ast;
pub mod text;
pub mod lexer;
pub mod context;
pub mod grammar;
pub mod category;
pub mod expression;
pub mod statement;
pub mod top_level;
pub mod roundtrip;

use vstd::prelude::*;
use vstd::string::StrSliceExecFns;

use crate::ast::TopLevelStatement;
use crate::ast::Type;
use crate::ast::top_levels_view;
use crate::context::Error;
use crate::context::TokenStream;
use crate::context::stream_tokens;
use crate::grammar::spec_parse;
use crate::grammar::spec_parse_type;
use crate::grammar::spec_token_stream;
use crate::lexer::int_literals_fit;
use crate::lexer::spec_ints_fit;
use crate::lexer::tokenize;
use crate::token::traced_tokens_view;

verus! {

/// Parses one compilation unit: source text in, the ordered list of
/// top-level statements out, or the first error — the lexer's or the
/// parser's — with nothing partial. The input must be shorter than
/// `usize::MAX` characters and every integer literal in it must fit in an
/// `i64`; `try_parse` decides the latter first.
pub fn parse(contents: String) -> (r: Result<Vec<TopLevelStatement>, Error>)
    requires
        contents@.len() < usize::MAX,
        spec_ints_fit(contents@),
    ensures
        match (&r, spec_parse(contents@)) {
            (Ok(sts), Ok(sv)) => top_levels_view(sts@) == sv,
            (Err(e), Err(ev)) => e@ == ev,
            _ => false,
        },
{
    match tokenize(contents) {
        Err(e) => Err(Error::Lexer(e)),
        Ok(tokens) => {
            proof {
                assert(stream_tokens(tokens@) =~= spec_token_stream(traced_tokens_view(tokens@)));
            }
            TokenStream::parse(tokens)
        },
    }
}

/// Parses one compilation unit after deciding that every integer literal
/// in it fits in an `i64`: yields `None` exactly where one does not, else
/// the result of `parse`.
pub fn try_parse(contents: String) -> (r: Option<Result<Vec<TopLevelStatement>, Error>>)
    requires
        contents@.len() < usize::MAX,
    ensures
        r is None <==> !spec_ints_fit(contents@),
        match (&r, spec_parse(contents@)) {
            (Some(Ok(sts)), Ok(sv)) => top_levels_view(sts@) == sv,
            (Some(Err(e)), Err(ev)) => e@ == ev,
            (None, _) => true,
            _ => false,
        },
{
    if int_literals_fit(contents.as_str()) {
        Some(parse(contents))
    } else {
        None
    }
}

/// Parses source text as a single type expression; what stands after the
/// type in the text is left unread.
pub fn parse_type(source: &str) -> (r: Result<Type, Error>)
    requires
        source@.len() < usize::MAX,
        spec_ints_fit(source@),
    ensures
        match (&r, spec_parse_type(source@)) {
            (Ok(t), Ok(tv)) => t@ == tv,
            (Err(e), Err(ev)) => e@ == ev,
            _ => false,
        },
{
    match tokenize(source.to_owned()) {
        Err(e) => Err(Error::Lexer(e)),
        Ok(tokens) => {
            proof {
                assert(stream_tokens(tokens@) =~= spec_token_stream(traced_tokens_view(tokens@)));
            }
            let mut stream = TokenStream::new(tokens);
            match crate::category::consume_type(&mut stream) {
                Ok(t) => Ok(t),
                Err(e) => Err(e),
            }
        },
    }
}

/// Parses source text as a single type expression after deciding that
/// every integer literal in it fits in an `i64`: yields `None` exactly
/// where one does not, else the result of `parse_type`.
pub fn try_parse_type(source: &str) -> (r: Option<Result<Type, Error>>)
    requires
        source@.len() < usize::MAX,
    ensures
        r is None <==> !spec_ints_fit(source@),
        match (&r, spec_parse_type(source@)) {
            (Some(Ok(t)), Ok(tv)) => t@ == tv,
            (Some(Err(e)), Err(ev)) => e@ == ev,
            (None, _) => true,
            _ => false,
        },
{
    if int_literals_fit(source) {
        Some(parse_type(source))
    } else {
        None
    }
}

} // verus!
