use vstd::prelude::*;

use crate::ast::Function;
use crate::ast::FunctionSignature;
use crate::ast::TopLevelStatement;
use crate::ast::TopLevelStatementV;
use crate::ast::Type;
use crate::ast::Variable;
use crate::ast::VariableV;
use crate::ast::top_levels_view;
use crate::ast::variables_view;
use crate::context::Error;
use crate::context::TokenStream;
use crate::context::stream_tokens;
use crate::grammar::spec_function_pass;
use crate::grammar::spec_params;
use crate::grammar::spec_parse_program;
use crate::token::Keyword;
use crate::token::Operator;
use crate::token::Parenthetical;
use crate::token::Token;
use crate::token::TracedToken;

verus! {

/// Parses the rest of a parameter list, the parameters collected so far in
/// hand: `name: type` pairs, each followed by a comma except the last,
/// up to but not including the closing `)`.
fn params_rest(stream: &mut TokenStream, acc: Vec<Variable>) -> (r: Result<Vec<Variable>, Error>)
    requires
        old(stream).wf(),
    ensures
        final(stream).wf(),
        final(stream).toks() == old(stream).toks(),
        old(stream).pos() <= final(stream).pos(),
        match (&r, spec_params(old(stream).toks(), old(stream).pos(), variables_view(acc@))) {
            (Ok(args), Ok((av, p))) => variables_view(args@) == av && final(stream).pos() == p,
            (Err(e), Err(ev)) => e@ == ev,
            _ => false,
        },
    decreases stream.toks().len() - stream.pos(),
{
    let mut acc = acc;
    if stream.is_curr(&Token::Parenthetical(Parenthetical::NormalClose)) {
        return Ok(acc);
    }
    let var = match crate::category::consume_variable(stream) {
        Ok(v) => v,
        Err(e) => {
            return Err(e);
        },
    };
    proof {
        assert(variables_view(acc@.push(var)) =~= variables_view(acc@).push(var@));
    }
    if stream.is_curr(&Token::Operator(Operator::Comma)) {
        stream.next();
        acc.push(var);
        params_rest(stream, acc)
    } else {
        acc.push(var);
        Ok(acc)
    }
}

/// The one top-level form: `function name(params) [-> type] body`. The
/// body is either a brace-delimited scope or `=>` and a single expression;
/// a missing `->` defaults the return type to unit. Yields nothing where
/// the current token is not the `function` keyword.
pub fn function_pass(stream: &mut TokenStream) -> (r: Result<Option<TopLevelStatement>, Error>)
    requires
        old(stream).wf(),
    ensures
        final(stream).wf(),
        final(stream).toks() == old(stream).toks(),
        old(stream).pos() <= final(stream).pos(),
        match (&r, spec_function_pass(old(stream).toks(), old(stream).pos())) {
            (Ok(Some(s)), Ok(Some((sv, p)))) => s@ == sv && final(stream).pos() == p && old(
                stream,
            ).pos() < final(stream).pos(),
            (Ok(None), Ok(None)) => final(stream).pos() == old(stream).pos(),
            (Err(e), Err(ev)) => e@ == ev,
            _ => false,
        },
{
    if !stream.is_curr(&Token::Keyword(Keyword::Function)) {
        return Ok(None);
    }
    stream.next();
    let ident = match stream.consume_identifier() {
        Ok(i) => i,
        Err(e) => {
            return Err(e);
        },
    };
    match stream.consume(&Token::Parenthetical(Parenthetical::NormalOpen)) {
        Ok(_) => {},
        Err(e) => {
            return Err(e);
        },
    }
    let args0: Vec<Variable> = Vec::new();
    proof {
        assert(variables_view(args0@) =~= Seq::<VariableV>::empty());
    }
    let args = match params_rest(stream, args0) {
        Ok(a) => a,
        Err(e) => {
            return Err(e);
        },
    };
    match stream.consume(&Token::Parenthetical(Parenthetical::NormalClose)) {
        Ok(_) => {},
        Err(e) => {
            return Err(e);
        },
    }
    let ret = if stream.is_curr(&Token::Operator(Operator::ThinArrow)) {
        stream.next();
        match crate::category::consume_type(stream) {
            Ok(t) => t,
            Err(e) => {
                return Err(e);
            },
        }
    } else {
        Type::Unit
    };
    let signature = FunctionSignature::new_named(args, ret);
    let body = match crate::expression::scope_pass(stream) {
        Err(e) => {
            return Err(e);
        },
        Ok(Some(scope)) => scope,
        Ok(None) => {
            match stream.consume(&Token::Operator(Operator::Arrow)) {
                Ok(_) => {},
                Err(e) => {
                    return Err(e);
                },
            }
            match crate::expression::consume(stream) {
                Ok(e) => e,
                Err(e) => {
                    return Err(e);
                },
            }
        },
    };
    Ok(
        Some(
            TopLevelStatement::Function {
                ident,
                function: Function { signature, body: Box::new(body) },
            },
        ),
    )
}

/// Parses the rest of a program, the top-level statements collected so far
/// in hand: top-level statements until the end of the input; a token the
/// top-level form cannot start with is a fatal error.
fn parse_rest(stream: &mut TokenStream, acc: Vec<TopLevelStatement>) -> (r: Result<
    Vec<TopLevelStatement>,
    Error,
>)
    requires
        old(stream).wf(),
    ensures
        match (
            &r,
            spec_parse_program(old(stream).toks(), old(stream).pos(), top_levels_view(acc@)),
        ) {
            (Ok(sts), Ok(sv)) => top_levels_view(sts@) == sv,
            (Err(e), Err(ev)) => e@ == ev,
            _ => false,
        },
    decreases stream.toks().len() - stream.pos(),
{
    let mut acc = acc;
    match function_pass(stream) {
        Err(e) => Err(e),
        Ok(Some(st)) => {
            proof {
                assert(top_levels_view(acc@.push(st)) =~= top_levels_view(acc@).push(st@));
            }
            acc.push(st);
            parse_rest(stream, acc)
        },
        Ok(None) => {
            if stream.is_eof() {
                Ok(acc)
            } else {
                let given = stream.curr_token().clone();
                Err(Error::UnexpectedToken(given))
            }
        },
    }
}

impl TokenStream {
    /// Parses a whole token list as a program: top-level statements until
    /// the end of the input.
    pub fn parse(tokens: Vec<TracedToken>) -> (r: Result<Vec<TopLevelStatement>, Error>)
        ensures
            match (&r, spec_parse_program(stream_tokens(tokens@), 0, Seq::empty())) {
                (Ok(sts), Ok(sv)) => top_levels_view(sts@) == sv,
                (Err(e), Err(ev)) => e@ == ev,
                _ => false,
            },
    {
        let mut parser = TokenStream::new(tokens);
        let acc: Vec<TopLevelStatement> = Vec::new();
        proof {
            assert(top_levels_view(acc@) =~= Seq::<TopLevelStatementV>::empty());
        }
        parse_rest(&mut parser, acc)
    }
}

} // verus!