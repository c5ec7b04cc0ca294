use vstd::prelude::*;

use crate::ast::Statement;
use crate::ast::Variable;
use crate::context::Error;
use crate::context::TokenStream;
use crate::grammar::spec_consume_statement;
use crate::grammar::spec_let_var_pass;
use crate::grammar::spec_return_pass;
use crate::grammar::spec_var_pass;
use crate::token::Keyword;
use crate::token::Operator;
use crate::token::Token;

verus! {

/// The `let` statement: binds a variable whose type is const-qualified
/// whatever the annotation says, with a required initializer.
pub fn let_var_pass(stream: &mut TokenStream) -> (r: Result<Option<Statement>, Error>)
    requires
        old(stream).wf(),
    ensures
        final(stream).wf(),
        final(stream).toks() == old(stream).toks(),
        old(stream).pos() <= final(stream).pos(),
        match (&r, spec_let_var_pass(old(stream).toks(), old(stream).pos())) {
            (Ok(Some(s)), Ok(Some((sv, p)))) => s@ == sv && final(stream).pos() == p && old(
                stream,
            ).pos() < final(stream).pos(),
            (Ok(None), Ok(None)) => final(stream).pos() == old(stream).pos(),
            (Err(e), Err(ev)) => e@ == ev,
            _ => false,
        },
    decreases stream.toks().len() - stream.pos(), 29int,
{
    let opened = stream.try_consume(&Token::Keyword(Keyword::Let));
    if opened.is_none() {
        return Ok(None);
    }
    let var = match crate::category::consume_variable(stream) {
        Ok(v) => v,
        Err(e) => {
            return Err(e);
        },
    };
    let Variable { ident, type_id } = var;
    let cvar = Variable { ident, type_id: type_id.as_const() };
    match stream.consume(&Token::Operator(Operator::Assignment)) {
        Ok(_) => {},
        Err(e) => {
            return Err(e);
        },
    }
    match crate::expression::consume(stream) {
        Ok(init) => Ok(Some(Statement::Declaration { var: cvar, initialisation: Some(init) })),
        Err(e) => Err(e),
    }
}

/// The `var` statement: binds a variable with an optional initializer.
pub fn var_pass(stream: &mut TokenStream) -> (r: Result<Option<Statement>, Error>)
    requires
        old(stream).wf(),
    ensures
        final(stream).wf(),
        final(stream).toks() == old(stream).toks(),
        old(stream).pos() <= final(stream).pos(),
        match (&r, spec_var_pass(old(stream).toks(), old(stream).pos())) {
            (Ok(Some(s)), Ok(Some((sv, p)))) => s@ == sv && final(stream).pos() == p && old(
                stream,
            ).pos() < final(stream).pos(),
            (Ok(None), Ok(None)) => final(stream).pos() == old(stream).pos(),
            (Err(e), Err(ev)) => e@ == ev,
            _ => false,
        },
    decreases stream.toks().len() - stream.pos(), 29int,
{
    let opened = stream.try_consume(&Token::Keyword(Keyword::Var));
    if opened.is_none() {
        return Ok(None);
    }
    let var = match crate::category::consume_variable(stream) {
        Ok(v) => v,
        Err(e) => {
            return Err(e);
        },
    };
    let assigned = stream.try_consume(&Token::Operator(Operator::Assignment));
    if assigned.is_some() {
        match crate::expression::consume(stream) {
            Ok(init) => Ok(Some(Statement::Declaration { var, initialisation: Some(init) })),
            Err(e) => Err(e),
        }
    } else {
        Ok(Some(Statement::Declaration { var, initialisation: None }))
    }
}

/// The `return` statement: wraps the expression after the keyword.
pub fn return_pass(stream: &mut TokenStream) -> (r: Result<Option<Statement>, Error>)
    requires
        old(stream).wf(),
    ensures
        final(stream).wf(),
        final(stream).toks() == old(stream).toks(),
        old(stream).pos() <= final(stream).pos(),
        match (&r, spec_return_pass(old(stream).toks(), old(stream).pos())) {
            (Ok(Some(s)), Ok(Some((sv, p)))) => s@ == sv && final(stream).pos() == p && old(
                stream,
            ).pos() < final(stream).pos(),
            (Ok(None), Ok(None)) => final(stream).pos() == old(stream).pos(),
            (Err(e), Err(ev)) => e@ == ev,
            _ => false,
        },
    decreases stream.toks().len() - stream.pos(), 29int,
{
    let opened = stream.try_consume(&Token::Keyword(Keyword::Return));
    if opened.is_none() {
        return Ok(None);
    }
    match crate::expression::consume(stream) {
        Ok(e) => Ok(Some(Statement::Return(e))),
        Err(e) => Err(e),
    }
}

/// Parses a statement: `let`, `var` and `return` are tried in order;
/// anything else is a bare expression statement.
pub fn consume(stream: &mut TokenStream) -> (r: Result<Statement, Error>)
    requires
        old(stream).wf(),
    ensures
        final(stream).wf(),
        final(stream).toks() == old(stream).toks(),
        old(stream).pos() <= final(stream).pos(),
        match (&r, spec_consume_statement(old(stream).toks(), old(stream).pos())) {
            (Ok(s), Ok((sv, p))) => s@ == sv && final(stream).pos() == p && old(stream).pos()
                < final(stream).pos(),
            (Err(e), Err(ev)) => e@ == ev,
            _ => false,
        },
    decreases stream.toks().len() - stream.pos(), 30int,
{
    match let_var_pass(stream) {
        Err(e) => Err(e),
        Ok(Some(s)) => Ok(s),
        Ok(None) => match var_pass(stream) {
            Err(e) => Err(e),
            Ok(Some(s)) => Ok(s),
            Ok(None) => match return_pass(stream) {
                Err(e) => Err(e),
                Ok(Some(s)) => Ok(s),
                Ok(None) => match crate::expression::consume(stream) {
                    Err(e) => Err(e),
                    Ok(e) => Ok(Statement::Expression(e)),
                },
            },
        },
    }
}

} // verus!