use vstd::prelude::*;

use crate::ast::Expression;
use crate::ast::Statement;
use crate::ast::StatementV;
use crate::ast::statements_view;
use crate::context::Error;
use crate::context::TokenStream;
use crate::grammar::spec_binary_fold;
use crate::grammar::spec_consume_atom;
use crate::grammar::spec_consume_binary;
use crate::grammar::spec_consume_expression;
use crate::grammar::spec_identifier_reference_pass;
use crate::grammar::spec_level_has;
use crate::grammar::spec_literal_pass;
use crate::grammar::spec_parenthesis_pass;
use crate::grammar::spec_scope_body;
use crate::grammar::spec_scope_pass;
use crate::grammar::spec_unary_pass;
use crate::operator::Binary;
use crate::operator::Unary;
use crate::token::Literal;
use crate::token::Operator;
use crate::token::Parenthetical;
use crate::token::Token;

verus! {

/// Whether the binary operator binds at the given precedence level.
fn level_has(level: usize, b: Binary) -> (r: bool)
    ensures
        r == spec_level_has(level as int, b),
{
    if level == 1 {
        matches!(b, Binary::Dot)
    } else if level == 2 {
        matches!(b, Binary::Multiply | Binary::Divide | Binary::Mod)
    } else if level == 3 {
        matches!(b, Binary::Add | Binary::Minus)
    } else if level == 4 {
        matches!(b, Binary::ShiftLeft | Binary::ShiftRight)
    } else if level == 5 {
        matches!(
            b,
            Binary::Less | Binary::LessOrEquals | Binary::Greater | Binary::GreaterOrEquals,
        )
    } else if level == 6 {
        matches!(b, Binary::Equals | Binary::NotEquals)
    } else if level == 7 {
        matches!(b, Binary::BitAnd)
    } else if level == 8 {
        matches!(b, Binary::BitXor)
    } else if level == 9 {
        matches!(b, Binary::BitOr)
    } else if level == 10 {
        matches!(b, Binary::And)
    } else if level == 11 {
        matches!(b, Binary::Or)
    } else if level == 12 {
        matches!(b, Binary::Assignment)
    } else {
        false
    }
}

/// The identifier-reference alternative of an atom.
pub fn identifier_reference_pass(stream: &mut TokenStream) -> (r: Result<Option<Expression>, Error>)
    requires
        old(stream).wf(),
    ensures
        final(stream).wf(),
        final(stream).toks() == old(stream).toks(),
        old(stream).pos() <= final(stream).pos(),
        match (&r, spec_identifier_reference_pass(old(stream).toks(), old(stream).pos())) {
            (Ok(Some(e)), Ok(Some((ev, p)))) => e@ == ev && final(stream).pos() == p && old(
                stream,
            ).pos() < final(stream).pos(),
            (Ok(None), Ok(None)) => final(stream).pos() == old(stream).pos(),
            (Err(e), Err(ev)) => e@ == ev,
            _ => false,
        },
{
    let is_ident = matches!(stream.curr_token(), Token::Identifier(_));
    if is_ident {
        match stream.consume_identifier() {
            Ok(i) => Ok(Some(Expression::ObjectReference(i))),
            Err(e) => Err(e),
        }
    } else {
        Ok(None)
    }
}

/// The literal alternative of an atom.
pub fn literal_pass(stream: &mut TokenStream) -> (r: Result<Option<Expression>, Error>)
    requires
        old(stream).wf(),
    ensures
        final(stream).wf(),
        final(stream).toks() == old(stream).toks(),
        old(stream).pos() <= final(stream).pos(),
        match (&r, spec_literal_pass(old(stream).toks(), old(stream).pos())) {
            (Ok(Some(e)), Ok(Some((ev, p)))) => e@ == ev && final(stream).pos() == p && old(
                stream,
            ).pos() < final(stream).pos(),
            (Ok(None), Ok(None)) => final(stream).pos() == old(stream).pos(),
            (Err(e), Err(ev)) => e@ == ev,
            _ => false,
        },
{
    let lit: Option<Literal> = match stream.curr_token() {
        Token::Literal(l) => Some(l.clone()),
        _ => None,
    };
    match lit {
        Some(l) => {
            stream.next();
            Ok(Some(Expression::Literal(l)))
        },
        None => Ok(None),
    }
}

/// The scope alternative of an atom: `{` opens an ordered statement list
/// up to the matching `}`.
pub fn scope_pass(stream: &mut TokenStream) -> (r: Result<Option<Expression>, Error>)
    requires
        old(stream).wf(),
    ensures
        final(stream).wf(),
        final(stream).toks() == old(stream).toks(),
        old(stream).pos() <= final(stream).pos(),
        match (&r, spec_scope_pass(old(stream).toks(), old(stream).pos())) {
            (Ok(Some(e)), Ok(Some((ev, p)))) => e@ == ev && final(stream).pos() == p && old(
                stream,
            ).pos() < final(stream).pos(),
            (Ok(None), Ok(None)) => final(stream).pos() == old(stream).pos(),
            (Err(e), Err(ev)) => e@ == ev,
            _ => false,
        },
    decreases stream.toks().len() - stream.pos(), 0int,
{
    let opened = stream.try_consume(&Token::Parenthetical(Parenthetical::CurlyOpen));
    match opened {
        Some(_) => {
            let acc: Vec<Statement> = Vec::new();
            proof {
                assert(statements_view(acc@) =~= Seq::<StatementV>::empty());
            }
            match scope_body_rest(stream, acc) {
                Ok(stmts) => Ok(Some(Expression::Scope(stmts))),
                Err(e) => Err(e),
            }
        },
        None => Ok(None),
    }
}

/// Parses the rest of a scope body, the statements collected so far in
/// hand: statements up to the closing `}`.
fn scope_body_rest(stream: &mut TokenStream, acc: Vec<Statement>) -> (r: Result<
    Vec<Statement>,
    Error,
>)
    requires
        old(stream).wf(),
    ensures
        final(stream).wf(),
        final(stream).toks() == old(stream).toks(),
        old(stream).pos() <= final(stream).pos(),
        match (&r, spec_scope_body(old(stream).toks(), old(stream).pos(), statements_view(acc@))) {
            (Ok(stmts), Ok((sv, p))) => statements_view(stmts@) == sv && final(stream).pos() == p,
            (Err(e), Err(ev)) => e@ == ev,
            _ => false,
        },
    decreases stream.toks().len() - stream.pos(), 31int,
{
    let mut acc = acc;
    let closed = stream.try_consume(&Token::Parenthetical(Parenthetical::CurlyClose));
    match closed {
        Some(_) => Ok(acc),
        None => match crate::statement::consume(stream) {
            Err(e) => Err(e),
            Ok(st) => {
                proof {
                    assert(statements_view(acc@.push(st)) =~= statements_view(acc@).push(st@));
                }
                acc.push(st);
                scope_body_rest(stream, acc)
            },
        },
    }
}

/// The prefix-unary alternative of an atom: the operator, then the operand
/// parsed as an atom again.
pub fn unary_pass(stream: &mut TokenStream) -> (r: Result<Option<Expression>, Error>)
    requires
        old(stream).wf(),
    ensures
        final(stream).wf(),
        final(stream).toks() == old(stream).toks(),
        old(stream).pos() <= final(stream).pos(),
        match (&r, spec_unary_pass(old(stream).toks(), old(stream).pos())) {
            (Ok(Some(e)), Ok(Some((ev, p)))) => e@ == ev && final(stream).pos() == p && old(
                stream,
            ).pos() < final(stream).pos(),
            (Ok(None), Ok(None)) => final(stream).pos() == old(stream).pos(),
            (Err(e), Err(ev)) => e@ == ev,
            _ => false,
        },
    decreases stream.toks().len() - stream.pos(), 0int,
{
    let operator = Unary::from_token(stream.curr_token());
    match operator {
        Some(operator) => {
            stream.next();
            match consume_atom(stream) {
                Ok(expr) => Ok(Some(Expression::Unary { operator, expr: Box::new(expr) })),
                Err(e) => Err(e),
            }
        },
        None => Ok(None),
    }
}

/// The parenthesis alternative of an atom: `()` is the unit literal,
/// `(expr)` the grouped expression.
pub fn parenthesis_pass(stream: &mut TokenStream) -> (r: Result<Option<Expression>, Error>)
    requires
        old(stream).wf(),
    ensures
        final(stream).wf(),
        final(stream).toks() == old(stream).toks(),
        old(stream).pos() <= final(stream).pos(),
        match (&r, spec_parenthesis_pass(old(stream).toks(), old(stream).pos())) {
            (Ok(Some(e)), Ok(Some((ev, p)))) => e@ == ev && final(stream).pos() == p && old(
                stream,
            ).pos() < final(stream).pos(),
            (Ok(None), Ok(None)) => final(stream).pos() == old(stream).pos(),
            (Err(e), Err(ev)) => e@ == ev,
            _ => false,
        },
    decreases stream.toks().len() - stream.pos(), 0int,
{
    let opened = stream.try_consume(&Token::Parenthetical(Parenthetical::NormalOpen));
    if opened.is_none() {
        return Ok(None);
    }
    let unit = stream.try_consume(&Token::Parenthetical(Parenthetical::NormalClose));
    if unit.is_some() {
        return Ok(Some(Expression::Literal(Literal::Unit)));
    }
    let expr = match consume_binary(stream, 12) {
        Ok(e) => e,
        Err(e) => {
            return Err(e);
        },
    };
    match stream.consume(&Token::Parenthetical(Parenthetical::NormalClose)) {
        Ok(_) => Ok(Some(expr)),
        Err(e) => Err(e),
    }
}

/// Parses an atom: the alternatives are tried in a fixed order —
/// identifier reference, scope, literal, prefix unary, parenthesis — and
/// the first that applies wins; where none does, the current token is an
/// `UnexpectedToken` error.
pub fn consume_atom(stream: &mut TokenStream) -> (r: Result<Expression, Error>)
    requires
        old(stream).wf(),
    ensures
        final(stream).wf(),
        final(stream).toks() == old(stream).toks(),
        old(stream).pos() <= final(stream).pos(),
        match (&r, spec_consume_atom(old(stream).toks(), old(stream).pos())) {
            (Ok(e), Ok((ev, p))) => e@ == ev && final(stream).pos() == p && old(stream).pos()
                < final(stream).pos(),
            (Err(e), Err(ev)) => e@ == ev,
            _ => false,
        },
    decreases stream.toks().len() - stream.pos(), 1int,
{
    match identifier_reference_pass(stream) {
        Err(e) => Err(e),
        Ok(Some(e)) => Ok(e),
        Ok(None) => match scope_pass(stream) {
            Err(e) => Err(e),
            Ok(Some(e)) => Ok(e),
            Ok(None) => match literal_pass(stream) {
                Err(e) => Err(e),
                Ok(Some(e)) => Ok(e),
                Ok(None) => match unary_pass(stream) {
                    Err(e) => Err(e),
                    Ok(Some(e)) => Ok(e),
                    Ok(None) => match parenthesis_pass(stream) {
                        Err(e) => Err(e),
                        Ok(Some(e)) => Ok(e),
                        Ok(None) => {
                            let given = stream.curr_token().clone();
                            Err(Error::UnexpectedToken(given))
                        },
                    },
                },
            },
        },
    }
}

/// Parses a binary expression at the given precedence level: the left
/// operand one level tighter, then operators of this level folded
/// leftward, left-associatively. Level zero bottoms out at an atom.
pub fn consume_binary(stream: &mut TokenStream, operation_level: usize) -> (r: Result<
    Expression,
    Error,
>)
    requires
        old(stream).wf(),
    ensures
        final(stream).wf(),
        final(stream).toks() == old(stream).toks(),
        old(stream).pos() <= final(stream).pos(),
        match (
            &r,
            spec_consume_binary(old(stream).toks(), old(stream).pos(), operation_level as int),
        ) {
            (Ok(e), Ok((ev, p))) => e@ == ev && final(stream).pos() == p && old(stream).pos()
                < final(stream).pos(),
            (Err(e), Err(ev)) => e@ == ev,
            _ => false,
        },
    decreases stream.toks().len() - stream.pos(), 3 + 2 * (operation_level as int),
{
    if operation_level == 0 {
        return consume_atom(stream);
    }
    let lhs = match consume_binary(stream, operation_level - 1) {
        Ok(e) => e,
        Err(e) => {
            return Err(e);
        },
    };
    fold_binary(stream, lhs, operation_level)
}

/// Folds operators of one precedence level leftward: while the current
/// token is an operator of this level, consume it, parse the right
/// operand one level tighter, and fold into the left operand.
fn fold_binary(stream: &mut TokenStream, lhs: Expression, level: usize) -> (r: Result<
    Expression,
    Error,
>)
    requires
        old(stream).wf(),
    ensures
        final(stream).wf(),
        final(stream).toks() == old(stream).toks(),
        old(stream).pos() <= final(stream).pos(),
        match (
            &r,
            spec_binary_fold(old(stream).toks(), old(stream).pos(), lhs@, level as int),
        ) {
            (Ok(e), Ok((ev, p))) => e@ == ev && final(stream).pos() == p,
            (Err(e), Err(ev)) => e@ == ev,
            _ => false,
        },
    decreases stream.toks().len() - stream.pos(), 2 + 2 * (level as int),
{
    let ob: Option<Binary> = match stream.curr_token() {
        Token::Operator(op) => Binary::from_operator(*op),
        _ => None,
    };
    let ob = match ob {
        Some(b) => if level_has(level, b) {
            Some(b)
        } else {
            None
        },
        None => None,
    };
    match ob {
        None => Ok(lhs),
        Some(operator) => {
            stream.next();
            let rhs = match consume_binary(stream, level - 1) {
                Ok(e) => e,
                Err(e) => {
                    return Err(e);
                },
            };
            let folded = Expression::Binary {
                lhs: Box::new(lhs),
                operator,
                rhs: Box::new(rhs),
            };
            fold_binary(stream, folded, level)
        },
    }
}

/// Parses a whole expression: the twelve precedence levels from the
/// loosest.
pub fn consume(stream: &mut TokenStream) -> (r: Result<Expression, Error>)
    requires
        old(stream).wf(),
    ensures
        final(stream).wf(),
        final(stream).toks() == old(stream).toks(),
        old(stream).pos() <= final(stream).pos(),
        match (&r, spec_consume_expression(old(stream).toks(), old(stream).pos())) {
            (Ok(e), Ok((ev, p))) => e@ == ev && final(stream).pos() == p && old(stream).pos()
                < final(stream).pos(),
            (Err(e), Err(ev)) => e@ == ev,
            _ => false,
        },
    decreases stream.toks().len() - stream.pos(), 28int,
{
    consume_binary(stream, 12)
}

} // verus!