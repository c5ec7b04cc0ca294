use vstd::prelude::*;

use crate::ast::Type;
use crate::ast::TypeV;
use crate::ast::Variable;
use crate::ast::types_view;
use crate::context::Error;
use crate::context::TokenStream;
use crate::grammar::spec_consume_type;
use crate::grammar::spec_consume_variable;
use crate::grammar::spec_template_args;
use crate::token::Keyword;
use crate::token::Literal;
use crate::token::Operator;
use crate::token::Parenthetical;
use crate::token::Token;

verus! {

/// Parses a type expression: `const` and `*` wrap the type after them,
/// `[T; n]` is a fixed-size array, and an identifier names a base type
/// with an optional template argument list.
pub fn consume_type(ctx: &mut TokenStream) -> (r: Result<Type, Error>)
    requires
        old(ctx).wf(),
    ensures
        final(ctx).wf(),
        final(ctx).toks() == old(ctx).toks(),
        old(ctx).pos() <= final(ctx).pos(),
        match (&r, spec_consume_type(old(ctx).toks(), old(ctx).pos())) {
            (Ok(t), Ok((tv, p))) => t@ == tv && final(ctx).pos() == p && old(ctx).pos()
                < final(ctx).pos(),
            (Err(e), Err(ev)) => e@ == ev,
            _ => false,
        },
    decreases ctx.toks().len() - ctx.pos(), 1int,
{
    let ghost toks = old(ctx).toks();
    let ghost pos0 = old(ctx).pos();
    match ctx.take_curr() {
        Token::Keyword(Keyword::Const) => match consume_type(ctx) {
            Ok(t) => Ok(t.as_const()),
            Err(e) => Err(e),
        },
        Token::Operator(Operator::Star) => match consume_type(ctx) {
            Ok(t) => Ok(Type::Pointer(Box::new(t))),
            Err(e) => Err(e),
        },
        Token::Parenthetical(Parenthetical::BracketOpen) => {
            let ty = match consume_type(ctx) {
                Ok(t) => t,
                Err(e) => {
                    return Err(e);
                },
            };
            let _ = ctx.try_consume(&Token::Operator(Operator::SemiColon));
            match ctx.take_curr() {
                Token::Literal(Literal::Integer(size)) => {
                    if size < 0 || (size as u128) > (usize::MAX as u128) {
                        Err(Error::InvalidArraySize(size))
                    } else {
                        let length = size as usize;
                        match ctx.consume(&Token::Parenthetical(Parenthetical::BracketClose)) {
                            Ok(_) => Ok(Type::Array { ty: Box::new(ty), length }),
                            Err(e) => Err(e),
                        }
                    }
                },
                given => Err(
                    Error::ExpectedToken { expected: Token::Literal(Literal::Integer(0)), given },
                ),
            }
        },
        Token::Identifier(ident) => {
            let base = Type::from_name(ident);
            match base {
                Type::Custom { name, template_args: _ } => {
                    if ctx.is_curr(&Token::Operator(Operator::Less)) {
                        ctx.next();
                        let args0: Vec<Type> = Vec::new();
                        proof {
                            assert(types_view(args0@) =~= Seq::<TypeV>::empty());
                        }
                        match template_args_rest(ctx, args0) {
                            Ok(args) => Ok(Type::Custom { name, template_args: args }),
                            Err(e) => Err(e),
                        }
                    } else {
                        let r = Type::Custom { name, template_args: Vec::new() };
                        proof {
                            assert(types_view(Seq::<Type>::empty()) =~= Seq::<TypeV>::empty());
                        }
                        Ok(r)
                    }
                },
                base => Ok(base),
            }
        },
        tok => Err(Error::UnexpectedToken(tok)),
    }
}

/// Parses the rest of a template argument list, the arguments collected so
/// far in hand: comma-separated types up to the required closing `>`.
fn template_args_rest(ctx: &mut TokenStream, acc: Vec<Type>) -> (r: Result<Vec<Type>, Error>)
    requires
        old(ctx).wf(),
    ensures
        final(ctx).wf(),
        final(ctx).toks() == old(ctx).toks(),
        old(ctx).pos() <= final(ctx).pos(),
        match (&r, spec_template_args(old(ctx).toks(), old(ctx).pos(), types_view(acc@))) {
            (Ok(args), Ok((av, p))) => types_view(args@) == av && final(ctx).pos() == p,
            (Err(e), Err(ev)) => e@ == ev,
            _ => false,
        },
    decreases ctx.toks().len() - ctx.pos(), 2int,
{
    let ghost toks = old(ctx).toks();
    let ghost pos0 = old(ctx).pos();
    let mut acc = acc;
    if ctx.is_curr(&Token::Operator(Operator::Greater)) {
        ctx.next();
        Ok(acc)
    } else {
        match consume_type(ctx) {
            Err(e) => Err(e),
            Ok(ty) => {
                if ctx.is_curr(&Token::Operator(Operator::Comma)) {
                    ctx.next();
                    proof {
                        assert(types_view(acc@.push(ty)) =~= types_view(acc@).push(ty@));
                    }
                    acc.push(ty);
                    template_args_rest(ctx, acc)
                } else {
                    match ctx.curr_token() {
                        Token::Operator(Operator::Greater) => {
                            proof {
                                assert(types_view(acc@.push(ty)) =~= types_view(acc@).push(ty@));
                            }
                            acc.push(ty);
                            ctx.next();
                            Ok(acc)
                        },
                        _ => {
                            let given = ctx.curr_token().clone();
                            Err(
                                Error::ExpectedToken {
                                    expected: Token::Operator(Operator::Greater),
                                    given,
                                },
                            )
                        },
                    }
                }
            },
        }
    }
}

/// Parses a `name: type` pair.
pub fn consume_variable(ctx: &mut TokenStream) -> (r: Result<Variable, Error>)
    requires
        old(ctx).wf(),
    ensures
        final(ctx).wf(),
        final(ctx).toks() == old(ctx).toks(),
        old(ctx).pos() <= final(ctx).pos(),
        match (&r, spec_consume_variable(old(ctx).toks(), old(ctx).pos())) {
            (Ok(v), Ok((vv, p))) => v@ == vv && final(ctx).pos() == p && old(ctx).pos()
                < final(ctx).pos(),
            (Err(e), Err(ev)) => e@ == ev,
            _ => false,
        },
{
    let ident = match ctx.consume_identifier() {
        Ok(i) => i,
        Err(e) => {
            return Err(e);
        },
    };
    match ctx.consume(&Token::Operator(Operator::Colon)) {
        Ok(_) => {},
        Err(e) => {
            return Err(e);
        },
    }
    match consume_type(ctx) {
        Ok(ty) => Ok(Variable { ident, type_id: ty }),
        Err(e) => Err(e),
    }
}

} // verus!