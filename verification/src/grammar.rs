use vstd::prelude::*;

use crate::ast::ExpressionV;
use crate::ast::FunctionSignatureV;
use crate::ast::FunctionV;
use crate::ast::StatementV;
use crate::ast::TopLevelStatementV;
use crate::ast::TypeV;
use crate::ast::VariableV;
use crate::ast::spec_as_const;
use crate::ast::spec_type_of_name;
use crate::context::ErrorV;
use crate::context::adv;
use crate::context::cur;
use crate::lexer::spec_tokenize;
use crate::operator::Binary;
use crate::operator::Unary;
use crate::operator::spec_binary_of_operator;
use crate::operator::spec_unary_of_token;
use crate::token::Keyword;
use crate::token::Operator;
use crate::token::Parenthetical;
use crate::token::TokenV;
use crate::token::TracedTokenV;

verus! {

/// A position handed on to the rest of a parse, held inside the sequence
/// and past the position the parse started from. Wherever the stream is
/// well formed this changes nothing: a successful parse always moves
/// forward and stays inside.
pub open spec fn step_to(toks: Seq<TokenV>, lo: int, x: int) -> int {
    if x < lo {
        lo
    } else if x > toks.len() {
        toks.len() as int
    } else {
        x
    }
}

/// Whether the binary operator binds at the given precedence level; level
/// one binds tightest, level twelve loosest.
pub open spec fn spec_level_has(level: int, b: Binary) -> bool {
    if level == 1 {
        b == Binary::Dot
    } else if level == 2 {
        b == Binary::Multiply || b == Binary::Divide || b == Binary::Mod
    } else if level == 3 {
        b == Binary::Add || b == Binary::Minus
    } else if level == 4 {
        b == Binary::ShiftLeft || b == Binary::ShiftRight
    } else if level == 5 {
        b == Binary::Less || b == Binary::LessOrEquals || b == Binary::Greater || b
            == Binary::GreaterOrEquals
    } else if level == 6 {
        b == Binary::Equals || b == Binary::NotEquals
    } else if level == 7 {
        b == Binary::BitAnd
    } else if level == 8 {
        b == Binary::BitXor
    } else if level == 9 {
        b == Binary::BitOr
    } else if level == 10 {
        b == Binary::And
    } else if level == 11 {
        b == Binary::Or
    } else if level == 12 {
        b == Binary::Assignment
    } else {
        false
    }
}

/// The binary operator the current token stands for at the given level,
/// if any.
pub open spec fn spec_level_op(toks: Seq<TokenV>, pos: int, level: int) -> Option<Binary> {
    match cur(toks, pos) {
        TokenV::Operator(op) => match spec_binary_of_operator(op) {
            Some(b) => if spec_level_has(level, b) {
                Some(b)
            } else {
                None
            },
            None => None,
        },
        _ => None,
    }
}

/// The type grammar: `const` and `*` wrap the type after them; `[` opens
/// a fixed-size array `[T; n]`; an identifier names a base type, followed
/// by an optional angle-bracketed template argument list. Anything else is
/// an `UnexpectedToken` error.
pub open spec fn spec_consume_type(toks: Seq<TokenV>, pos: int) -> Result<(TypeV, int), ErrorV>
    decreases toks.len() - pos, 1int,
{
    match cur(toks, pos) {
        TokenV::Keyword(Keyword::Const) => match spec_consume_type(toks, pos + 1) {
            Ok((ty, p)) => Ok((spec_as_const(ty), step_to(toks, pos + 1, p))),
            Err(e) => Err(e),
        },
        TokenV::Operator(Operator::Star) => match spec_consume_type(toks, pos + 1) {
            Ok((ty, p)) => Ok((TypeV::Pointer(Box::new(ty)), step_to(toks, pos + 1, p))),
            Err(e) => Err(e),
        },
        TokenV::Parenthetical(Parenthetical::BracketOpen) => match spec_consume_type(
            toks,
            pos + 1,
        ) {
            Err(e) => Err(e),
            Ok((ty, praw)) => {
                let p = step_to(toks, pos + 1, praw);
                let p1 = if cur(toks, p) == TokenV::Operator(Operator::SemiColon) {
                    step_to(toks, pos + 1, adv(toks, p))
                } else {
                    p
                };
                match cur(toks, p1) {
                    TokenV::Literal(crate::token::LiteralV::Integer(size)) => {
                        let p2 = step_to(toks, pos + 1, adv(toks, p1));
                        if size < 0 || size > usize::MAX as int {
                            Err(ErrorV::InvalidArraySize(size))
                        } else {
                            match cur(toks, p2) {
                                TokenV::Parenthetical(Parenthetical::BracketClose) => Ok(
                                    (
                                        TypeV::Array { ty: Box::new(ty), length: size },
                                        step_to(toks, pos + 1, adv(toks, p2)),
                                    ),
                                ),
                                given => Err(
                                    ErrorV::ExpectedToken {
                                        expected: TokenV::Parenthetical(
                                            Parenthetical::BracketClose,
                                        ),
                                        given,
                                    },
                                ),
                            }
                        }
                    },
                    given => Err(
                        ErrorV::ExpectedToken {
                            expected: TokenV::Literal(crate::token::LiteralV::Integer(0)),
                            given,
                        },
                    ),
                }
            },
        },
        TokenV::Identifier(name) => {
            let base = spec_type_of_name(name);
            match base {
                TypeV::Custom { name, template_args: _ } => {
                    let p = pos + 1;
                    if cur(toks, p) == TokenV::Operator(Operator::Less) {
                        match spec_template_args(toks, step_to(toks, pos + 1, adv(toks, p)), Seq::empty()) {
                            Err(e) => Err(e),
                            Ok((args, p2)) => Ok(
                                (
                                    TypeV::Custom { name, template_args: args },
                                    step_to(toks, pos + 1, p2),
                                ),
                            ),
                        }
                    } else {
                        Ok((TypeV::Custom { name, template_args: Seq::empty() }, p))
                    }
                },
                _ => Ok((base, pos + 1)),
            }
        },
        tok => Err(ErrorV::UnexpectedToken(tok)),
    }
}

/// The template argument list after `<`: comma-separated types up to the
/// closing `>`. The list ends at the first argument not followed by a
/// comma; the closing `>` is then required.
pub open spec fn spec_template_args(toks: Seq<TokenV>, pos: int, acc: Seq<TypeV>) -> Result<
    (Seq<TypeV>, int),
    ErrorV,
>
    decreases toks.len() - pos, 2int,
{
    if pos < 0 || pos >= toks.len() {
        Err(ErrorV::UnexpectedToken(TokenV::EndOfInput))
    } else if cur(toks, pos) == TokenV::Operator(Operator::Greater) {
        Ok((acc, adv(toks, pos)))
    } else {
        match spec_consume_type(toks, pos) {
            Err(e) => Err(e),
            Ok((ty, praw)) => {
                let p = step_to(toks, pos + 1, praw);
                if cur(toks, p) == TokenV::Operator(Operator::Comma) {
                    spec_template_args(toks, step_to(toks, pos + 1, adv(toks, p)), acc.push(ty))
                } else {
                    match cur(toks, p) {
                        TokenV::Operator(Operator::Greater) => Ok((acc.push(ty), adv(toks, p))),
                        given => Err(
                            ErrorV::ExpectedToken {
                                expected: TokenV::Operator(Operator::Greater),
                                given,
                            },
                        ),
                    }
                }
            },
        }
    }
}

/// A `name: type` pair, as a parameter list or a declaration binds one.
pub open spec fn spec_consume_variable(toks: Seq<TokenV>, pos: int) -> Result<
    (VariableV, int),
    ErrorV,
>
    decreases toks.len() - pos, 3int,
{
    match cur(toks, pos) {
        TokenV::Identifier(name) => {
            let p1 = pos + 1;
            match cur(toks, p1) {
                TokenV::Operator(Operator::Colon) => {
                    match spec_consume_type(toks, step_to(toks, pos + 1, adv(toks, p1))) {
                        Err(e) => Err(e),
                        Ok((ty, p2)) => Ok(
                            (
                                VariableV { ident: name, type_id: ty },
                                step_to(toks, pos + 1, p2),
                            ),
                        ),
                    }
                },
                given => Err(
                    ErrorV::ExpectedToken { expected: TokenV::Operator(Operator::Colon), given },
                ),
            }
        },
        given => Err(
            ErrorV::ExpectedToken { expected: TokenV::Identifier(Seq::empty()), given },
        ),
    }
}

/// The identifier-reference alternative of an atom: a lone identifier
/// reads the object it names.
pub open spec fn spec_identifier_reference_pass(toks: Seq<TokenV>, pos: int) -> Result<
    Option<(ExpressionV, int)>,
    ErrorV,
> {
    match cur(toks, pos) {
        TokenV::Identifier(name) => Ok(Some((ExpressionV::ObjectReference(name), pos + 1))),
        _ => Ok(None),
    }
}

/// The literal alternative of an atom.
pub open spec fn spec_literal_pass(toks: Seq<TokenV>, pos: int) -> Result<
    Option<(ExpressionV, int)>,
    ErrorV,
> {
    match cur(toks, pos) {
        TokenV::Literal(lit) => Ok(Some((ExpressionV::Literal(lit), pos + 1))),
        _ => Ok(None),
    }
}

/// The scope alternative of an atom: `{` opens an ordered list of
/// statements up to the matching `}`.
pub open spec fn spec_scope_pass(toks: Seq<TokenV>, pos: int) -> Result<
    Option<(ExpressionV, int)>,
    ErrorV,
>
    decreases toks.len() - pos, 0int,
{
    if cur(toks, pos) == TokenV::Parenthetical(Parenthetical::CurlyOpen) {
        match spec_scope_body(toks, step_to(toks, pos + 1, adv(toks, pos)), Seq::empty()) {
            Err(e) => Err(e),
            Ok((stmts, p)) => Ok(Some((ExpressionV::Scope(stmts), p))),
        }
    } else {
        Ok(None)
    }
}

/// The prefix-unary alternative of an atom: the operator token, then the
/// operand parsed as an atom again, so prefixes chain right-recursively.
pub open spec fn spec_unary_pass(toks: Seq<TokenV>, pos: int) -> Result<
    Option<(ExpressionV, int)>,
    ErrorV,
>
    decreases toks.len() - pos, 0int,
{
    match spec_unary_of_token(cur(toks, pos)) {
        Some(operator) => match spec_consume_atom(toks, step_to(toks, pos + 1, adv(toks, pos))) {
            Err(e) => Err(e),
            Ok((expr, p)) => Ok(
                Some((ExpressionV::Unary { operator, expr: Box::new(expr) }, p)),
            ),
        },
        None => Ok(None),
    }
}

/// The parenthesis alternative of an atom: `()` is the unit literal;
/// `(expr)` is the grouped expression, with no standalone tuple form.
pub open spec fn spec_parenthesis_pass(toks: Seq<TokenV>, pos: int) -> Result<
    Option<(ExpressionV, int)>,
    ErrorV,
>
    decreases toks.len() - pos, 0int,
{
    if cur(toks, pos) == TokenV::Parenthetical(Parenthetical::NormalOpen) {
        let p1 = step_to(toks, pos + 1, adv(toks, pos));
        if cur(toks, p1) == TokenV::Parenthetical(Parenthetical::NormalClose) {
            Ok(
                Some(
                    (
                        ExpressionV::Literal(crate::token::LiteralV::Unit),
                        step_to(toks, pos + 1, adv(toks, p1)),
                    ),
                ),
            )
        } else {
            match spec_consume_binary(toks, p1, 12) {
                Err(e) => Err(e),
                Ok((expr, praw)) => {
                    let p2 = step_to(toks, pos + 1, praw);
                    match cur(toks, p2) {
                        TokenV::Parenthetical(Parenthetical::NormalClose) => Ok(
                            Some((expr, step_to(toks, pos + 1, adv(toks, p2)))),
                        ),
                        given => Err(
                            ErrorV::ExpectedToken {
                                expected: TokenV::Parenthetical(Parenthetical::NormalClose),
                                given,
                            },
                        ),
                    }
                },
            }
        }
    } else {
        Ok(None)
    }
}

/// An atom: the alternatives are tried in a fixed order — identifier
/// reference, scope, literal, prefix unary, parenthesis — and the first
/// that applies wins; where none does, the token is an `UnexpectedToken`
/// error.
pub open spec fn spec_consume_atom(toks: Seq<TokenV>, pos: int) -> Result<(ExpressionV, int), ErrorV>
    decreases toks.len() - pos, 1int,
{
    match spec_identifier_reference_pass(toks, pos) {
        Err(e) => Err(e),
        Ok(Some(r)) => Ok(r),
        Ok(None) => match spec_scope_pass(toks, pos) {
            Err(e) => Err(e),
            Ok(Some(r)) => Ok(r),
            Ok(None) => match spec_literal_pass(toks, pos) {
                Err(e) => Err(e),
                Ok(Some(r)) => Ok(r),
                Ok(None) => match spec_unary_pass(toks, pos) {
                    Err(e) => Err(e),
                    Ok(Some(r)) => Ok(r),
                    Ok(None) => match spec_parenthesis_pass(toks, pos) {
                        Err(e) => Err(e),
                        Ok(Some(r)) => Ok(r),
                        Ok(None) => Err(ErrorV::UnexpectedToken(cur(toks, pos))),
                    },
                },
            },
        },
    }
}

/// The left-associative fold of one precedence level: while the current
/// token is an operator of this level, it is consumed, the right operand
/// is parsed one level tighter, and the result becomes the new left
/// operand.
pub open spec fn spec_binary_fold(
    toks: Seq<TokenV>,
    pos: int,
    lhs: ExpressionV,
    level: int,
) -> Result<(ExpressionV, int), ErrorV>
    decreases toks.len() - pos, 2 + 2 * (if level < 0 { 0 } else { level }),
{
    match spec_level_op(toks, pos, level) {
        Some(operator) => {
            let p1 = step_to(toks, pos + 1, adv(toks, pos));
            match spec_consume_binary(toks, p1, level - 1) {
                Err(e) => Err(e),
                Ok((rhs, p2raw)) => {
                    let p2 = step_to(toks, pos + 1, p2raw);
                    spec_binary_fold(
                        toks,
                        p2,
                        ExpressionV::Binary {
                            lhs: Box::new(lhs),
                            operator,
                            rhs: Box::new(rhs),
                        },
                        level,
                    )
                },
            }
        },
        None => Ok((lhs, pos)),
    }
}

/// The expression grammar at one precedence level: the left operand is
/// parsed one level tighter, then operators of this level fold leftward;
/// level zero bottoms out at an atom.
pub open spec fn spec_consume_binary(toks: Seq<TokenV>, pos: int, level: int) -> Result<
    (ExpressionV, int),
    ErrorV,
>
    decreases toks.len() - pos, 3 + 2 * (if level < 0 { 0 } else { level }),
{
    if level <= 0 {
        spec_consume_atom(toks, pos)
    } else if pos < 0 || pos >= toks.len() {
        Err(ErrorV::UnexpectedToken(TokenV::EndOfInput))
    } else {
        match spec_consume_binary(toks, pos, level - 1) {
            Err(e) => Err(e),
            Ok((lhs, p1raw)) => spec_binary_fold(toks, step_to(toks, pos + 1, p1raw), lhs, level),
        }
    }
}

/// A whole expression: the twelve precedence levels from the loosest.
pub open spec fn spec_consume_expression(toks: Seq<TokenV>, pos: int) -> Result<
    (ExpressionV, int),
    ErrorV,
>
    decreases toks.len() - pos, 28int,
{
    spec_consume_binary(toks, pos, 12)
}

/// The `let` statement: binds a variable whose type is const-qualified
/// whatever the annotation says, with a required initializer.
pub open spec fn spec_let_var_pass(toks: Seq<TokenV>, pos: int) -> Result<
    Option<(StatementV, int)>,
    ErrorV,
>
    decreases toks.len() - pos, 29int,
{
    if cur(toks, pos) == TokenV::Keyword(Keyword::Let) {
        match spec_consume_variable(toks, step_to(toks, pos + 1, adv(toks, pos))) {
            Err(e) => Err(e),
            Ok((var, p1raw)) => {
                let p1 = step_to(toks, pos + 1, p1raw);
                let cvar = VariableV { ident: var.ident, type_id: spec_as_const(var.type_id) };
                match cur(toks, p1) {
                    TokenV::Operator(Operator::Assignment) => {
                        match spec_consume_expression(toks, step_to(toks, pos + 1, adv(toks, p1))) {
                            Err(e) => Err(e),
                            Ok((init, p2)) => Ok(
                                Some(
                                    (
                                        StatementV::Declaration {
                                            var: cvar,
                                            initialisation: Some(init),
                                        },
                                        step_to(toks, pos + 1, p2),
                                    ),
                                ),
                            ),
                        }
                    },
                    given => Err(
                        ErrorV::ExpectedToken {
                            expected: TokenV::Operator(Operator::Assignment),
                            given,
                        },
                    ),
                }
            },
        }
    } else {
        Ok(None)
    }
}

/// The `var` statement: binds a variable with an optional initializer.
pub open spec fn spec_var_pass(toks: Seq<TokenV>, pos: int) -> Result<
    Option<(StatementV, int)>,
    ErrorV,
>
    decreases toks.len() - pos, 29int,
{
    if cur(toks, pos) == TokenV::Keyword(Keyword::Var) {
        match spec_consume_variable(toks, step_to(toks, pos + 1, adv(toks, pos))) {
            Err(e) => Err(e),
            Ok((var, p1raw)) => {
                let p1 = step_to(toks, pos + 1, p1raw);
                if cur(toks, p1) == TokenV::Operator(Operator::Assignment) {
                    match spec_consume_expression(toks, step_to(toks, pos + 1, adv(toks, p1))) {
                        Err(e) => Err(e),
                        Ok((init, p2)) => Ok(
                            Some(
                                (
                                    StatementV::Declaration { var, initialisation: Some(init) },
                                    step_to(toks, pos + 1, p2),
                                ),
                            ),
                        ),
                    }
                } else {
                    Ok(Some((StatementV::Declaration { var, initialisation: None }, p1)))
                }
            },
        }
    } else {
        Ok(None)
    }
}

/// The `return` statement: wraps the expression after the keyword.
pub open spec fn spec_return_pass(toks: Seq<TokenV>, pos: int) -> Result<
    Option<(StatementV, int)>,
    ErrorV,
>
    decreases toks.len() - pos, 29int,
{
    if cur(toks, pos) == TokenV::Keyword(Keyword::Return) {
        match spec_consume_expression(toks, step_to(toks, pos + 1, adv(toks, pos))) {
            Err(e) => Err(e),
            Ok((expr, p)) => Ok(Some((StatementV::Return(expr), step_to(toks, pos + 1, p)))),
        }
    } else {
        Ok(None)
    }
}

/// A statement: `let`, `var` and `return` are tried in order; anything
/// else is a bare expression statement.
pub open spec fn spec_consume_statement(toks: Seq<TokenV>, pos: int) -> Result<
    (StatementV, int),
    ErrorV,
>
    decreases toks.len() - pos, 30int,
{
    match spec_let_var_pass(toks, pos) {
        Err(e) => Err(e),
        Ok(Some(r)) => Ok(r),
        Ok(None) => match spec_var_pass(toks, pos) {
            Err(e) => Err(e),
            Ok(Some(r)) => Ok(r),
            Ok(None) => match spec_return_pass(toks, pos) {
                Err(e) => Err(e),
                Ok(Some(r)) => Ok(r),
                Ok(None) => match spec_consume_expression(toks, pos) {
                    Err(e) => Err(e),
                    Ok((expr, p)) => Ok((StatementV::Expression(expr), p)),
                },
            },
        },
    }
}

/// The body of a scope: statements up to the closing `}`.
pub open spec fn spec_scope_body(toks: Seq<TokenV>, pos: int, acc: Seq<StatementV>) -> Result<
    (Seq<StatementV>, int),
    ErrorV,
>
    decreases toks.len() - pos, 31int,
{
    if pos < 0 || pos >= toks.len() {
        Err(ErrorV::UnexpectedToken(TokenV::EndOfInput))
    } else if cur(toks, pos) == TokenV::Parenthetical(Parenthetical::CurlyClose) {
        Ok((acc, adv(toks, pos)))
    } else {
        match spec_consume_statement(toks, pos) {
            Err(e) => Err(e),
            Ok((st, praw)) => spec_scope_body(
                toks,
                step_to(toks, pos + 1, praw),
                acc.push(st),
            ),
        }
    }
}

/// The parameter list of a function, up to but not including the closing
/// `)`: `name: type` pairs, each followed by a comma except the last.
pub open spec fn spec_params(toks: Seq<TokenV>, pos: int, acc: Seq<VariableV>) -> Result<
    (Seq<VariableV>, int),
    ErrorV,
>
    decreases toks.len() - pos, 4int,
{
    if pos < 0 || pos >= toks.len() {
        Err(
            ErrorV::ExpectedToken {
                expected: TokenV::Identifier(Seq::empty()),
                given: TokenV::EndOfInput,
            },
        )
    } else if cur(toks, pos) == TokenV::Parenthetical(Parenthetical::NormalClose) {
        Ok((acc, pos))
    } else {
        match spec_consume_variable(toks, pos) {
            Err(e) => Err(e),
            Ok((var, praw)) => {
                let p = step_to(toks, pos + 1, praw);
                if cur(toks, p) == TokenV::Operator(Operator::Comma) {
                    spec_params(toks, step_to(toks, pos + 1, adv(toks, p)), acc.push(var))
                } else {
                    Ok((acc.push(var), p))
                }
            },
        }
    }
}

/// The one top-level form: `function name(params) [-> type] body`, where
/// the body is either a brace-delimited scope or `=>` and one expression,
/// and a missing `->` defaults the return type to unit. Yields nothing
/// where the current token is not the `function` keyword.
pub open spec fn spec_function_pass(toks: Seq<TokenV>, pos: int) -> Result<
    Option<(TopLevelStatementV, int)>,
    ErrorV,
>
    decreases toks.len() - pos, 0int,
{
    if cur(toks, pos) != TokenV::Keyword(Keyword::Function) {
        Ok(None)
    } else {
        let p1 = step_to(toks, pos + 1, adv(toks, pos));
        match cur(toks, p1) {
            TokenV::Identifier(name) => {
                let p2 = step_to(toks, pos + 1, adv(toks, p1));
                match cur(toks, p2) {
                    TokenV::Parenthetical(Parenthetical::NormalOpen) => {
                        let p3 = step_to(toks, pos + 1, adv(toks, p2));
                        match spec_params(toks, p3, Seq::empty()) {
                            Err(e) => Err(e),
                            Ok((args, p4raw)) => {
                                let p4 = step_to(toks, pos + 1, p4raw);
                                match cur(toks, p4) {
                                    TokenV::Parenthetical(Parenthetical::NormalClose) => {
                                        let p5 = step_to(toks, pos + 1, adv(toks, p4));
                                        let rr = if cur(toks, p5) == TokenV::Operator(
                                            Operator::ThinArrow,
                                        ) {
                                            match spec_consume_type(
                                                toks,
                                                step_to(toks, pos + 1, adv(toks, p5)),
                                            ) {
                                                Err(e) => Err(e),
                                                Ok((ty, p6)) => Ok(
                                                    (ty, step_to(toks, pos + 1, p6)),
                                                ),
                                            }
                                        } else {
                                            Ok((TypeV::Unit, p5))
                                        };
                                        match rr {
                                            Err(e) => Err(e),
                                            Ok((ret, p6)) => {
                                                let signature = FunctionSignatureV {
                                                    args,
                                                    returns: ret,
                                                };
                                                match spec_scope_pass(toks, p6) {
                                                    Err(e) => Err(e),
                                                    Ok(Some((body, p7))) => Ok(
                                                        Some(
                                                            (
                                                                TopLevelStatementV::Function {
                                                                    ident: name,
                                                                    function: FunctionV {
                                                                        signature,
                                                                        body: Box::new(body),
                                                                    },
                                                                },
                                                                step_to(toks, pos + 1, p7),
                                                            ),
                                                        ),
                                                    ),
                                                    Ok(None) => {
                                                        match cur(toks, p6) {
                                                            TokenV::Operator(Operator::Arrow) => {
                                                                match spec_consume_expression(
                                                                    toks,
                                                                    step_to(
                                                                        toks,
                                                                        pos + 1,
                                                                        adv(toks, p6),
                                                                    ),
                                                                ) {
                                                                    Err(e) => Err(e),
                                                                    Ok((body, p7)) => Ok(
                                                                        Some(
                                                                            (
                                                                                TopLevelStatementV::Function {
                                                                                    ident: name,
                                                                                    function: FunctionV {
                                                                                        signature,
                                                                                        body: Box::new(body),
                                                                                    },
                                                                                },
                                                                                step_to(toks, pos + 1, p7),
                                                                            ),
                                                                        ),
                                                                    ),
                                                                }
                                                            },
                                                            given => Err(
                                                                ErrorV::ExpectedToken {
                                                                    expected: TokenV::Operator(
                                                                        Operator::Arrow,
                                                                    ),
                                                                    given,
                                                                },
                                                            ),
                                                        }
                                                    },
                                                }
                                            },
                                        }
                                    },
                                    given => Err(
                                        ErrorV::ExpectedToken {
                                            expected: TokenV::Parenthetical(
                                                Parenthetical::NormalClose,
                                            ),
                                            given,
                                        },
                                    ),
                                }
                            },
                        }
                    },
                    given => Err(
                        ErrorV::ExpectedToken {
                            expected: TokenV::Parenthetical(Parenthetical::NormalOpen),
                            given,
                        },
                    ),
                }
            },
            given => Err(
                ErrorV::ExpectedToken { expected: TokenV::Identifier(Seq::empty()), given },
            ),
        }
    }
}

/// The whole program: top-level statements until the end of the input;
/// any token the top-level form cannot start with is a fatal
/// `UnexpectedToken` error.
pub open spec fn spec_parse_program(toks: Seq<TokenV>, pos: int, acc: Seq<TopLevelStatementV>) -> Result<
    Seq<TopLevelStatementV>,
    ErrorV,
>
    decreases toks.len() - pos, 40int,
{
    if pos < 0 || pos >= toks.len() {
        Ok(acc)
    } else {
    match spec_function_pass(toks, pos) {
        Err(e) => Err(e),
        Ok(Some((st, praw))) => spec_parse_program(
            toks,
            step_to(toks, pos + 1, praw),
            acc.push(st),
        ),
        Ok(None) => if cur(toks, pos) == TokenV::EndOfInput {
            Ok(acc)
        } else {
            Err(ErrorV::UnexpectedToken(cur(toks, pos)))
        },
    }
    }
}

/// The token sequence a traced token sequence hands the parser: the bare
/// tokens with the end-of-input sentinel appended.
pub open spec fn spec_token_stream(traced: Seq<TracedTokenV>) -> Seq<TokenV> {
    Seq::new(traced.len(), |i: int| traced[i].token).push(TokenV::EndOfInput)
}

/// What parsing source text yields: the top-level statements of the
/// program, or the first error — the lexer's own, carried through, or the
/// parser's.
pub open spec fn spec_parse(s: Seq<char>) -> Result<Seq<TopLevelStatementV>, ErrorV> {
    match spec_tokenize(s) {
        Err(le) => Err(ErrorV::Lexer(le)),
        Ok(traced) => spec_parse_program(spec_token_stream(traced), 0, Seq::empty()),
    }
}

/// What parsing source text as a single type expression yields; what the
/// type stood before in the text is left to the caller.
pub open spec fn spec_parse_type(s: Seq<char>) -> Result<TypeV, ErrorV> {
    match spec_tokenize(s) {
        Err(le) => Err(ErrorV::Lexer(le)),
        Ok(traced) => match spec_consume_type(spec_token_stream(traced), 0) {
            Err(e) => Err(e),
            Ok((ty, _)) => Ok(ty),
        },
    }
}

} // verus!