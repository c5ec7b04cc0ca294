use vstd::prelude::*;

use crate::token::Operator;
use crate::token::Token;

verus! {

/// A binary expression operator.
#[derive(Debug, Copy, Clone, Eq, PartialEq, Hash, Structural)]
pub enum Binary {
    Add,
    Minus,
    Multiply,
    Divide,
    Mod,
    Equals,
    NotEquals,
    Greater,
    GreaterOrEquals,
    Less,
    LessOrEquals,
    Assignment,
    ShiftLeft,
    ShiftRight,
    BitAnd,
    BitOr,
    BitXor,
    And,
    Or,
    Dot,
}

/// A unary (prefix) expression operator.
#[derive(Debug, Copy, Clone, Eq, PartialEq, Hash, Structural)]
pub enum Unary {
    Negate,
    Not,
    Reference,
    Dereference,
}

/// The binary operator an operator token stands for, if any.
pub open spec fn spec_binary_of_operator(value: Operator) -> Option<Binary> {
    match value {
        Operator::Add => Some(Binary::Add),
        Operator::Minus => Some(Binary::Minus),
        Operator::Star => Some(Binary::Multiply),
        Operator::Divide => Some(Binary::Divide),
        Operator::Mod => Some(Binary::Mod),
        Operator::Dot => Some(Binary::Dot),
        Operator::Equals => Some(Binary::Equals),
        Operator::Greater => Some(Binary::Greater),
        Operator::GreaterOrEquals => Some(Binary::GreaterOrEquals),
        Operator::Less => Some(Binary::Less),
        Operator::LessOrEquals => Some(Binary::LessOrEquals),
        Operator::Assignment => Some(Binary::Assignment),
        Operator::ShiftLeft => Some(Binary::ShiftLeft),
        Operator::ShiftRight => Some(Binary::ShiftRight),
        Operator::And => Some(Binary::And),
        Operator::Or => Some(Binary::Or),
        Operator::Xor => Some(Binary::BitXor),
        Operator::NotEquals => Some(Binary::NotEquals),
        _ => None,
    }
}

/// The unary operator an operator token stands for, if any.
pub open spec fn spec_unary_of_operator(value: Operator) -> Option<Unary> {
    match value {
        Operator::Minus => Some(Unary::Negate),
        Operator::Not => Some(Unary::Not),
        Operator::Reference => Some(Unary::Reference),
        Operator::Star => Some(Unary::Dereference),
        _ => None,
    }
}

/// The unary operator a token stands for, if any.
pub open spec fn spec_unary_of_token(value: crate::token::TokenV) -> Option<Unary> {
    match value {
        crate::token::TokenV::Operator(op) => spec_unary_of_operator(op),
        _ => None,
    }
}

impl Binary {
    /// The binary operator an operator token stands for, if any.
    pub fn from_operator(value: Operator) -> (r: Option<Binary>)
        ensures
            r == spec_binary_of_operator(value),
    {
        match value {
            Operator::Add => Some(Binary::Add),
            Operator::Minus => Some(Binary::Minus),
            Operator::Star => Some(Binary::Multiply),
            Operator::Divide => Some(Binary::Divide),
            Operator::Mod => Some(Binary::Mod),
            Operator::Dot => Some(Binary::Dot),
            Operator::Equals => Some(Binary::Equals),
            Operator::Greater => Some(Binary::Greater),
            Operator::GreaterOrEquals => Some(Binary::GreaterOrEquals),
            Operator::Less => Some(Binary::Less),
            Operator::LessOrEquals => Some(Binary::LessOrEquals),
            Operator::Assignment => Some(Binary::Assignment),
            Operator::ShiftLeft => Some(Binary::ShiftLeft),
            Operator::ShiftRight => Some(Binary::ShiftRight),
            Operator::And => Some(Binary::And),
            Operator::Or => Some(Binary::Or),
            Operator::Xor => Some(Binary::BitXor),
            Operator::NotEquals => Some(Binary::NotEquals),
            _ => None,
        }
    }
}

impl Unary {
    /// The unary operator an operator token stands for, if any.
    pub fn from_operator(value: Operator) -> (r: Option<Unary>)
        ensures
            r == spec_unary_of_operator(value),
    {
        match value {
            Operator::Minus => Some(Unary::Negate),
            Operator::Not => Some(Unary::Not),
            Operator::Reference => Some(Unary::Reference),
            Operator::Star => Some(Unary::Dereference),
            _ => None,
        }
    }

    /// The unary operator a token stands for, if any.
    pub fn from_token(value: &Token) -> (r: Option<Unary>)
        ensures
            r == spec_unary_of_token(value@),
    {
        match value {
            Token::Operator(op) => Unary::from_operator(*op),
            _ => None,
        }
    }
}

} // verus!
