//! The punctuation vocabulary: operators and structural delimiters.
use vstd::prelude::*;

use crate::lexer::op::{BinOp, CompOp, LogOp, NumOp};

verus! {

#[derive(Clone, Debug, Eq, Hash, PartialEq, Copy, Structural)]
pub enum Punctuator {
    Assign,
    Add,
    Sub,
    Mul,
    Div,
    LessThan,
    LessThanOrEq,
    GreaterThan,
    GreaterThanOrEq,
    Eq,
    NotEq,
    Not,
    Semicolon,
    Comma,
    OpenBlock,
    CloseBlock,
    OpenParen,
    CloseParen,
    Colon,
    OpenBracket,
    CloseBracket,
    BoolAnd,
    BoolOr,
}

/// The binary operator denoted by a punctuator, if any.
pub open spec fn spec_as_binop(p: Punctuator) -> Option<BinOp> {
    match p {
        Punctuator::Add => Some(BinOp::Num(NumOp::Add)),
        Punctuator::Sub => Some(BinOp::Num(NumOp::Sub)),
        Punctuator::Mul => Some(BinOp::Num(NumOp::Mul)),
        Punctuator::Div => Some(BinOp::Num(NumOp::Div)),
        Punctuator::BoolAnd => Some(BinOp::Log(LogOp::And)),
        Punctuator::BoolOr => Some(BinOp::Log(LogOp::Or)),
        Punctuator::Eq => Some(BinOp::Comp(CompOp::Equal)),
        Punctuator::NotEq => Some(BinOp::Comp(CompOp::NotEqual)),
        Punctuator::LessThan => Some(BinOp::Comp(CompOp::LessThan)),
        Punctuator::GreaterThan => Some(BinOp::Comp(CompOp::GreaterThan)),
        Punctuator::GreaterThanOrEq => Some(BinOp::Comp(CompOp::GreaterThanOrEqual)),
        Punctuator::LessThanOrEq => Some(BinOp::Comp(CompOp::LessThanOrEqual)),
        _ => None,
    }
}

/// The display form of each punctuator, as used in diagnostics.
pub open spec fn spec_punct_str(p: Punctuator) -> Seq<char> {
    match p {
        Punctuator::Add => "+"@,
        Punctuator::Assign => "="@,
        Punctuator::Div => "/"@,
        Punctuator::Eq => "=="@,
        Punctuator::GreaterThan => ">"@,
        Punctuator::GreaterThanOrEq => ">="@,
        Punctuator::LessThan => "<"@,
        Punctuator::LessThanOrEq => "<="@,
        Punctuator::Mul => "*"@,
        Punctuator::Not => "!"@,
        Punctuator::OpenBlock => "{"@,
        Punctuator::CloseBlock => "}"@,
        Punctuator::OpenParen => "("@,
        Punctuator::CloseParen => ")"@,
        Punctuator::Semicolon => ";"@,
        Punctuator::Sub => "-"@,
        Punctuator::Comma => ","@,
        Punctuator::NotEq => "!="@,
        Punctuator::Colon => ":"@,
        Punctuator::OpenBracket => "["@,
        Punctuator::CloseBracket => "]"@,
        Punctuator::BoolAnd => "&&"@,
        Punctuator::BoolOr => "||"@,
    }
}

impl Punctuator {
    pub fn as_binop(self) -> (r: Option<BinOp>)
        ensures
            r == spec_as_binop(self),
    {
        match self {
            Punctuator::Add => Some(BinOp::Num(NumOp::Add)),
            Punctuator::Sub => Some(BinOp::Num(NumOp::Sub)),
            Punctuator::Mul => Some(BinOp::Num(NumOp::Mul)),
            Punctuator::Div => Some(BinOp::Num(NumOp::Div)),
            Punctuator::BoolAnd => Some(BinOp::Log(LogOp::And)),
            Punctuator::BoolOr => Some(BinOp::Log(LogOp::Or)),
            Punctuator::Eq => Some(BinOp::Comp(CompOp::Equal)),
            Punctuator::NotEq => Some(BinOp::Comp(CompOp::NotEqual)),
            Punctuator::LessThan => Some(BinOp::Comp(CompOp::LessThan)),
            Punctuator::GreaterThan => Some(BinOp::Comp(CompOp::GreaterThan)),
            Punctuator::GreaterThanOrEq => Some(BinOp::Comp(CompOp::GreaterThanOrEqual)),
            Punctuator::LessThanOrEq => Some(BinOp::Comp(CompOp::LessThanOrEqual)),
            _ => None,
        }
    }

    /// The display form of the punctuator.
    pub fn as_str(self) -> (r: &'static str)
        ensures
            r@ == spec_punct_str(self),
    {
        match self {
            Punctuator::Add => "+",
            Punctuator::Assign => "=",
            Punctuator::Div => "/",
            Punctuator::Eq => "==",
            Punctuator::GreaterThan => ">",
            Punctuator::GreaterThanOrEq => ">=",
            Punctuator::LessThan => "<",
            Punctuator::LessThanOrEq => "<=",
            Punctuator::Mul => "*",
            Punctuator::Not => "!",
            Punctuator::OpenBlock => "{",
            Punctuator::CloseBlock => "}",
            Punctuator::OpenParen => "(",
            Punctuator::CloseParen => ")",
            Punctuator::Semicolon => ";",
            Punctuator::Sub => "-",
            Punctuator::Comma => ",",
            Punctuator::NotEq => "!=",
            Punctuator::Colon => ":",
            Punctuator::OpenBracket => "[",
            Punctuator::CloseBracket => "]",
            Punctuator::BoolAnd => "&&",
            Punctuator::BoolOr => "||",
        }
    }
}

} // verus!
