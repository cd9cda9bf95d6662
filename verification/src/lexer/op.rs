//! The operator vocabulary shared by the lexer, parser and evaluator.
use vstd::prelude::*;

verus! {

#[derive(Clone, Copy, Eq, Hash, Debug, PartialEq, Structural)]
pub enum NumOp {
    Add,
    Sub,
    Mul,
    Div,
}

/// The source spelling of an arithmetic operator.
pub open spec fn spec_num_op_str(op: NumOp) -> Seq<char> {
    match op {
        NumOp::Add => "+"@,
        NumOp::Sub => "-"@,
        NumOp::Div => "/"@,
        NumOp::Mul => "*"@,
    }
}

impl NumOp {
    pub fn as_str(self) -> (r: &'static str)
        ensures
            r@ == spec_num_op_str(self),
    {
        match self {
            NumOp::Add => "+",
            NumOp::Sub => "-",
            NumOp::Div => "/",
            NumOp::Mul => "*",
        }
    }
}

#[derive(Clone, Copy, Eq, Hash, Debug, PartialEq, Structural)]
pub enum UnaryOp {
    Minus,
    Not,
}

/// The source spelling of a unary operator.
pub open spec fn spec_unary_op_str(op: UnaryOp) -> Seq<char> {
    match op {
        UnaryOp::Minus => "-"@,
        UnaryOp::Not => "!"@,
    }
}

impl UnaryOp {
    pub fn as_str(self) -> (r: &'static str)
        ensures
            r@ == spec_unary_op_str(self),
    {
        match self {
            UnaryOp::Minus => "-",
            UnaryOp::Not => "!",
        }
    }
}

#[derive(Clone, Copy, Eq, Hash, Debug, PartialEq, Structural)]
pub enum CompOp {
    Equal,
    NotEqual,
    GreaterThan,
    GreaterThanOrEqual,
    LessThan,
    LessThanOrEqual,
}

/// The source spelling of a comparison operator.
pub open spec fn spec_comp_op_str(op: CompOp) -> Seq<char> {
    match op {
        CompOp::Equal => "=="@,
        CompOp::NotEqual => "!="@,
        CompOp::GreaterThan => ">"@,
        CompOp::GreaterThanOrEqual => ">="@,
        CompOp::LessThan => "<"@,
        CompOp::LessThanOrEqual => "<="@,
    }
}

impl CompOp {
    pub fn as_str(self) -> (r: &'static str)
        ensures
            r@ == spec_comp_op_str(self),
    {
        match self {
            CompOp::Equal => "==",
            CompOp::NotEqual => "!=",
            CompOp::GreaterThan => ">",
            CompOp::GreaterThanOrEqual => ">=",
            CompOp::LessThan => "<",
            CompOp::LessThanOrEqual => "<=",
        }
    }
}

#[derive(Clone, Copy, Eq, Hash, Debug, PartialEq, Structural)]
pub enum LogOp {
    And,
    Or,
}

/// The source spelling of a logical operator.
pub open spec fn spec_log_op_str(op: LogOp) -> Seq<char> {
    match op {
        LogOp::And => "&&"@,
        LogOp::Or => "||"@,
    }
}

impl LogOp {
    pub fn as_str(self) -> (r: &'static str)
        ensures
            r@ == spec_log_op_str(self),
    {
        match self {
            LogOp::And => "&&",
            LogOp::Or => "||",
        }
    }
}

/// A binary operator: arithmetic, comparison or logical.
#[derive(Clone, Copy, Eq, Hash, Debug, PartialEq, Structural)]
pub enum BinOp {
    Num(NumOp),
    Comp(CompOp),
    Log(LogOp),
}

/// The source spelling of a binary operator.
pub open spec fn spec_bin_op_str(op: BinOp) -> Seq<char> {
    match op {
        BinOp::Num(op) => spec_num_op_str(op),
        BinOp::Comp(op) => spec_comp_op_str(op),
        BinOp::Log(op) => spec_log_op_str(op),
    }
}

impl BinOp {
    pub fn as_str(self) -> (r: &'static str)
        ensures
            r@ == spec_bin_op_str(self),
    {
        match self {
            BinOp::Num(op) => op.as_str(),
            BinOp::Comp(op) => op.as_str(),
            BinOp::Log(op) => op.as_str(),
        }
    }
}

} // verus!
