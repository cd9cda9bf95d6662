//! The mathematical definition of the parser: precedence-climbing over a
//! token-kind sequence.
//!
//! Every function takes the position of the first token of its production
//! and reports the position of the last token it consumed, exactly as the
//! executable parser keeps its current token there. A `fuel` bound pays for
//! one unit per call; the executable parser starts with far more fuel than
//! any input can use, and a run that exhausts it reports a nesting-depth
//! error instead of diverging.
use vstd::prelude::*;

use crate::lexer::keyword::Keyword;
use crate::lexer::punctuator::Punctuator;
use crate::lexer::token::{spec_kind_str, KindV, TokenV};
use crate::parser::node::{BlockV, ExprV, StmtV};

verus! {

/// The binding powers of the expression grammar, weakest first.
#[derive(PartialEq, Eq, Structural, Clone, Copy, Debug)]
pub enum Precedence {
    Lowest,
    Equals,
    LessGreater,
    Sum,
    Product,
    Prefix,
    Call,
    Index,
}

/// The numeric rank of a binding power.
pub open spec fn spec_prec_rank(p: Precedence) -> int {
    match p {
        Precedence::Lowest => 0,
        Precedence::Equals => 1,
        Precedence::LessGreater => 2,
        Precedence::Sum => 3,
        Precedence::Product => 4,
        Precedence::Prefix => 5,
        Precedence::Call => 6,
        Precedence::Index => 7,
    }
}

/// The binding power a token has when it appears in infix position.
pub open spec fn spec_token_precedence(k: KindV) -> Precedence {
    match k {
        KindV::Punct(Punctuator::Eq) => Precedence::Equals,
        KindV::Punct(Punctuator::NotEq) => Precedence::Equals,
        KindV::Punct(Punctuator::LessThan) => Precedence::LessGreater,
        KindV::Punct(Punctuator::GreaterThan) => Precedence::LessGreater,
        KindV::Punct(Punctuator::Add) => Precedence::Sum,
        KindV::Punct(Punctuator::Sub) => Precedence::Sum,
        KindV::Punct(Punctuator::Div) => Precedence::Product,
        KindV::Punct(Punctuator::Mul) => Precedence::Product,
        KindV::Punct(Punctuator::OpenParen) => Precedence::Call,
        KindV::Punct(Punctuator::OpenBracket) => Precedence::Index,
        _ => Precedence::Lowest,
    }
}

/// The prefix-position parse rules, one per token kind that may begin an
/// expression.
#[derive(PartialEq, Eq, Structural, Clone, Copy, Debug)]
pub enum PrefixRule {
    Identifier,
    Integer,
    StrLit,
    PrefixOp,
    Boolean,
    Grouped,
    If,
    Function,
    Array,
    Hash,
}

/// The infix-position parse rules.
#[derive(PartialEq, Eq, Structural, Clone, Copy, Debug)]
pub enum InfixRule {
    Binary,
    Call,
    Index,
}

/// The prefix rule a token kind selects, if any.
pub open spec fn spec_prefix_rule(k: KindV) -> Option<PrefixRule> {
    match k {
        KindV::Ident(_) => Some(PrefixRule::Identifier),
        KindV::Num(_) => Some(PrefixRule::Integer),
        KindV::Str(_) => Some(PrefixRule::StrLit),
        KindV::Punct(Punctuator::Not) => Some(PrefixRule::PrefixOp),
        KindV::Punct(Punctuator::Sub) => Some(PrefixRule::PrefixOp),
        KindV::Bool(_) => Some(PrefixRule::Boolean),
        KindV::Punct(Punctuator::OpenParen) => Some(PrefixRule::Grouped),
        KindV::Kw(Keyword::If) => Some(PrefixRule::If),
        KindV::Kw(Keyword::Function) => Some(PrefixRule::Function),
        KindV::Punct(Punctuator::OpenBracket) => Some(PrefixRule::Array),
        KindV::Punct(Punctuator::OpenBlock) => Some(PrefixRule::Hash),
        _ => None,
    }
}

/// The infix rule a token kind selects, if any.
pub open spec fn spec_infix_rule(k: KindV) -> Option<InfixRule> {
    match k {
        KindV::Punct(Punctuator::Add) => Some(InfixRule::Binary),
        KindV::Punct(Punctuator::Sub) => Some(InfixRule::Binary),
        KindV::Punct(Punctuator::Mul) => Some(InfixRule::Binary),
        KindV::Punct(Punctuator::Div) => Some(InfixRule::Binary),
        KindV::Punct(Punctuator::GreaterThan) => Some(InfixRule::Binary),
        KindV::Punct(Punctuator::Eq) => Some(InfixRule::Binary),
        KindV::Punct(Punctuator::NotEq) => Some(InfixRule::Binary),
        KindV::Punct(Punctuator::LessThan) => Some(InfixRule::Binary),
        KindV::Punct(Punctuator::OpenParen) => Some(InfixRule::Call),
        KindV::Punct(Punctuator::OpenBracket) => Some(InfixRule::Index),
        _ => None,
    }
}

/// The token kind at `pos`; the end of the input reads as an endless run
/// of end-of-file tokens.
pub open spec fn spec_cur(ks: Seq<KindV>, pos: int) -> KindV {
    if 0 <= pos < ks.len() {
        ks[pos]
    } else {
        KindV::Eof
    }
}

/// The position after consuming one token.
pub open spec fn spec_nxt(ks: Seq<KindV>, pos: int) -> int {
    if pos < ks.len() {
        pos + 1
    } else {
        pos
    }
}

/// The diagnostic for an unexpected token.
pub open spec fn spec_msg_expected(expected: KindV, cur: KindV) -> Seq<char> {
    "expected token: "@ + spec_kind_str(expected) + " got: "@ + spec_kind_str(cur)
}

/// The diagnostic for a token that cannot begin an expression.
pub open spec fn spec_msg_no_prefix(k: KindV) -> Seq<char> {
    "no prefix parse function for "@ + spec_kind_str(k) + " found"@
}

/// The diagnostic for a malformed binding name.
pub open spec fn spec_msg_invalid_ident(k: KindV) -> Seq<char> {
    "invalid identifier "@ + spec_kind_str(k)
}

/// The diagnostic for an identifier rule applied to another token.
pub open spec fn spec_msg_ident_parse(k: KindV) -> Seq<char> {
    "unexpected error on identifier parse with "@ + spec_kind_str(k)
}

/// The diagnostic for an exhausted nesting budget.
pub open spec fn spec_msg_depth(k: KindV) -> Seq<char> {
    "program nesting too deep at "@ + spec_kind_str(k)
}

/// The outcome of parsing one expression.
#[verifier::ext_equal]
pub ghost struct PExpr {
    pub res: Result<ExprV, Seq<char>>,
    pub pos: int,
}

/// The outcome of parsing one statement.
#[verifier::ext_equal]
pub ghost struct PStmt {
    pub res: Result<StmtV, Seq<char>>,
    pub pos: int,
}

/// The outcome of parsing a block.
#[verifier::ext_equal]
pub ghost struct PBlock {
    pub res: Result<BlockV, Seq<char>>,
    pub pos: int,
}

/// The outcome of an expected-token check.
#[verifier::ext_equal]
pub ghost struct PTok {
    pub res: Result<(), Seq<char>>,
    pub pos: int,
}

/// The outcome of parsing a comma-separated expression list.
#[verifier::ext_equal]
pub ghost struct PExprs {
    pub res: Result<Seq<ExprV>, Seq<char>>,
    pub pos: int,
}

/// The outcome of parsing a parameter list.
#[verifier::ext_equal]
pub ghost struct PParams {
    pub res: Result<Seq<Seq<char>>, Seq<char>>,
    pub pos: int,
}

/// The outcome of parsing the pairs of a hash literal.
#[verifier::ext_equal]
pub ghost struct PPairs {
    pub res: Result<Seq<(ExprV, ExprV)>, Seq<char>>,
    pub pos: int,
}

/// The outcome of parsing a whole program: the statements parsed, and
/// every diagnostic collected along the way.
#[verifier::ext_equal]
pub ghost struct PProg {
    pub body: Seq<StmtV>,
    pub errs: Seq<Seq<char>>,
    pub pos: int,
}

/// Consumes the next token when it has the expected kind; reports the
/// expected kind and the offending token otherwise.
pub open spec fn spec_expect_peek(ks: Seq<KindV>, pos: int, k: KindV) -> PTok {
    if spec_cur(ks, pos + 1) == k {
        PTok { res: Ok(()), pos: pos + 1 }
    } else {
        PTok { res: Err(spec_msg_expected(k, spec_cur(ks, pos + 1))), pos }
    }
}

/// One expression at the given minimum binding power: a prefix production
/// first, then every infix production that binds tighter.
pub open spec fn spec_parse_expression(ks: Seq<KindV>, pos: int, prec: Precedence, fuel: nat) -> PExpr
    decreases fuel,
{
    if fuel == 0 {
        PExpr { res: Err(spec_msg_depth(spec_cur(ks, pos))), pos }
    } else {
        match spec_prefix_rule(spec_cur(ks, pos)) {
            None => PExpr { res: Err(spec_msg_no_prefix(spec_cur(ks, pos))), pos },
            Some(rule) => {
                let p0 = spec_apply_prefix(ks, rule, pos, (fuel - 1) as nat);
                match p0.res {
                    Err(e) => p0,
                    Ok(left) => spec_expr_loop(ks, left, p0.pos, prec, (fuel - 1) as nat),
                }
            },
        }
    }
}

/// The infix loop: while the next token binds tighter than `prec` and is
/// not a semicolon, extend `left` with one infix production.
pub open spec fn spec_expr_loop(ks: Seq<KindV>, left: ExprV, pos: int, prec: Precedence, fuel: nat) -> PExpr
    decreases fuel,
{
    if fuel == 0 {
        PExpr { res: Err(spec_msg_depth(spec_cur(ks, pos))), pos }
    } else {
        let peek = spec_cur(ks, pos + 1);
        if peek == KindV::Punct(Punctuator::Semicolon) || spec_prec_rank(prec) >= spec_prec_rank(
            spec_token_precedence(peek),
        ) {
            PExpr { res: Ok(left), pos }
        } else {
            match spec_infix_rule(peek) {
                None => PExpr { res: Ok(left), pos },
                Some(rule) => {
                    let st = spec_apply_infix(ks, rule, left, pos + 1, (fuel - 1) as nat);
                    match st.res {
                        Err(e) => st,
                        Ok(ext) => spec_expr_loop(ks, ext, st.pos, prec, (fuel - 1) as nat),
                    }
                },
            }
        }
    }
}

/// Dispatches one prefix production at `pos`.
pub open spec fn spec_apply_prefix(ks: Seq<KindV>, rule: PrefixRule, pos: int, fuel: nat) -> PExpr
    decreases fuel,
{
    if fuel == 0 {
        PExpr { res: Err(spec_msg_depth(spec_cur(ks, pos))), pos }
    } else {
        let cur = spec_cur(ks, pos);
        match rule {
            PrefixRule::Identifier => match cur {
                KindV::Ident(name) => PExpr { res: Ok(ExprV::Ident(name)), pos },
                _ => PExpr { res: Err(spec_msg_ident_parse(cur)), pos },
            },
            PrefixRule::Integer => match cur {
                KindV::Num(n) => PExpr { res: Ok(ExprV::Integer(n)), pos },
                _ => PExpr {
                    res: Err("error parsing integer literal "@ + spec_kind_str(cur)),
                    pos,
                },
            },
            PrefixRule::StrLit => match cur {
                KindV::Str(s) => PExpr { res: Ok(ExprV::StrLit(s)), pos },
                _ => PExpr {
                    res: Err("unexpected error on string parse with "@ + spec_kind_str(cur)),
                    pos,
                },
            },
            PrefixRule::Boolean => match cur {
                KindV::Bool(b) => PExpr { res: Ok(ExprV::Boolean(b)), pos },
                _ => PExpr {
                    res: Err("couldn't parse "@ + spec_kind_str(cur) + " to boolean"@),
                    pos,
                },
            },
            PrefixRule::PrefixOp => {
                let r = spec_parse_expression(ks, pos + 1, Precedence::Prefix, (fuel - 1) as nat);
                match r.res {
                    Err(e) => r,
                    Ok(right) => PExpr {
                        res: Ok(ExprV::Prefix { op: cur, right: Box::new(right) }),
                        pos: r.pos,
                    },
                }
            },
            PrefixRule::Grouped => {
                let r = spec_parse_expression(ks, pos + 1, Precedence::Lowest, (fuel - 1) as nat);
                let ep = spec_expect_peek(ks, r.pos, KindV::Punct(Punctuator::CloseParen));
                match ep.res {
                    Err(e) => PExpr { res: Err(e), pos: ep.pos },
                    Ok(u) => PExpr { res: r.res, pos: ep.pos },
                }
            },
            PrefixRule::If => spec_parse_if(ks, pos, (fuel - 1) as nat),
            PrefixRule::Function => spec_parse_function(ks, pos, (fuel - 1) as nat),
            PrefixRule::Array => {
                let l = spec_parse_expr_list(
                    ks,
                    KindV::Punct(Punctuator::CloseBracket),
                    pos,
                    (fuel - 1) as nat,
                );
                match l.res {
                    Err(e) => PExpr { res: Err(e), pos: l.pos },
                    Ok(es) => PExpr { res: Ok(ExprV::Array(es)), pos: l.pos },
                }
            },
            PrefixRule::Hash => {
                let h = spec_parse_hash_rest(ks, seq![], pos, (fuel - 1) as nat);
                match h.res {
                    Err(e) => PExpr { res: Err(e), pos: h.pos },
                    Ok(ps) => PExpr { res: Ok(ExprV::Hash(ps)), pos: h.pos },
                }
            },
        }
    }
}

/// Dispatches one infix production; `pos` is the operator token.
pub open spec fn spec_apply_infix(ks: Seq<KindV>, rule: InfixRule, left: ExprV, pos: int, fuel: nat) -> PExpr
    decreases fuel,
{
    if fuel == 0 {
        PExpr { res: Err(spec_msg_depth(spec_cur(ks, pos))), pos }
    } else {
        let cur = spec_cur(ks, pos);
        match rule {
            InfixRule::Binary => {
                let r = spec_parse_expression(
                    ks,
                    pos + 1,
                    spec_token_precedence(cur),
                    (fuel - 1) as nat,
                );
                match r.res {
                    Err(e) => r,
                    Ok(right) => PExpr {
                        res: Ok(
                            ExprV::Infix {
                                op: cur,
                                left: Box::new(left),
                                right: Box::new(right),
                            },
                        ),
                        pos: r.pos,
                    },
                }
            },
            InfixRule::Call => {
                let l = spec_parse_expr_list(
                    ks,
                    KindV::Punct(Punctuator::CloseParen),
                    pos,
                    (fuel - 1) as nat,
                );
                match l.res {
                    Err(e) => PExpr { res: Err(e), pos: l.pos },
                    Ok(args) => PExpr {
                        res: Ok(ExprV::Call { func: Box::new(left), args }),
                        pos: l.pos,
                    },
                }
            },
            InfixRule::Index => {
                let r = spec_parse_expression(ks, pos + 1, Precedence::Lowest, (fuel - 1) as nat);
                match r.res {
                    Err(e) => r,
                    Ok(index) => {
                        let ep = spec_expect_peek(
                            ks,
                            r.pos,
                            KindV::Punct(Punctuator::CloseBracket),
                        );
                        match ep.res {
                            Err(e) => PExpr { res: Err(e), pos: ep.pos },
                            Ok(u) => PExpr {
                                res: Ok(
                                    ExprV::Index {
                                        left: Box::new(left),
                                        index: Box::new(index),
                                    },
                                ),
                                pos: ep.pos,
                            },
                        }
                    },
                }
            },
        }
    }
}

/// An `if` expression: `if (condition) { consequence }` with an optional
/// `else { alternative }`.
pub open spec fn spec_parse_if(ks: Seq<KindV>, pos: int, fuel: nat) -> PExpr
    decreases fuel,
{
    if fuel == 0 {
        PExpr { res: Err(spec_msg_depth(spec_cur(ks, pos))), pos }
    } else {
        let ep1 = spec_expect_peek(ks, pos, KindV::Punct(Punctuator::OpenParen));
        match ep1.res {
            Err(e) => PExpr { res: Err(e), pos: ep1.pos },
            Ok(u1) => {
                let c = spec_parse_expression(
                    ks,
                    ep1.pos + 1,
                    Precedence::Lowest,
                    (fuel - 1) as nat,
                );
                match c.res {
                    Err(e) => c,
                    Ok(cond) => {
                        let ep2 = spec_expect_peek(
                            ks,
                            c.pos,
                            KindV::Punct(Punctuator::CloseParen),
                        );
                        match ep2.res {
                            Err(e) => PExpr { res: Err(e), pos: ep2.pos },
                            Ok(u2) => {
                                let ep3 = spec_expect_peek(
                                    ks,
                                    ep2.pos,
                                    KindV::Punct(Punctuator::OpenBlock),
                                );
                                match ep3.res {
                                    Err(e) => PExpr { res: Err(e), pos: ep3.pos },
                                    Ok(u3) => {
                                        let b1 = spec_parse_block(ks, ep3.pos, (fuel - 1) as nat);
                                        match b1.res {
                                            Err(e) => PExpr { res: Err(e), pos: b1.pos },
                                            Ok(cons) => {
                                                if spec_cur(ks, b1.pos + 1) == KindV::Kw(
                                                    Keyword::Else,
                                                ) {
                                                    let ep4 = spec_expect_peek(
                                                        ks,
                                                        b1.pos + 1,
                                                        KindV::Punct(Punctuator::OpenBlock),
                                                    );
                                                    match ep4.res {
                                                        Err(e) => PExpr {
                                                            res: Err(e),
                                                            pos: ep4.pos,
                                                        },
                                                        Ok(u4) => {
                                                            let b2 = spec_parse_block(
                                                                ks,
                                                                ep4.pos,
                                                                (fuel - 1) as nat,
                                                            );
                                                            match b2.res {
                                                                Err(e) => PExpr {
                                                                    res: Err(e),
                                                                    pos: b2.pos,
                                                                },
                                                                Ok(alt) => PExpr {
                                                                    res: Ok(
                                                                        ExprV::If {
                                                                            cond: Box::new(cond),
                                                                            cons,
                                                                            alt: Some(alt),
                                                                        },
                                                                    ),
                                                                    pos: b2.pos,
                                                                },
                                                            }
                                                        },
                                                    }
                                                } else {
                                                    PExpr {
                                                        res: Ok(
                                                            ExprV::If {
                                                                cond: Box::new(cond),
                                                                cons,
                                                                alt: None,
                                                            },
                                                        ),
                                                        pos: b1.pos,
                                                    }
                                                }
                                            },
                                        }
                                    },
                                }
                            },
                        }
                    },
                }
            },
        }
    }
}

/// A function literal: `fn (parameters) { body }`.
pub open spec fn spec_parse_function(ks: Seq<KindV>, pos: int, fuel: nat) -> PExpr
    decreases fuel,
{
    if fuel == 0 {
        PExpr { res: Err(spec_msg_depth(spec_cur(ks, pos))), pos }
    } else {
        let ep1 = spec_expect_peek(ks, pos, KindV::Punct(Punctuator::OpenParen));
        match ep1.res {
            Err(e) => PExpr { res: Err(e), pos: ep1.pos },
            Ok(u1) => {
                let ps = spec_parse_params(ks, ep1.pos, (fuel - 1) as nat);
                match ps.res {
                    Err(e) => PExpr { res: Err(e), pos: ps.pos },
                    Ok(params) => {
                        let ep2 = spec_expect_peek(
                            ks,
                            ps.pos,
                            KindV::Punct(Punctuator::OpenBlock),
                        );
                        match ep2.res {
                            Err(e) => PExpr { res: Err(e), pos: ep2.pos },
                            Ok(u2) => {
                                let b = spec_parse_block(ks, ep2.pos, (fuel - 1) as nat);
                                match b.res {
                                    Err(e) => PExpr { res: Err(e), pos: b.pos },
                                    Ok(body) => PExpr {
                                        res: Ok(ExprV::Function { params, body }),
                                        pos: b.pos,
                                    },
                                }
                            },
                        }
                    },
                }
            },
        }
    }
}

/// A parameter list; `pos` is the opening parenthesis.
pub open spec fn spec_parse_params(ks: Seq<KindV>, pos: int, fuel: nat) -> PParams
    decreases fuel,
{
    if fuel == 0 {
        PParams { res: Err(spec_msg_depth(spec_cur(ks, pos))), pos }
    } else if spec_cur(ks, pos + 1) == KindV::Punct(Punctuator::CloseParen) {
        PParams { res: Ok(seq![]), pos: pos + 1 }
    } else {
        match spec_cur(ks, pos + 1) {
            KindV::Ident(name) => spec_parse_params_rest(
                ks,
                seq![name],
                pos + 1,
                (fuel - 1) as nat,
            ),
            k => PParams { res: Err(spec_msg_invalid_ident(k)), pos: pos + 1 },
        }
    }
}

/// The remaining parameters: `, name` repeated, then the closing
/// parenthesis.
pub open spec fn spec_parse_params_rest(
    ks: Seq<KindV>,
    acc: Seq<Seq<char>>,
    pos: int,
    fuel: nat,
) -> PParams
    decreases fuel,
{
    if fuel == 0 {
        PParams { res: Err(spec_msg_depth(spec_cur(ks, pos))), pos }
    } else if spec_cur(ks, pos + 1) == KindV::Punct(Punctuator::Comma) {
        match spec_cur(ks, pos + 2) {
            KindV::Ident(name) => spec_parse_params_rest(
                ks,
                acc.push(name),
                pos + 2,
                (fuel - 1) as nat,
            ),
            k => PParams { res: Err(spec_msg_invalid_ident(k)), pos: pos + 2 },
        }
    } else {
        let ep = spec_expect_peek(ks, pos, KindV::Punct(Punctuator::CloseParen));
        match ep.res {
            Err(e) => PParams { res: Err(e), pos: ep.pos },
            Ok(u) => PParams { res: Ok(acc), pos: ep.pos },
        }
    }
}

/// A comma-separated expression list ended by `end`; `pos` is the opening
/// delimiter.
pub open spec fn spec_parse_expr_list(ks: Seq<KindV>, end: KindV, pos: int, fuel: nat) -> PExprs
    decreases fuel,
{
    if fuel == 0 {
        PExprs { res: Err(spec_msg_depth(spec_cur(ks, pos))), pos }
    } else if spec_cur(ks, pos + 1) == end {
        PExprs { res: Ok(seq![]), pos: pos + 1 }
    } else {
        let e = spec_parse_expression(ks, pos + 1, Precedence::Lowest, (fuel - 1) as nat);
        match e.res {
            Err(m) => PExprs { res: Err(m), pos: e.pos },
            Ok(first) => spec_parse_exprs_rest(ks, end, seq![first], e.pos, (fuel - 1) as nat),
        }
    }
}

/// The remaining list elements: `, expression` repeated, then `end`.
pub open spec fn spec_parse_exprs_rest(
    ks: Seq<KindV>,
    end: KindV,
    acc: Seq<ExprV>,
    pos: int,
    fuel: nat,
) -> PExprs
    decreases fuel,
{
    if fuel == 0 {
        PExprs { res: Err(spec_msg_depth(spec_cur(ks, pos))), pos }
    } else if spec_cur(ks, pos + 1) == KindV::Punct(Punctuator::Comma) {
        let e = spec_parse_expression(ks, pos + 2, Precedence::Lowest, (fuel - 1) as nat);
        match e.res {
            Err(m) => PExprs { res: Err(m), pos: e.pos },
            Ok(next) => spec_parse_exprs_rest(ks, end, acc.push(next), e.pos, (fuel - 1) as nat),
        }
    } else {
        let ep = spec_expect_peek(ks, pos, end);
        match ep.res {
            Err(e) => PExprs { res: Err(e), pos: ep.pos },
            Ok(u) => PExprs { res: Ok(acc), pos: ep.pos },
        }
    }
}

/// The pairs of a hash literal; `pos` is the opening brace or the position
/// after the previous pair's comma.
pub open spec fn spec_parse_hash_rest(
    ks: Seq<KindV>,
    acc: Seq<(ExprV, ExprV)>,
    pos: int,
    fuel: nat,
) -> PPairs
    decreases fuel,
{
    if fuel == 0 {
        PPairs { res: Err(spec_msg_depth(spec_cur(ks, pos))), pos }
    } else if spec_cur(ks, pos + 1) == KindV::Punct(Punctuator::CloseBlock) {
        PPairs { res: Ok(acc), pos: pos + 1 }
    } else {
        let k = spec_parse_expression(ks, pos + 1, Precedence::Lowest, (fuel - 1) as nat);
        match k.res {
            Err(m) => PPairs { res: Err(m), pos: k.pos },
            Ok(key) => {
                let epc = spec_expect_peek(ks, k.pos, KindV::Punct(Punctuator::Colon));
                match epc.res {
                    Err(e) => PPairs { res: Err(e), pos: epc.pos },
                    Ok(u) => {
                        let v = spec_parse_expression(
                            ks,
                            epc.pos + 1,
                            Precedence::Lowest,
                            (fuel - 1) as nat,
                        );
                        match v.res {
                            Err(m) => PPairs { res: Err(m), pos: v.pos },
                            Ok(value) => {
                                if spec_cur(ks, v.pos + 1) == KindV::Punct(
                                    Punctuator::CloseBlock,
                                ) {
                                    spec_parse_hash_rest(
                                        ks,
                                        acc.push((key, value)),
                                        v.pos,
                                        (fuel - 1) as nat,
                                    )
                                } else {
                                    let epm = spec_expect_peek(
                                        ks,
                                        v.pos,
                                        KindV::Punct(Punctuator::Comma),
                                    );
                                    match epm.res {
                                        Err(e) => PPairs { res: Err(e), pos: epm.pos },
                                        Ok(u2) => spec_parse_hash_rest(
                                            ks,
                                            acc.push((key, value)),
                                            epm.pos,
                                            (fuel - 1) as nat,
                                        ),
                                    }
                                }
                            },
                        }
                    },
                }
            },
        }
    }
}

/// One statement: a `let` binding, a `return`, or a bare expression.
pub open spec fn spec_parse_stmt(ks: Seq<KindV>, pos: int, fuel: nat) -> PStmt
    decreases fuel,
{
    if fuel == 0 {
        PStmt { res: Err(spec_msg_depth(spec_cur(ks, pos))), pos }
    } else {
        match spec_cur(ks, pos) {
            KindV::Kw(Keyword::Let) => spec_parse_let(ks, pos, (fuel - 1) as nat),
            KindV::Kw(Keyword::Return) => spec_parse_return(ks, pos, (fuel - 1) as nat),
            _ => spec_parse_expr_stmt(ks, pos, (fuel - 1) as nat),
        }
    }
}

/// The position after an optional trailing semicolon.
pub open spec fn spec_skip_semi(ks: Seq<KindV>, pos: int) -> int {
    if spec_cur(ks, pos + 1) == KindV::Punct(Punctuator::Semicolon) {
        pos + 1
    } else {
        pos
    }
}

/// A `let` statement: `let name = expression;`.
pub open spec fn spec_parse_let(ks: Seq<KindV>, pos: int, fuel: nat) -> PStmt
    decreases fuel,
{
    if fuel == 0 {
        PStmt { res: Err(spec_msg_depth(spec_cur(ks, pos))), pos }
    } else {
        match spec_cur(ks, pos + 1) {
            KindV::Ident(name) => {
                let ep = spec_expect_peek(ks, pos + 1, KindV::Punct(Punctuator::Assign));
                match ep.res {
                    Err(e) => PStmt { res: Err(e), pos: ep.pos },
                    Ok(u) => {
                        let v = spec_parse_expression(
                            ks,
                            ep.pos + 1,
                            Precedence::Lowest,
                            (fuel - 1) as nat,
                        );
                        match v.res {
                            Err(m) => PStmt { res: Err(m), pos: v.pos },
                            Ok(value) => PStmt {
                                res: Ok(StmtV::Let { name, value }),
                                pos: spec_skip_semi(ks, v.pos),
                            },
                        }
                    },
                }
            },
            k => PStmt { res: Err(spec_msg_invalid_ident(k)), pos },
        }
    }
}

/// A `return` statement: `return expression;`.
pub open spec fn spec_parse_return(ks: Seq<KindV>, pos: int, fuel: nat) -> PStmt
    decreases fuel,
{
    if fuel == 0 {
        PStmt { res: Err(spec_msg_depth(spec_cur(ks, pos))), pos }
    } else {
        let v = spec_parse_expression(ks, pos + 1, Precedence::Lowest, (fuel - 1) as nat);
        match v.res {
            Err(m) => PStmt { res: Err(m), pos: v.pos },
            Ok(value) => PStmt {
                res: Ok(StmtV::Return(value)),
                pos: spec_skip_semi(ks, v.pos),
            },
        }
    }
}

/// An expression in statement position, with an optional semicolon.
pub open spec fn spec_parse_expr_stmt(ks: Seq<KindV>, pos: int, fuel: nat) -> PStmt
    decreases fuel,
{
    if fuel == 0 {
        PStmt { res: Err(spec_msg_depth(spec_cur(ks, pos))), pos }
    } else {
        let e = spec_parse_expression(ks, pos, Precedence::Lowest, (fuel - 1) as nat);
        match e.res {
            Err(m) => PStmt { res: Err(m), pos: e.pos },
            Ok(value) => PStmt {
                res: Ok(StmtV::Expr(value)),
                pos: spec_skip_semi(ks, e.pos),
            },
        }
    }
}

/// A block: statements up to the closing brace or the end of the input.
/// A statement that fails to parse fails the block, so the diagnostic
/// reaches the collected list; recovery resumes at the enclosing
/// statement boundary.
pub open spec fn spec_parse_block(ks: Seq<KindV>, pos: int, fuel: nat) -> PBlock
    decreases fuel,
{
    if fuel == 0 {
        PBlock { res: Err(spec_msg_depth(spec_cur(ks, pos))), pos }
    } else {
        spec_parse_block_rest(ks, seq![], spec_nxt(ks, pos), (fuel - 1) as nat)
    }
}

/// The statements of a block from `pos` on; the first failing statement
/// fails the block with its diagnostic.
pub open spec fn spec_parse_block_rest(ks: Seq<KindV>, acc: Seq<StmtV>, pos: int, fuel: nat) -> PBlock
    decreases fuel,
{
    if fuel == 0 {
        PBlock { res: Err(spec_msg_depth(spec_cur(ks, pos))), pos }
    } else if spec_cur(ks, pos) == KindV::Punct(Punctuator::CloseBlock) || spec_cur(ks, pos)
        == KindV::Eof {
        PBlock { res: Ok(BlockV { stmts: acc }), pos }
    } else {
        let s = spec_parse_stmt(ks, pos, (fuel - 1) as nat);
        match s.res {
            Ok(stmt) => spec_parse_block_rest(
                ks,
                acc.push(stmt),
                spec_nxt(ks, s.pos),
                (fuel - 1) as nat,
            ),
            Err(m) => PBlock { res: Err(m), pos: s.pos },
        }
    }
}

/// The statements of a program from `pos` on, collecting every diagnostic
/// rather than stopping at the first.
pub open spec fn spec_parse_program_rest(
    ks: Seq<KindV>,
    body: Seq<StmtV>,
    errs: Seq<Seq<char>>,
    pos: int,
    fuel: nat,
) -> PProg
    decreases fuel,
{
    if fuel == 0 {
        PProg { body, errs: errs.push(spec_msg_depth(spec_cur(ks, pos))), pos }
    } else if spec_cur(ks, pos) == KindV::Eof {
        PProg { body, errs, pos }
    } else {
        let s = spec_parse_stmt(ks, pos, (fuel - 1) as nat);
        match s.res {
            Ok(stmt) => spec_parse_program_rest(
                ks,
                body.push(stmt),
                errs,
                spec_nxt(ks, s.pos),
                (fuel - 1) as nat,
            ),
            Err(m) => spec_parse_program_rest(
                ks,
                body,
                errs.push(m),
                spec_nxt(ks, s.pos),
                (fuel - 1) as nat,
            ),
        }
    }
}

/// The kind sequence of a token sequence.
pub open spec fn kinds_of(ts: Seq<TokenV>) -> Seq<KindV> {
    ts.map_values(|t: TokenV| t.kind)
}

/// The nesting budget granted for an input of `n` tokens: far more than
/// one unit per token, so only a pathologically nested input can exhaust
/// it.
pub open spec fn spec_parse_fuel(n: nat) -> nat {
    if n >= 0x0fff_ffff_ffff_ffff {
        0xffff_ffff_ffff_ffff
    } else {
        8 * n + 64
    }
}

/// A whole program parsed from a kind sequence.
pub open spec fn spec_parse_program(ks: Seq<KindV>) -> PProg {
    spec_parse_program_rest(ks, seq![], seq![], 0, spec_parse_fuel(ks.len()))
}

} // verus!
