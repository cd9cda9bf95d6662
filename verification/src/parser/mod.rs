//! Syntactic analysis: an operator-precedence (Pratt) recursive-descent
//! parser, verified against the grammar in [`grammar`].
//!
//! The parser drains the lexer into a token vector up front and keeps a
//! cursor on the current token. Statement parsing collects diagnostics and
//! moves on, so one pass reports as many syntax errors as possible.
use vstd::prelude::*;

pub mod grammar;
pub mod node;

use crate::lexer::keyword::Keyword;
use crate::lexer::punctuator::Punctuator;
use crate::lexer::token::{kind_eq, KindV, Numeric, Token, TokenKind};
use crate::lexer::{spec_tokens, Lexer};
use crate::parser::grammar::{
    kinds_of, spec_apply_infix, spec_apply_prefix, spec_cur, spec_expect_peek, spec_expr_loop,
    spec_infix_rule, spec_msg_depth, spec_msg_ident_parse, spec_msg_invalid_ident, spec_nxt,
    spec_parse_block, spec_parse_block_rest, spec_parse_expr_list, spec_parse_expr_stmt,
    spec_parse_expression, spec_parse_exprs_rest, spec_parse_fuel, spec_parse_function,
    spec_parse_hash_rest, spec_parse_if, spec_parse_let, spec_parse_params,
    spec_parse_params_rest, spec_parse_program_rest, spec_parse_return, spec_parse_stmt,
    spec_prec_rank, spec_prefix_rule, spec_token_precedence, InfixRule, PProg, Precedence,
    PrefixRule,
};
use crate::parser::node::{
    lemma_view_exprs_index, lemma_view_pairs_index, lemma_view_stmts_index, view_exprs,
    view_pairs, view_params, view_stmts, ArrayLiteral, BlockStatement, CallExpression, Expression,
    ExpressionStatement, FunctionLiteral, HashLiteral, IdentifierExpression, IfExpression,
    IndexExpression, InfixExpression, LetStatement, Node, PrefixExpression, Program,
    ReturnStatement, Statement,
};
use crate::text::view_strings;

verus! {

/// The kind sequence of a token vector.
pub open spec fn view_kinds(ts: Seq<Token>) -> Seq<KindV> {
    ts.map_values(|t: Token| t@.kind)
}

/// The whole pipeline up to the parser, as one mathematical function: the
/// program and diagnostics obtained by lexing `src` and parsing the tokens.
pub open spec fn spec_parse(src: Seq<char>) -> PProg {
    grammar::spec_parse_program(kinds_of(spec_tokens(src, 0)))
}

/// Law: the canonical rendering is a fixed point of the pipeline on a
/// program that consists of one identifier: lexing and parsing such a
/// source succeeds without diagnostics, and the parsed program renders
/// back to exactly that source.
pub proof fn lemma_roundtrip_identifier_program(s: Seq<char>)
    requires
        1 <= s.len() <= usize::MAX,
        forall|i: int| 0 <= i < s.len() ==> crate::lexer::is_letter_char(#[trigger] s[i]),
        crate::lexer::token::spec_keyword_of_source(s) is None,
    ensures
        spec_parse(s).errs.len() == 0,
        crate::parser::node::spec_print_program(
            crate::parser::node::ProgramV { body: spec_parse(s).body },
        ) =~= s,
{
    crate::lexer::lemma_lex_identifier(s);
    assert(kinds_of(spec_tokens(s, 0)) =~= seq![KindV::Ident(s)]);
    let ks = kinds_of(spec_tokens(s, 0));
    let fuel = spec_parse_fuel(ks.len());
    assert(fuel == 8 + 64) by {
        assert(ks.len() == 1);
    }
    assert(spec_cur(ks, 0) == KindV::Ident(s));
    assert(spec_cur(ks, 1) == KindV::Eof);
    let ap = spec_apply_prefix(ks, PrefixRule::Identifier, 0, (fuel - 4) as nat);
    assert(ap.res == Ok::<crate::parser::node::ExprV, Seq<char>>(
        crate::parser::node::ExprV::Ident(s),
    ));
    assert(ap.pos == 0);
    let lp = spec_expr_loop(
        ks,
        crate::parser::node::ExprV::Ident(s),
        0,
        Precedence::Lowest,
        (fuel - 4) as nat,
    );
    assert(lp.res == ap.res && lp.pos == 0);
    let ex = spec_parse_expression(ks, 0, Precedence::Lowest, (fuel - 3) as nat);
    assert(ex.res == ap.res && ex.pos == 0);
    let es = spec_parse_expr_stmt(ks, 0, (fuel - 2) as nat);
    assert(es.res == Ok::<crate::parser::node::StmtV, Seq<char>>(
        crate::parser::node::StmtV::Expr(crate::parser::node::ExprV::Ident(s)),
    ) && es.pos == 0);
    let st = spec_parse_stmt(ks, 0, (fuel - 1) as nat);
    assert(st == es);
    let pr = spec_parse_program_rest(ks, seq![], seq![], 0, fuel);
    assert(pr.body =~= seq![crate::parser::node::StmtV::Expr(
        crate::parser::node::ExprV::Ident(s),
    )]) by {
        reveal_with_fuel(spec_parse_program_rest, 3);
    }
    assert(pr.errs.len() == 0) by {
        reveal_with_fuel(spec_parse_program_rest, 3);
    }
    assert(crate::parser::node::spec_print_stmts(pr.body, 0) =~= s) by {
        reveal_with_fuel(crate::parser::node::spec_print_stmts, 3);
    }
}

/// Law: the canonical rendering is a fixed point of the pipeline on a
/// program that consists of one non-negative integer literal: lexing and
/// parsing its decimal rendering succeeds without diagnostics, and the
/// parsed program renders back to exactly that source.
pub proof fn lemma_roundtrip_integer_program(n: i64)
    requires
        0 <= n,
    ensures
        spec_parse(crate::text::spec_nat_str(n as nat)).errs.len() == 0,
        crate::parser::node::spec_print_program(
            crate::parser::node::ProgramV {
                body: spec_parse(crate::text::spec_nat_str(n as nat)).body,
            },
        ) =~= crate::text::spec_nat_str(n as nat),
{
    let s = crate::text::spec_nat_str(n as nat);
    crate::lexer::lemma_lex_integer(n);
    assert(kinds_of(spec_tokens(s, 0)) =~= seq![KindV::Num(n)]);
    let ks = kinds_of(spec_tokens(s, 0));
    let fuel = spec_parse_fuel(ks.len());
    assert(fuel == 8 + 64) by {
        assert(ks.len() == 1);
    }
    assert(spec_cur(ks, 0) == KindV::Num(n));
    assert(spec_cur(ks, 1) == KindV::Eof);
    let ap = spec_apply_prefix(ks, PrefixRule::Integer, 0, (fuel - 4) as nat);
    assert(ap.res == Ok::<crate::parser::node::ExprV, Seq<char>>(
        crate::parser::node::ExprV::Integer(n),
    ));
    assert(ap.pos == 0);
    let lp = spec_expr_loop(
        ks,
        crate::parser::node::ExprV::Integer(n),
        0,
        Precedence::Lowest,
        (fuel - 4) as nat,
    );
    assert(lp.res == ap.res && lp.pos == 0);
    let ex = spec_parse_expression(ks, 0, Precedence::Lowest, (fuel - 3) as nat);
    assert(ex.res == ap.res && ex.pos == 0);
    let es = spec_parse_expr_stmt(ks, 0, (fuel - 2) as nat);
    assert(es.res == Ok::<crate::parser::node::StmtV, Seq<char>>(
        crate::parser::node::StmtV::Expr(crate::parser::node::ExprV::Integer(n)),
    ) && es.pos == 0);
    let st = spec_parse_stmt(ks, 0, (fuel - 1) as nat);
    assert(st == es);
    let pr = spec_parse_program_rest(ks, seq![], seq![], 0, fuel);
    assert(pr.body =~= seq![crate::parser::node::StmtV::Expr(
        crate::parser::node::ExprV::Integer(n),
    )]) by {
        reveal_with_fuel(spec_parse_program_rest, 3);
    }
    assert(pr.errs.len() == 0) by {
        reveal_with_fuel(spec_parse_program_rest, 3);
    }
    assert(crate::text::spec_i64_str(n) == s);
    assert(crate::parser::node::spec_print_stmts(pr.body, 0) =~= s) by {
        reveal_with_fuel(crate::parser::node::spec_print_stmts, 3);
    }
}

impl Precedence {
    /// The binding power a token has when it appears in infix position.
    pub fn token_precedence(tok: &TokenKind) -> (r: Precedence)
        ensures
            r == spec_token_precedence(tok@),
    {
        match tok {
            TokenKind::Punctuator(Punctuator::Eq) => Precedence::Equals,
            TokenKind::Punctuator(Punctuator::NotEq) => Precedence::Equals,
            TokenKind::Punctuator(Punctuator::LessThan) => Precedence::LessGreater,
            TokenKind::Punctuator(Punctuator::GreaterThan) => Precedence::LessGreater,
            TokenKind::Punctuator(Punctuator::Add) => Precedence::Sum,
            TokenKind::Punctuator(Punctuator::Sub) => Precedence::Sum,
            TokenKind::Punctuator(Punctuator::Div) => Precedence::Product,
            TokenKind::Punctuator(Punctuator::Mul) => Precedence::Product,
            TokenKind::Punctuator(Punctuator::OpenParen) => Precedence::Call,
            TokenKind::Punctuator(Punctuator::OpenBracket) => Precedence::Index,
            _ => Precedence::Lowest,
        }
    }

    /// The numeric rank of the binding power.
    pub fn rank(self) -> (r: u8)
        ensures
            r == spec_prec_rank(self),
    {
        match self {
            Precedence::Lowest => 0,
            Precedence::Equals => 1,
            Precedence::LessGreater => 2,
            Precedence::Sum => 3,
            Precedence::Product => 4,
            Precedence::Prefix => 5,
            Precedence::Call => 6,
            Precedence::Index => 7,
        }
    }
}

/// The parser state: the tokens of one source text and a cursor on the
/// current token. Reads past the end yield end-of-file.
pub struct Parser {
    pub tokens: Vec<Token>,
    pub pos: usize,
}

/// Parses a whole source text into a program node, or the list of every
/// syntax diagnostic found.
pub fn parse(input: &str) -> (r: Result<Node, Vec<String>>)
    ensures
        ({
            let pr = spec_parse(input@);
            match r {
                Ok(node) => pr.errs.len() == 0 && node@ == crate::parser::node::NodeV::Program(
                    crate::parser::node::ProgramV { body: pr.body },
                ),
                Err(es) => pr.errs.len() > 0 && view_strings(es@) == pr.errs,
            }
        }),
{
    let l = Lexer::new(input);
    let mut p = Parser::new(l);
    match p.parse_program() {
        Ok(prog) => Ok(Node::Program(Box::new(prog))),
        Err(errs) => Err(errs),
    }
}

impl Parser {
    /// The kind sequence of the parser's tokens.
    pub open spec fn ks(&self) -> Seq<KindV> {
        view_kinds(self.tokens@)
    }

    pub open spec fn wf(&self) -> bool {
        self.pos <= self.tokens@.len()
    }

    /// Creates a parser over every token the lexer yields before the end
    /// of its input.
    pub fn new(l: Lexer<'_>) -> (r: Parser)
        requires
            l.wf(),
        ensures
            r.wf(),
            r.pos == 0,
            r.ks() == kinds_of(spec_tokens(l.input@, l.pos as int)),
    {
        let ghost src = l.input@;
        let ghost p0 = l.pos as int;
        let mut l = l;
        let mut tokens: Vec<Token> = Vec::new();
        loop
            invariant
                l.wf(),
                l.input@ == src,
                kinds_of(spec_tokens(src, p0)) =~= view_kinds(tokens@) + kinds_of(
                    spec_tokens(src, l.pos as int),
                ),
            decreases src.len() - l.pos,
        {
            proof {
                crate::lexer::lemma_next_token_advances(src, l.pos as int);
            }
            let t = l.next_token();
            if kind_eq(t.kind(), &TokenKind::EOF) {
                break ;
            }
            tokens.push(t);
            proof {
                assert(kinds_of(spec_tokens(src, p0)) =~= view_kinds(tokens@) + kinds_of(
                    spec_tokens(src, l.pos as int),
                ));
            }
        }
        let r = Parser { tokens, pos: 0 };
        proof {
            assert(r.ks() =~= kinds_of(spec_tokens(src, p0)));
        }
        r
    }

    /// Whether the current token has the given kind.
    fn cur_token_is(&self, t: &TokenKind) -> (r: bool)
        requires
            self.wf(),
        ensures
            r == (spec_cur(self.ks(), self.pos as int) == t@),
    {
        if self.pos < self.tokens.len() {
            kind_eq(&self.tokens[self.pos].kind, t)
        } else {
            kind_eq(&TokenKind::EOF, t)
        }
    }

    /// Whether the next token has the given kind.
    fn peek_token_is(&self, t: &TokenKind) -> (r: bool)
        requires
            self.wf(),
        ensures
            r == (spec_cur(self.ks(), self.pos as int + 1) == t@),
    {
        if self.pos < self.tokens.len() && self.pos + 1 < self.tokens.len() {
            kind_eq(&self.tokens[self.pos + 1].kind, t)
        } else {
            kind_eq(&TokenKind::EOF, t)
        }
    }

    /// Advances past the current token; at the end of the input the cursor
    /// stays put.
    fn next_token(&mut self)
        requires
            old(self).wf(),
        ensures
            final(self).wf(),
            final(self).tokens == old(self).tokens,
            final(self).pos == spec_nxt(old(self).ks(), old(self).pos as int),
    {
        if self.pos < self.tokens.len() {
            self.pos = self.pos + 1;
        }
    }

    /// A copy of the current token's kind; end-of-file past the end.
    fn cur_kind_dup(&self) -> (r: TokenKind)
        requires
            self.wf(),
        ensures
            r@ == spec_cur(self.ks(), self.pos as int),
    {
        if self.pos < self.tokens.len() {
            self.tokens[self.pos].kind.duplicate()
        } else {
            TokenKind::EOF
        }
    }

    /// The display form of the current token's kind.
    fn cur_kind_string(&self) -> (r: String)
        requires
            self.wf(),
        ensures
            r@ == crate::lexer::token::spec_kind_str(spec_cur(self.ks(), self.pos as int)),
    {
        if self.pos < self.tokens.len() {
            self.tokens[self.pos].kind.string()
        } else {
            String::from_str("end of file")
        }
    }

    /// The nesting-budget diagnostic at the current token.
    fn depth_msg(&self) -> (r: String)
        requires
            self.wf(),
        ensures
            r@ == spec_msg_depth(spec_cur(self.ks(), self.pos as int)),
    {
        let mut m = String::from_str("program nesting too deep at ");
        let c = self.cur_kind_string();
        m.append(c.as_str());
        m
    }

    /// Consumes the next token when it has the expected kind; reports the
    /// expected kind and the current token otherwise.
    fn expect_peek(&mut self, kind: &TokenKind) -> (r: Result<(), String>)
        requires
            old(self).wf(),
            kind@ != KindV::Eof,
        ensures
            final(self).wf(),
            final(self).tokens == old(self).tokens,
            ({
                let st = spec_expect_peek(old(self).ks(), old(self).pos as int, kind@);
                &&& final(self).pos == st.pos
                &&& match r {
                    Ok(u) => st.res is Ok,
                    Err(m) => st.res is Err && m@ == st.res->Err_0,
                }
            }),
    {
        if self.peek_token_is(kind) {
            let n = self.tokens.len();
            proof {
                assert(self.pos + 1 < n);
            }
            self.pos = self.pos + 1;
            Ok(())
        } else {
            let mut m = String::from_str("expected token: ");
            let k = kind.string();
            m.append(k.as_str());
            m.append(" got: ");
            let c = self.peek_kind_string();
            m.append(c.as_str());
            Err(m)
        }
    }

    /// The prefix rule selected by the current token, if any.
    fn prefix_fn(&self) -> (r: Option<PrefixRule>)
        requires
            self.wf(),
        ensures
            r == spec_prefix_rule(spec_cur(self.ks(), self.pos as int)),
    {
        if self.pos >= self.tokens.len() {
            return None;
        }
        match &self.tokens[self.pos].kind {
            TokenKind::Identifier(_) => Some(PrefixRule::Identifier),
            TokenKind::NumericLiteral(_) => Some(PrefixRule::Integer),
            TokenKind::StringLiteral(_) => Some(PrefixRule::StrLit),
            TokenKind::Punctuator(Punctuator::Not) => Some(PrefixRule::PrefixOp),
            TokenKind::Punctuator(Punctuator::Sub) => Some(PrefixRule::PrefixOp),
            TokenKind::BooleanLiteral(_) => Some(PrefixRule::Boolean),
            TokenKind::Punctuator(Punctuator::OpenParen) => Some(PrefixRule::Grouped),
            TokenKind::Keyword(Keyword::If) => Some(PrefixRule::If),
            TokenKind::Keyword(Keyword::Function) => Some(PrefixRule::Function),
            TokenKind::Punctuator(Punctuator::OpenBracket) => Some(PrefixRule::Array),
            TokenKind::Punctuator(Punctuator::OpenBlock) => Some(PrefixRule::Hash),
            _ => None,
        }
    }

    /// The infix rule selected by the next token, if any.
    fn infix_fn(&self) -> (r: Option<InfixRule>)
        requires
            self.wf(),
        ensures
            r == spec_infix_rule(spec_cur(self.ks(), self.pos as int + 1)),
    {
        if self.pos >= self.tokens.len() || self.pos + 1 >= self.tokens.len() {
            return None;
        }
        match &self.tokens[self.pos + 1].kind {
            TokenKind::Punctuator(Punctuator::Add) => Some(InfixRule::Binary),
            TokenKind::Punctuator(Punctuator::Sub) => Some(InfixRule::Binary),
            TokenKind::Punctuator(Punctuator::Mul) => Some(InfixRule::Binary),
            TokenKind::Punctuator(Punctuator::Div) => Some(InfixRule::Binary),
            TokenKind::Punctuator(Punctuator::GreaterThan) => Some(InfixRule::Binary),
            TokenKind::Punctuator(Punctuator::Eq) => Some(InfixRule::Binary),
            TokenKind::Punctuator(Punctuator::NotEq) => Some(InfixRule::Binary),
            TokenKind::Punctuator(Punctuator::LessThan) => Some(InfixRule::Binary),
            TokenKind::Punctuator(Punctuator::OpenParen) => Some(InfixRule::Call),
            TokenKind::Punctuator(Punctuator::OpenBracket) => Some(InfixRule::Index),
            _ => None,
        }
    }

    /// The binding power of the next token.
    fn peek_precedence(&self) -> (r: Precedence)
        requires
            self.wf(),
        ensures
            r == spec_token_precedence(spec_cur(self.ks(), self.pos as int + 1)),
    {
        if self.pos < self.tokens.len() && self.pos + 1 < self.tokens.len() {
            Precedence::token_precedence(&self.tokens[self.pos + 1].kind)
        } else {
            Precedence::Lowest
        }
    }

    /// The binding power of the current token.
    fn cur_precedence(&self) -> (r: Precedence)
        requires
            self.wf(),
        ensures
            r == spec_token_precedence(spec_cur(self.ks(), self.pos as int)),
    {
        if self.pos < self.tokens.len() {
            Precedence::token_precedence(&self.tokens[self.pos].kind)
        } else {
            Precedence::Lowest
        }
    }

    /// The display form of the next token's kind.
    fn peek_kind_string(&self) -> (r: String)
        requires
            self.wf(),
        ensures
            r@ == crate::lexer::token::spec_kind_str(spec_cur(self.ks(), self.pos as int + 1)),
    {
        if self.pos < self.tokens.len() && self.pos + 1 < self.tokens.len() {
            self.tokens[self.pos + 1].kind.string()
        } else {
            String::from_str("end of file")
        }
    }

    /// One expression at the given minimum binding power.
    fn parse_expression(&mut self, precedence: Precedence, fuel: u64) -> (r: Result<
        Expression,
        String,
    >)
        requires
            old(self).wf(),
        ensures
            final(self).wf(),
            final(self).tokens == old(self).tokens,
            ({
                let st = spec_parse_expression(
                    old(self).ks(),
                    old(self).pos as int,
                    precedence,
                    fuel as nat,
                );
                &&& final(self).pos == st.pos
                &&& match r {
                    Ok(e) => st.res is Ok && e@ == st.res->Ok_0,
                    Err(m) => st.res is Err && m@ == st.res->Err_0,
                }
            }),
        decreases fuel, 0int,
    {
        if fuel == 0 {
            return Err(self.depth_msg());
        }
        match self.prefix_fn() {
            None => {
                let mut m = String::from_str("no prefix parse function for ");
                let c = self.cur_kind_string();
                m.append(c.as_str());
                m.append(" found");
                Err(m)
            },
            Some(rule) => {
                match self.apply_prefix(rule, fuel - 1) {
                    Err(m) => Err(m),
                    Ok(left) => self.expr_loop(left, precedence, fuel - 1),
                }
            },
        }
    }

    /// The infix loop: extends `left` while the next token binds tighter
    /// than `precedence`.
    fn expr_loop(&mut self, left: Expression, precedence: Precedence, fuel: u64) -> (r: Result<
        Expression,
        String,
    >)
        requires
            old(self).wf(),
        ensures
            final(self).wf(),
            final(self).tokens == old(self).tokens,
            ({
                let st = spec_expr_loop(
                    old(self).ks(),
                    left@,
                    old(self).pos as int,
                    precedence,
                    fuel as nat,
                );
                &&& final(self).pos == st.pos
                &&& match r {
                    Ok(e) => st.res is Ok && e@ == st.res->Ok_0,
                    Err(m) => st.res is Err && m@ == st.res->Err_0,
                }
            }),
        decreases fuel, 0int,
    {
        let ghost ks = self.ks();
        let ghost target = spec_expr_loop(
            ks,
            left@,
            self.pos as int,
            precedence,
            fuel as nat,
        );
        let mut left = left;
        let mut f = fuel;
        loop
            invariant
                self.wf(),
                self.tokens == old(self).tokens,
                f <= fuel,
                ks == self.ks(),
                spec_expr_loop(ks, left@, self.pos as int, precedence, f as nat) == target,
            decreases f,
        {
            if f == 0 {
                return Err(self.depth_msg());
            }
            if self.peek_token_is(&TokenKind::Punctuator(Punctuator::Semicolon)) {
                return Ok(left);
            }
            if precedence.rank() >= self.peek_precedence().rank() {
                return Ok(left);
            }
            match self.infix_fn() {
                None => {
                    return Ok(left);
                },
                Some(rule) => {
                    self.next_token();
                    match self.apply_infix(rule, left, f - 1) {
                        Err(m) => {
                            return Err(m);
                        },
                        Ok(ext) => {
                            left = ext;
                            f = f - 1;
                        },
                    }
                },
            }
        }
    }

    /// Dispatches one prefix production at the current token.
    fn apply_prefix(&mut self, rule: PrefixRule, fuel: u64) -> (r: Result<Expression, String>)
        requires
            old(self).wf(),
            rule == spec_prefix_rule(spec_cur(old(self).ks(), old(self).pos as int))->Some_0,
            spec_prefix_rule(spec_cur(old(self).ks(), old(self).pos as int)) is Some,
        ensures
            final(self).wf(),
            final(self).tokens == old(self).tokens,
            ({
                let st = spec_apply_prefix(
                    old(self).ks(),
                    rule,
                    old(self).pos as int,
                    fuel as nat,
                );
                &&& final(self).pos == st.pos
                &&& match r {
                    Ok(e) => st.res is Ok && e@ == st.res->Ok_0,
                    Err(m) => st.res is Err && m@ == st.res->Err_0,
                }
            }),
        decreases fuel, 0int,
    {
        if fuel == 0 {
            return Err(self.depth_msg());
        }
        match rule {
            PrefixRule::Identifier => self.parse_identifier(),
            PrefixRule::Integer => self.parse_integer_literal(),
            PrefixRule::StrLit => self.parse_string_literal(),
            PrefixRule::Boolean => self.parse_boolean(),
            PrefixRule::PrefixOp => self.parse_prefix_expression(fuel - 1),
            PrefixRule::Grouped => self.parse_grouped_expression(fuel - 1),
            PrefixRule::If => self.parse_if_expression(fuel - 1),
            PrefixRule::Function => self.parse_function_literal(fuel - 1),
            PrefixRule::Array => self.parse_array_literal(fuel - 1),
            PrefixRule::Hash => self.parse_hash_literal(fuel - 1),
        }
    }

    /// Dispatches one infix production; the current token is the operator.
    fn apply_infix(&mut self, rule: InfixRule, left: Expression, fuel: u64) -> (r: Result<
        Expression,
        String,
    >)
        requires
            old(self).wf(),
            spec_infix_rule(spec_cur(old(self).ks(), old(self).pos as int)) == Some(rule),
        ensures
            final(self).wf(),
            final(self).tokens == old(self).tokens,
            ({
                let st = spec_apply_infix(
                    old(self).ks(),
                    rule,
                    left@,
                    old(self).pos as int,
                    fuel as nat,
                );
                &&& final(self).pos == st.pos
                &&& match r {
                    Ok(e) => st.res is Ok && e@ == st.res->Ok_0,
                    Err(m) => st.res is Err && m@ == st.res->Err_0,
                }
            }),
        decreases fuel, 0int,
    {
        if fuel == 0 {
            return Err(self.depth_msg());
        }
        match rule {
            InfixRule::Binary => self.parse_infix_expression(left, fuel - 1),
            InfixRule::Call => self.parse_call_expression(left, fuel - 1),
            InfixRule::Index => self.parse_index_expression(left, fuel - 1),
        }
    }

    /// An identifier in expression position.
    fn parse_identifier(&mut self) -> (r: Result<Expression, String>)
        requires
            old(self).wf(),
        ensures
            final(self).wf(),
            final(self).tokens == old(self).tokens,
            final(self).pos == old(self).pos,
            ({
                let cur = spec_cur(old(self).ks(), old(self).pos as int);
                match r {
                    Ok(e) => cur is Ident && e@ == crate::parser::node::ExprV::Ident(cur->Ident_0),
                    Err(m) => !(cur is Ident) && m@ == spec_msg_ident_parse(cur),
                }
            }),
    {
        if self.pos < self.tokens.len() {
            match &self.tokens[self.pos].kind {
                TokenKind::Identifier(s) => {
                    return Ok(Expression::Identifier(s.clone()));
                },
                _ => {},
            }
        }
        let mut m = String::from_str("unexpected error on identifier parse with ");
        let c = self.cur_kind_string();
        m.append(c.as_str());
        Err(m)
    }

    /// An integer literal in expression position.
    fn parse_integer_literal(&mut self) -> (r: Result<Expression, String>)
        requires
            old(self).wf(),
        ensures
            final(self).wf(),
            final(self).tokens == old(self).tokens,
            final(self).pos == old(self).pos,
            ({
                let cur = spec_cur(old(self).ks(), old(self).pos as int);
                match r {
                    Ok(e) => cur is Num && e@ == crate::parser::node::ExprV::Integer(cur->Num_0),
                    Err(m) => !(cur is Num) && m@ == "error parsing integer literal "@
                        + crate::lexer::token::spec_kind_str(cur),
                }
            }),
    {
        if self.pos < self.tokens.len() {
            match &self.tokens[self.pos].kind {
                TokenKind::NumericLiteral(Numeric::Integer(n)) => {
                    return Ok(Expression::Integer(*n));
                },
                _ => {},
            }
        }
        let mut m = String::from_str("error parsing integer literal ");
        let c = self.cur_kind_string();
        m.append(c.as_str());
        Err(m)
    }

    /// A string literal in expression position.
    fn parse_string_literal(&mut self) -> (r: Result<Expression, String>)
        requires
            old(self).wf(),
        ensures
            final(self).wf(),
            final(self).tokens == old(self).tokens,
            final(self).pos == old(self).pos,
            ({
                let cur = spec_cur(old(self).ks(), old(self).pos as int);
                match r {
                    Ok(e) => cur is Str && e@ == crate::parser::node::ExprV::StrLit(cur->Str_0),
                    Err(m) => !(cur is Str) && m@ == "unexpected error on string parse with "@
                        + crate::lexer::token::spec_kind_str(cur),
                }
            }),
    {
        if self.pos < self.tokens.len() {
            match &self.tokens[self.pos].kind {
                TokenKind::StringLiteral(s) => {
                    return Ok(Expression::Str(s.clone()));
                },
                _ => {},
            }
        }
        let mut m = String::from_str("unexpected error on string parse with ");
        let c = self.cur_kind_string();
        m.append(c.as_str());
        Err(m)
    }

    /// A boolean literal in expression position.
    fn parse_boolean(&mut self) -> (r: Result<Expression, String>)
        requires
            old(self).wf(),
        ensures
            final(self).wf(),
            final(self).tokens == old(self).tokens,
            final(self).pos == old(self).pos,
            ({
                let cur = spec_cur(old(self).ks(), old(self).pos as int);
                match r {
                    Ok(e) => cur is Bool && e@ == crate::parser::node::ExprV::Boolean(cur->Bool_0),
                    Err(m) => !(cur is Bool) && m@ == "couldn't parse "@
                        + crate::lexer::token::spec_kind_str(cur) + " to boolean"@,
                }
            }),
    {
        if self.pos < self.tokens.len() {
            match &self.tokens[self.pos].kind {
                TokenKind::BooleanLiteral(b) => {
                    return Ok(Expression::Boolean(*b));
                },
                _ => {},
            }
        }
        let mut m = String::from_str("couldn't parse ");
        let c = self.cur_kind_string();
        m.append(c.as_str());
        m.append(" to boolean");
        Err(m)
    }

    /// A unary prefix application: the operator, then its operand at
    /// prefix binding power.
    fn parse_prefix_expression(&mut self, fuel: u64) -> (r: Result<Expression, String>)
        requires
            old(self).wf(),
            old(self).pos < old(self).tokens@.len(),
        ensures
            final(self).wf(),
            final(self).tokens == old(self).tokens,
            ({
                let ks = old(self).ks();
                let pos = old(self).pos as int;
                let st = spec_parse_expression(ks, pos + 1, Precedence::Prefix, fuel as nat);
                &&& final(self).pos == st.pos
                &&& match r {
                    Ok(e) => st.res is Ok && e@ == crate::parser::node::ExprV::Prefix {
                        op: spec_cur(ks, pos),
                        right: Box::new(st.res->Ok_0),
                    },
                    Err(m) => st.res is Err && m@ == st.res->Err_0,
                }
            }),
        decreases fuel, 1int,
    {
        let operator = self.cur_kind_dup();
        self.next_token();
        match self.parse_expression(Precedence::Prefix, fuel) {
            Err(m) => Err(m),
            Ok(right) => Ok(
                Expression::Prefix(Box::new(PrefixExpression { operator, right })),
            ),
        }
    }

    /// A parenthesized expression.
    fn parse_grouped_expression(&mut self, fuel: u64) -> (r: Result<Expression, String>)
        requires
            old(self).wf(),
            old(self).pos < old(self).tokens@.len(),
        ensures
            final(self).wf(),
            final(self).tokens == old(self).tokens,
            ({
                let ks = old(self).ks();
                let pos = old(self).pos as int;
                let st = spec_parse_expression(ks, pos + 1, Precedence::Lowest, fuel as nat);
                let ep = spec_expect_peek(ks, st.pos, KindV::Punct(Punctuator::CloseParen));
                match ep.res {
                    Err(e) => final(self).pos == ep.pos && r is Err && r->Err_0@ == e,
                    Ok(u) => final(self).pos == ep.pos && (match r {
                        Ok(x) => st.res is Ok && x@ == st.res->Ok_0,
                        Err(m) => st.res is Err && m@ == st.res->Err_0,
                    }),
                }
            }),
        decreases fuel, 1int,
    {
        self.next_token();
        let exp = self.parse_expression(Precedence::Lowest, fuel);
        match self.expect_peek(&TokenKind::Punctuator(Punctuator::CloseParen)) {
            Err(m) => Err(m),
            Ok(u) => exp,
        }
    }

    /// An `if` expression with an optional `else` block.
    fn parse_if_expression(&mut self, fuel: u64) -> (r: Result<Expression, String>)
        requires
            old(self).wf(),
        ensures
            final(self).wf(),
            final(self).tokens == old(self).tokens,
            ({
                let st = spec_parse_if(old(self).ks(), old(self).pos as int, fuel as nat);
                &&& final(self).pos == st.pos
                &&& match r {
                    Ok(e) => st.res is Ok && e@ == st.res->Ok_0,
                    Err(m) => st.res is Err && m@ == st.res->Err_0,
                }
            }),
        decreases fuel, 0int,
    {
        if fuel == 0 {
            return Err(self.depth_msg());
        }
        match self.expect_peek(&TokenKind::Punctuator(Punctuator::OpenParen)) {
            Err(m) => {
                return Err(m);
            },
            Ok(u) => {},
        }
        self.next_token();
        let condition = match self.parse_expression(Precedence::Lowest, fuel - 1) {
            Err(m) => {
                return Err(m);
            },
            Ok(c) => c,
        };
        match self.expect_peek(&TokenKind::Punctuator(Punctuator::CloseParen)) {
            Err(m) => {
                return Err(m);
            },
            Ok(u) => {},
        }
        match self.expect_peek(&TokenKind::Punctuator(Punctuator::OpenBlock)) {
            Err(m) => {
                return Err(m);
            },
            Ok(u) => {},
        }
        let consequence = match self.parse_block_statement(fuel - 1) {
            Err(m) => {
                return Err(m);
            },
            Ok(b) => b,
        };
        if self.peek_token_is(&TokenKind::Keyword(Keyword::Else)) {
            self.next_token();
            match self.expect_peek(&TokenKind::Punctuator(Punctuator::OpenBlock)) {
                Err(m) => {
                    return Err(m);
                },
                Ok(u) => {},
            }
            let alt = match self.parse_block_statement(fuel - 1) {
                Err(m) => {
                    return Err(m);
                },
                Ok(b) => b,
            };
            Ok(
                Expression::If(
                    Box::new(
                        IfExpression { condition, consequence, alternative: Some(alt) },
                    ),
                ),
            )
        } else {
            Ok(
                Expression::If(
                    Box::new(IfExpression { condition, consequence, alternative: None }),
                ),
            )
        }
    }

    /// A function literal: parameters, then a body block.
    fn parse_function_literal(&mut self, fuel: u64) -> (r: Result<Expression, String>)
        requires
            old(self).wf(),
        ensures
            final(self).wf(),
            final(self).tokens == old(self).tokens,
            ({
                let st = spec_parse_function(old(self).ks(), old(self).pos as int, fuel as nat);
                &&& final(self).pos == st.pos
                &&& match r {
                    Ok(e) => st.res is Ok && e@ == st.res->Ok_0,
                    Err(m) => st.res is Err && m@ == st.res->Err_0,
                }
            }),
        decreases fuel, 0int,
    {
        if fuel == 0 {
            return Err(self.depth_msg());
        }
        match self.expect_peek(&TokenKind::Punctuator(Punctuator::OpenParen)) {
            Err(m) => {
                return Err(m);
            },
            Ok(u) => {},
        }
        let parameters = match self.parse_function_parameters(fuel - 1) {
            Err(m) => {
                return Err(m);
            },
            Ok(ps) => ps,
        };
        match self.expect_peek(&TokenKind::Punctuator(Punctuator::OpenBlock)) {
            Err(m) => {
                return Err(m);
            },
            Ok(u) => {},
        }
        let body = match self.parse_block_statement(fuel - 1) {
            Err(m) => {
                return Err(m);
            },
            Ok(b) => b,
        };
        Ok(Expression::Function(Box::new(FunctionLiteral { parameters, body })))
    }

    /// The current token as a parameter name.
    fn parse_identifier_into_identifier_expression(&mut self) -> (r: Result<
        IdentifierExpression,
        String,
    >)
        requires
            old(self).wf(),
        ensures
            final(self).wf(),
            final(self).tokens == old(self).tokens,
            final(self).pos == old(self).pos,
            ({
                let cur = spec_cur(old(self).ks(), old(self).pos as int);
                match r {
                    Ok(p) => cur is Ident && p.name@ == cur->Ident_0,
                    Err(m) => !(cur is Ident) && m@ == spec_msg_invalid_ident(cur),
                }
            }),
    {
        if self.pos < self.tokens.len() {
            match &self.tokens[self.pos].kind {
                TokenKind::Identifier(s) => {
                    return Ok(IdentifierExpression { name: s.clone() });
                },
                _ => {},
            }
        }
        let mut m = String::from_str("invalid identifier ");
        let c = self.cur_kind_string();
        m.append(c.as_str());
        Err(m)
    }

    /// A parameter list; the current token is the opening parenthesis.
    fn parse_function_parameters(&mut self, fuel: u64) -> (r: Result<
        Vec<IdentifierExpression>,
        String,
    >)
        requires
            old(self).wf(),
            old(self).pos < old(self).tokens@.len(),
        ensures
            final(self).wf(),
            final(self).tokens == old(self).tokens,
            ({
                let st = spec_parse_params(old(self).ks(), old(self).pos as int, fuel as nat);
                &&& final(self).pos == st.pos
                &&& match r {
                    Ok(ps) => st.res is Ok && view_params(ps@) == st.res->Ok_0,
                    Err(m) => st.res is Err && m@ == st.res->Err_0,
                }
            }),
        decreases fuel, 0int,
    {
        if fuel == 0 {
            return Err(self.depth_msg());
        }
        let mut identifiers: Vec<IdentifierExpression> = Vec::new();
        if self.peek_token_is(&TokenKind::Punctuator(Punctuator::CloseParen)) {
            self.next_token();
            proof {
                assert(view_params(identifiers@) =~= Seq::<Seq<char>>::empty());
                assert(Seq::<Seq<char>>::empty() =~= seq![]);
            }
            return Ok(identifiers);
        }
        self.next_token();
        let first = match self.parse_identifier_into_identifier_expression() {
            Err(m) => {
                return Err(m);
            },
            Ok(p) => p,
        };
        let ghost firstname = first.name@;
        identifiers.push(first);
        proof {
            assert(view_params(identifiers@) =~= seq![firstname]);
        }
        let ghost ks = self.ks();
        let ghost target = spec_parse_params_rest(
            ks,
            view_params(identifiers@),
            self.pos as int,
            (fuel - 1) as nat,
        );
        let mut f = fuel - 1;
        loop
            invariant
                self.wf(),
                self.tokens == old(self).tokens,
                ks == self.ks(),
                f <= fuel - 1,
                spec_parse_params_rest(
                    ks,
                    view_params(identifiers@),
                    self.pos as int,
                    f as nat,
                ) == target,
            decreases f,
        {
            if f == 0 {
                return Err(self.depth_msg());
            }
            if self.peek_token_is(&TokenKind::Punctuator(Punctuator::Comma)) {
                self.next_token();
                self.next_token();
                let next = match self.parse_identifier_into_identifier_expression() {
                    Err(m) => {
                        return Err(m);
                    },
                    Ok(p) => p,
                };
                let ghost before = view_params(identifiers@);
                identifiers.push(next);
                proof {
                    assert(view_params(identifiers@) =~= before.push(next.name@));
                }
                f = f - 1;
            } else {
                match self.expect_peek(&TokenKind::Punctuator(Punctuator::CloseParen)) {
                    Err(m) => {
                        return Err(m);
                    },
                    Ok(u) => {
                        return Ok(identifiers);
                    },
                }
            }
        }
    }

    /// A comma-separated expression list ended by `end`; the current token
    /// is the opening delimiter.
    fn parse_expression_list(&mut self, end: &TokenKind, fuel: u64) -> (r: Result<
        Vec<Expression>,
        String,
    >)
        requires
            old(self).wf(),
            old(self).pos < old(self).tokens@.len(),
            end@ != KindV::Eof,
        ensures
            final(self).wf(),
            final(self).tokens == old(self).tokens,
            ({
                let st = spec_parse_expr_list(
                    old(self).ks(),
                    end@,
                    old(self).pos as int,
                    fuel as nat,
                );
                &&& final(self).pos == st.pos
                &&& match r {
                    Ok(es) => st.res is Ok && view_exprs(es@, 0) == st.res->Ok_0,
                    Err(m) => st.res is Err && m@ == st.res->Err_0,
                }
            }),
        decreases fuel, 0int,
    {
        if fuel == 0 {
            return Err(self.depth_msg());
        }
        let mut list: Vec<Expression> = Vec::new();
        if self.peek_token_is(end) {
            self.next_token();
            proof {
                lemma_view_exprs_index(list@, 0);
                assert(view_exprs(list@, 0) =~= seq![]);
            }
            return Ok(list);
        }
        self.next_token();
        let first = match self.parse_expression(Precedence::Lowest, fuel - 1) {
            Err(m) => {
                return Err(m);
            },
            Ok(e) => e,
        };
        let ghost firstv = first@;
        list.push(first);
        proof {
            lemma_view_exprs_index(list@, 0);
            assert(view_exprs(list@, 0) =~= seq![firstv]);
        }
        let ghost ks = self.ks();
        let ghost target = spec_parse_exprs_rest(
            ks,
            end@,
            view_exprs(list@, 0),
            self.pos as int,
            (fuel - 1) as nat,
        );
        let mut f = fuel - 1;
        loop
            invariant
                self.wf(),
                self.tokens == old(self).tokens,
                ks == self.ks(),
                f <= fuel - 1,
                spec_parse_exprs_rest(ks, end@, view_exprs(list@, 0), self.pos as int, f as nat)
                    == target,
            decreases f,
        {
            if f == 0 {
                return Err(self.depth_msg());
            }
            if self.peek_token_is(&TokenKind::Punctuator(Punctuator::Comma)) {
                self.next_token();
                self.next_token();
                let next = match self.parse_expression(Precedence::Lowest, f - 1) {
                    Err(m) => {
                        return Err(m);
                    },
                    Ok(e) => e,
                };
                let ghost before = view_exprs(list@, 0);
                let ghost oldlist = list@;
                let ghost nextv = next@;
                list.push(next);
                proof {
                    lemma_view_exprs_index(list@, 0);
                    lemma_view_exprs_index(oldlist, 0);
                    assert(view_exprs(list@, 0) =~= before.push(nextv));
                }
                f = f - 1;
            } else {
                match self.expect_peek(end) {
                    Err(m) => {
                        return Err(m);
                    },
                    Ok(u) => {
                        return Ok(list);
                    },
                }
            }
        }
    }

    /// An array literal.
    fn parse_array_literal(&mut self, fuel: u64) -> (r: Result<Expression, String>)
        requires
            old(self).wf(),
            old(self).pos < old(self).tokens@.len(),
        ensures
            final(self).wf(),
            final(self).tokens == old(self).tokens,
            ({
                let st = spec_parse_expr_list(
                    old(self).ks(),
                    KindV::Punct(Punctuator::CloseBracket),
                    old(self).pos as int,
                    fuel as nat,
                );
                &&& final(self).pos == st.pos
                &&& match r {
                    Ok(e) => st.res is Ok && e@ == crate::parser::node::ExprV::Array(
                        st.res->Ok_0,
                    ),
                    Err(m) => st.res is Err && m@ == st.res->Err_0,
                }
            }),
        decreases fuel, 1int,
    {
        match self.parse_expression_list(&TokenKind::Punctuator(Punctuator::CloseBracket), fuel) {
            Err(m) => Err(m),
            Ok(elements) => Ok(Expression::Array(Box::new(ArrayLiteral { elements }))),
        }
    }

    /// A hash literal: `key: value` pairs in braces, in source order.
    fn parse_hash_literal(&mut self, fuel: u64) -> (r: Result<Expression, String>)
        requires
            old(self).wf(),
            old(self).pos < old(self).tokens@.len(),
        ensures
            final(self).wf(),
            final(self).tokens == old(self).tokens,
            ({
                let st = spec_parse_hash_rest(
                    old(self).ks(),
                    seq![],
                    old(self).pos as int,
                    fuel as nat,
                );
                &&& final(self).pos == st.pos
                &&& match r {
                    Ok(e) => st.res is Ok && e@ == crate::parser::node::ExprV::Hash(st.res->Ok_0),
                    Err(m) => st.res is Err && m@ == st.res->Err_0,
                }
            }),
        decreases fuel, 0int,
    {
        let mut pairs: Vec<(Expression, Expression)> = Vec::new();
        proof {
            lemma_view_pairs_index(pairs@, 0);
            assert(view_pairs(pairs@, 0) =~= seq![]);
        }
        let ghost ks = self.ks();
        let ghost target = spec_parse_hash_rest(
            ks,
            seq![],
            self.pos as int,
            fuel as nat,
        );
        let mut f = fuel;
        loop
            invariant
                self.wf(),
                self.tokens == old(self).tokens,
                ks == self.ks(),
                f <= fuel,
                self.pos < self.tokens@.len(),
                spec_parse_hash_rest(ks, view_pairs(pairs@, 0), self.pos as int, f as nat)
                    == target,
            decreases f,
        {
            if f == 0 {
                return Err(self.depth_msg());
            }
            if self.peek_token_is(&TokenKind::Punctuator(Punctuator::CloseBlock)) {
                self.next_token();
                return Ok(Expression::Hash(Box::new(HashLiteral { pairs })));
            }
            self.next_token();
            let key = match self.parse_expression(Precedence::Lowest, f - 1) {
                Err(m) => {
                    return Err(m);
                },
                Ok(e) => e,
            };
            match self.expect_peek(&TokenKind::Punctuator(Punctuator::Colon)) {
                Err(m) => {
                    return Err(m);
                },
                Ok(u) => {},
            }
            self.next_token();
            let value = match self.parse_expression(Precedence::Lowest, f - 1) {
                Err(m) => {
                    return Err(m);
                },
                Ok(e) => e,
            };
            let ghost before = view_pairs(pairs@, 0);
            let ghost oldpairs = pairs@;
            let ghost kv = key@;
            let ghost vv = value@;
            pairs.push((key, value));
            proof {
                lemma_view_pairs_index(pairs@, 0);
                lemma_view_pairs_index(oldpairs, 0);
                assert(view_pairs(pairs@, 0) =~= before.push((kv, vv)));
            }
            if self.peek_token_is(&TokenKind::Punctuator(Punctuator::CloseBlock)) {
                f = f - 1;
            } else {
                match self.expect_peek(&TokenKind::Punctuator(Punctuator::Comma)) {
                    Err(m) => {
                        return Err(m);
                    },
                    Ok(u) => {
                        f = f - 1;
                    },
                }
            }
        }
    }

    /// A binary application: the current operator token, then the right
    /// operand at the operator's binding power.
    fn parse_infix_expression(&mut self, left: Expression, fuel: u64) -> (r: Result<
        Expression,
        String,
    >)
        requires
            old(self).wf(),
            old(self).pos < old(self).tokens@.len(),
        ensures
            final(self).wf(),
            final(self).tokens == old(self).tokens,
            ({
                let ks = old(self).ks();
                let pos = old(self).pos as int;
                let st = spec_parse_expression(
                    ks,
                    pos + 1,
                    spec_token_precedence(spec_cur(ks, pos)),
                    fuel as nat,
                );
                &&& final(self).pos == st.pos
                &&& match r {
                    Ok(e) => st.res is Ok && e@ == crate::parser::node::ExprV::Infix {
                        op: spec_cur(ks, pos),
                        left: Box::new(left@),
                        right: Box::new(st.res->Ok_0),
                    },
                    Err(m) => st.res is Err && m@ == st.res->Err_0,
                }
            }),
        decreases fuel, 1int,
    {
        let operator = self.cur_kind_dup();
        let precedence = self.cur_precedence();
        self.next_token();
        match self.parse_expression(precedence, fuel) {
            Err(m) => Err(m),
            Ok(right) => Ok(
                Expression::Infix(Box::new(InfixExpression { operator, left, right })),
            ),
        }
    }

    /// A call: the argument list applied to the callee parsed so far.
    fn parse_call_expression(&mut self, function: Expression, fuel: u64) -> (r: Result<
        Expression,
        String,
    >)
        requires
            old(self).wf(),
            old(self).pos < old(self).tokens@.len(),
        ensures
            final(self).wf(),
            final(self).tokens == old(self).tokens,
            ({
                let st = spec_parse_expr_list(
                    old(self).ks(),
                    KindV::Punct(Punctuator::CloseParen),
                    old(self).pos as int,
                    fuel as nat,
                );
                &&& final(self).pos == st.pos
                &&& match r {
                    Ok(e) => st.res is Ok && e@ == crate::parser::node::ExprV::Call {
                        func: Box::new(function@),
                        args: st.res->Ok_0,
                    },
                    Err(m) => st.res is Err && m@ == st.res->Err_0,
                }
            }),
        decreases fuel, 1int,
    {
        match self.parse_expression_list(&TokenKind::Punctuator(Punctuator::CloseParen), fuel) {
            Err(m) => Err(m),
            Ok(arguments) => Ok(
                Expression::Call(Box::new(CallExpression { function, arguments })),
            ),
        }
    }

    /// An index application: `left[index]`.
    fn parse_index_expression(&mut self, left: Expression, fuel: u64) -> (r: Result<
        Expression,
        String,
    >)
        requires
            old(self).wf(),
            old(self).pos < old(self).tokens@.len(),
        ensures
            final(self).wf(),
            final(self).tokens == old(self).tokens,
            ({
                let ks = old(self).ks();
                let pos = old(self).pos as int;
                let st = spec_parse_expression(ks, pos + 1, Precedence::Lowest, fuel as nat);
                &&& match st.res {
                    Err(e) => final(self).pos == st.pos && r is Err && r->Err_0@ == e,
                    Ok(index) => ({
                        let ep = spec_expect_peek(
                            ks,
                            st.pos,
                            KindV::Punct(Punctuator::CloseBracket),
                        );
                        &&& final(self).pos == ep.pos
                        &&& match ep.res {
                            Err(e) => r is Err && r->Err_0@ == e,
                            Ok(u) => r is Ok && r->Ok_0@ == crate::parser::node::ExprV::Index {
                                left: Box::new(left@),
                                index: Box::new(index),
                            },
                        }
                    }),
                }
            }),
        decreases fuel, 1int,
    {
        self.next_token();
        let index = match self.parse_expression(Precedence::Lowest, fuel) {
            Err(m) => {
                return Err(m);
            },
            Ok(e) => e,
        };
        match self.expect_peek(&TokenKind::Punctuator(Punctuator::CloseBracket)) {
            Err(m) => Err(m),
            Ok(u) => Ok(Expression::Index(Box::new(IndexExpression { left, index }))),
        }
    }

    /// Consumes the next token as a binding name.
    fn expect_ident(&mut self) -> (r: Result<String, String>)
        requires
            old(self).wf(),
        ensures
            final(self).wf(),
            final(self).tokens == old(self).tokens,
            ({
                let peek = spec_cur(old(self).ks(), old(self).pos as int + 1);
                match r {
                    Ok(name) => peek is Ident && name@ == peek->Ident_0 && final(self).pos
                        == old(self).pos + 1,
                    Err(m) => !(peek is Ident) && m@ == spec_msg_invalid_ident(peek)
                        && final(self).pos == old(self).pos,
                }
            }),
    {
        if self.pos < self.tokens.len() && self.pos + 1 < self.tokens.len() {
            match &self.tokens[self.pos + 1].kind {
                TokenKind::Identifier(s) => {
                    let name = s.clone();
                    self.pos = self.pos + 1;
                    return Ok(name);
                },
                _ => {},
            }
        }
        let mut m = String::from_str("invalid identifier ");
        let c = self.peek_kind_string();
        m.append(c.as_str());
        Err(m)
    }

    /// A `let` statement: `let name = expression;`.
    fn parse_let_statement(&mut self, fuel: u64) -> (r: Result<Statement, String>)
        requires
            old(self).wf(),
        ensures
            final(self).wf(),
            final(self).tokens == old(self).tokens,
            ({
                let st = spec_parse_let(old(self).ks(), old(self).pos as int, fuel as nat);
                &&& final(self).pos == st.pos
                &&& match r {
                    Ok(s) => st.res is Ok && s@ == st.res->Ok_0,
                    Err(m) => st.res is Err && m@ == st.res->Err_0,
                }
            }),
        decreases fuel, 0int,
    {
        if fuel == 0 {
            return Err(self.depth_msg());
        }
        let name = match self.expect_ident() {
            Err(m) => {
                return Err(m);
            },
            Ok(n) => n,
        };
        match self.expect_peek(&TokenKind::Punctuator(Punctuator::Assign)) {
            Err(m) => {
                return Err(m);
            },
            Ok(u) => {},
        }
        self.next_token();
        let value = match self.parse_expression(Precedence::Lowest, fuel - 1) {
            Err(m) => {
                return Err(m);
            },
            Ok(v) => v,
        };
        if self.peek_token_is(&TokenKind::Punctuator(Punctuator::Semicolon)) {
            self.next_token();
        }
        Ok(Statement::Let(Box::new(LetStatement { name, value })))
    }

    /// A `return` statement: `return expression;`.
    fn parse_return_statement(&mut self, fuel: u64) -> (r: Result<Statement, String>)
        requires
            old(self).wf(),
            old(self).pos < old(self).tokens@.len(),
        ensures
            final(self).wf(),
            final(self).tokens == old(self).tokens,
            ({
                let st = spec_parse_return(old(self).ks(), old(self).pos as int, fuel as nat);
                &&& final(self).pos == st.pos
                &&& match r {
                    Ok(s) => st.res is Ok && s@ == st.res->Ok_0,
                    Err(m) => st.res is Err && m@ == st.res->Err_0,
                }
            }),
        decreases fuel, 0int,
    {
        if fuel == 0 {
            return Err(self.depth_msg());
        }
        self.next_token();
        let value = match self.parse_expression(Precedence::Lowest, fuel - 1) {
            Err(m) => {
                return Err(m);
            },
            Ok(v) => v,
        };
        if self.peek_token_is(&TokenKind::Punctuator(Punctuator::Semicolon)) {
            self.next_token();
        }
        Ok(Statement::Return(Box::new(ReturnStatement { value })))
    }

    /// An expression in statement position.
    fn parse_expression_statement(&mut self, fuel: u64) -> (r: Result<Statement, String>)
        requires
            old(self).wf(),
        ensures
            final(self).wf(),
            final(self).tokens == old(self).tokens,
            ({
                let st = spec_parse_expr_stmt(old(self).ks(), old(self).pos as int, fuel as nat);
                &&& final(self).pos == st.pos
                &&& match r {
                    Ok(s) => st.res is Ok && s@ == st.res->Ok_0,
                    Err(m) => st.res is Err && m@ == st.res->Err_0,
                }
            }),
        decreases fuel, 0int,
    {
        if fuel == 0 {
            return Err(self.depth_msg());
        }
        let expression = match self.parse_expression(Precedence::Lowest, fuel - 1) {
            Err(m) => {
                return Err(m);
            },
            Ok(e) => e,
        };
        if self.peek_token_is(&TokenKind::Punctuator(Punctuator::Semicolon)) {
            self.next_token();
        }
        Ok(Statement::Expression(Box::new(ExpressionStatement { expression })))
    }

    /// One statement, dispatched on the current token.
    fn parse_statement(&mut self, fuel: u64) -> (r: Result<Statement, String>)
        requires
            old(self).wf(),
        ensures
            final(self).wf(),
            final(self).tokens == old(self).tokens,
            ({
                let st = spec_parse_stmt(old(self).ks(), old(self).pos as int, fuel as nat);
                &&& final(self).pos == st.pos
                &&& match r {
                    Ok(s) => st.res is Ok && s@ == st.res->Ok_0,
                    Err(m) => st.res is Err && m@ == st.res->Err_0,
                }
            }),
        decreases fuel, 0int,
    {
        if fuel == 0 {
            return Err(self.depth_msg());
        }
        if self.cur_token_is(&TokenKind::Keyword(Keyword::Let)) {
            self.parse_let_statement(fuel - 1)
        } else if self.cur_token_is(&TokenKind::Keyword(Keyword::Return)) {
            self.parse_return_statement(fuel - 1)
        } else {
            self.parse_expression_statement(fuel - 1)
        }
    }

    /// A block: statements up to the closing brace or the end of the
    /// input; a statement that fails to parse is skipped.
    fn parse_block_statement(&mut self, fuel: u64) -> (r: Result<BlockStatement, String>)
        requires
            old(self).wf(),
        ensures
            final(self).wf(),
            final(self).tokens == old(self).tokens,
            ({
                let st = spec_parse_block(old(self).ks(), old(self).pos as int, fuel as nat);
                &&& final(self).pos == st.pos
                &&& match r {
                    Ok(b) => st.res is Ok && b@ == st.res->Ok_0,
                    Err(m) => st.res is Err && m@ == st.res->Err_0,
                }
            }),
        decreases fuel, 0int,
    {
        if fuel == 0 {
            return Err(self.depth_msg());
        }
        self.next_token();
        let mut statements: Vec<Statement> = Vec::new();
        proof {
            lemma_view_stmts_index(statements@, 0);
            assert(view_stmts(statements@, 0) =~= seq![]);
        }
        let ghost ks = self.ks();
        let ghost target = spec_parse_block_rest(
            ks,
            seq![],
            self.pos as int,
            (fuel - 1) as nat,
        );
        let mut f = fuel - 1;
        loop
            invariant
                self.wf(),
                self.tokens == old(self).tokens,
                ks == self.ks(),
                f <= fuel - 1,
                spec_parse_block_rest(ks, view_stmts(statements@, 0), self.pos as int, f as nat)
                    == target,
            decreases f,
        {
            if f == 0 {
                return Err(self.depth_msg());
            }
            if self.cur_token_is(&TokenKind::Punctuator(Punctuator::CloseBlock))
                || self.cur_token_is(&TokenKind::EOF) {
                return Ok(BlockStatement { statements });
            }
            match self.parse_statement(f - 1) {
                Ok(s) => {
                    let ghost before = view_stmts(statements@, 0);
                    let ghost oldstmts = statements@;
                    let ghost sv = s@;
                    statements.push(s);
                    proof {
                        lemma_view_stmts_index(statements@, 0);
                        lemma_view_stmts_index(oldstmts, 0);
                        assert(view_stmts(statements@, 0) =~= before.push(sv));
                    }
                },
                Err(m) => {
                    return Err(m);
                },
            }
            self.next_token();
            f = f - 1;
        }
    }

    /// Parses every statement of the source, collecting diagnostics and
    /// continuing after each failed statement; fails when any diagnostic
    /// was collected.
    pub fn parse_program(&mut self) -> (r: Result<Program, Vec<String>>)
        requires
            old(self).wf(),
        ensures
            final(self).wf(),
            ({
                let pr = spec_parse_program_rest(
                    old(self).ks(),
                    seq![],
                    seq![],
                    old(self).pos as int,
                    spec_parse_fuel(old(self).ks().len()),
                );
                match r {
                    Ok(p) => pr.errs.len() == 0 && p@.body == pr.body,
                    Err(es) => pr.errs.len() > 0 && view_strings(es@) == pr.errs,
                }
            }),
    {
        let n: u64 = self.tokens.len() as u64;
        let fuel: u64 = if n >= 0x0fff_ffff_ffff_ffffu64 {
            0xffff_ffff_ffff_ffffu64
        } else {
            8 * n + 64
        };
        proof {
            assert(fuel as nat == spec_parse_fuel(self.ks().len()));
        }
        let mut body: Vec<Statement> = Vec::new();
        let mut errors: Vec<String> = Vec::new();
        proof {
            lemma_view_stmts_index(body@, 0);
            assert(view_stmts(body@, 0) =~= seq![]);
            assert(view_strings(errors@) =~= seq![]);
        }
        let ghost ks = self.ks();
        let ghost target = spec_parse_program_rest(
            ks,
            seq![],
            seq![],
            self.pos as int,
            fuel as nat,
        );
        let mut f = fuel;
        loop
            invariant
                self.wf(),
                self.tokens == old(self).tokens,
                ks == self.ks(),
                f <= fuel,
                spec_parse_program_rest(
                    ks,
                    view_stmts(body@, 0),
                    view_strings(errors@),
                    self.pos as int,
                    f as nat,
                ) == target,
            decreases f,
        {
            if f == 0 {
                let m = self.depth_msg();
                let ghost before = view_strings(errors@);
                let ghost mv = m@;
                errors.push(m);
                proof {
                    assert(view_strings(errors@) =~= before.push(mv));
                }
                return Err(errors);
            }
            if self.cur_token_is(&TokenKind::EOF) {
                if errors.len() > 0 {
                    return Err(errors);
                }
                return Ok(Program { body });
            }
            match self.parse_statement(f - 1) {
                Ok(s) => {
                    let ghost before = view_stmts(body@, 0);
                    let ghost oldbody = body@;
                    let ghost sv = s@;
                    body.push(s);
                    proof {
                        lemma_view_stmts_index(body@, 0);
                        lemma_view_stmts_index(oldbody, 0);
                        assert(view_stmts(body@, 0) =~= before.push(sv));
                    }
                },
                Err(m) => {
                    let ghost before = view_strings(errors@);
                    let ghost mv = m@;
                    errors.push(m);
                    proof {
                        assert(view_strings(errors@) =~= before.push(mv));
                    }
                },
            }
            self.next_token();
            f = f - 1;
        }
    }
}

} // verus!
