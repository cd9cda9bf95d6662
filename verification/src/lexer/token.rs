//! Tokens: the smallest lexical units, each with a kind and a source span.
use vstd::prelude::*;

use crate::lexer::keyword::{spec_keyword_str, Keyword};
use crate::lexer::punctuator::{spec_punct_str, Punctuator};
use crate::text::{bool_string, i64_string, spec_bool_str, spec_i64_str, str_eq};

verus! {

/// A half-open range of byte positions in the source text.
#[derive(Clone, Copy, PartialEq, Eq, Structural, Debug)]
pub struct Span {
    pub start: usize,
    pub end: usize,
}

#[derive(PartialEq, Eq, Debug)]
pub enum Numeric {
    Integer(i64),
}

#[derive(PartialEq, Eq, Debug)]
pub enum TokenKind {
    BooleanLiteral(bool),
    EOF,
    Identifier(String),
    Keyword(Keyword),
    Punctuator(Punctuator),
    NumericLiteral(Numeric),
    StringLiteral(String),
    ILLEGAL,
}

/// The mathematical model of a token kind: strings are sequences of
/// characters, everything else is carried over unchanged.
#[verifier::ext_equal]
pub ghost enum KindV {
    Bool(bool),
    Eof,
    Ident(Seq<char>),
    Kw(Keyword),
    Punct(Punctuator),
    Num(i64),
    Str(Seq<char>),
    Illegal,
}

impl View for TokenKind {
    type V = KindV;

    open spec fn view(&self) -> KindV {
        match self {
            TokenKind::BooleanLiteral(b) => KindV::Bool(*b),
            TokenKind::EOF => KindV::Eof,
            TokenKind::Identifier(s) => KindV::Ident(s@),
            TokenKind::Keyword(k) => KindV::Kw(*k),
            TokenKind::Punctuator(p) => KindV::Punct(*p),
            TokenKind::NumericLiteral(Numeric::Integer(n)) => KindV::Num(*n),
            TokenKind::StringLiteral(s) => KindV::Str(s@),
            TokenKind::ILLEGAL => KindV::Illegal,
        }
    }
}

pub struct Token {
    pub kind: TokenKind,
    pub span: Span,
}

/// The mathematical model of a token.
#[verifier::ext_equal]
pub ghost struct TokenV {
    pub kind: KindV,
    pub span: Span,
}

impl View for Token {
    type V = TokenV;

    open spec fn view(&self) -> TokenV {
        TokenV { kind: self.kind@, span: self.span }
    }
}

impl Token {
    /// Creates a new token from its kind and source span.
    pub fn new(kind: TokenKind, span: Span) -> (r: Self)
        ensures
            r@ == (TokenV { kind: kind@, span }),
    {
        Self { kind, span }
    }

    /// Gets the kind of the token.
    pub fn kind(&self) -> (r: &TokenKind)
        ensures
            r@ == self@.kind,
    {
        &self.kind
    }

    /// Gets the token span in the original source code.
    pub fn span(&self) -> (r: Span)
        ensures
            r == self@.span,
    {
        self.span
    }
}

impl TokenKind {
    /// Creates a `BooleanLiteral` token kind.
    pub fn boolean_literal(lit: bool) -> (r: Self)
        ensures
            r@ == KindV::Bool(lit),
    {
        Self::BooleanLiteral(lit)
    }

    /// Creates an `EOF` token kind.
    pub fn eof() -> (r: Self)
        ensures
            r@ == KindV::Eof,
    {
        Self::EOF
    }

    /// Creates an `Identifier` token kind.
    pub fn identifier(ident: &str) -> (r: Self)
        ensures
            r@ == KindV::Ident(ident@),
    {
        Self::Identifier(String::from_str(ident))
    }

    /// Creates a `Keyword` token kind.
    pub fn keyword(keyword: Keyword) -> (r: Self)
        ensures
            r@ == KindV::Kw(keyword),
    {
        Self::Keyword(keyword)
    }

    /// Creates a `NumericLiteral` token kind.
    pub fn numeric_literal(lit: i64) -> (r: Self)
        ensures
            r@ == KindV::Num(lit),
    {
        Self::NumericLiteral(Numeric::Integer(lit))
    }

    /// Creates a `Punctuator` token kind.
    pub fn punctuator(punc: Punctuator) -> (r: Self)
        ensures
            r@ == KindV::Punct(punc),
    {
        Self::Punctuator(punc)
    }

    /// Creates a `StringLiteral` token kind.
    pub fn string_literal(lit: &str) -> (r: Self)
        ensures
            r@ == KindV::Str(lit@),
    {
        Self::StringLiteral(String::from_str(lit))
    }
}

/// The display form of a token kind, as used in diagnostics.
pub open spec fn spec_kind_str(k: KindV) -> Seq<char> {
    match k {
        KindV::Bool(b) => spec_bool_str(b),
        KindV::Eof => "end of file"@,
        KindV::Ident(s) => s,
        KindV::Kw(w) => spec_keyword_str(w),
        KindV::Num(n) => spec_i64_str(n),
        KindV::Str(s) => s,
        KindV::Punct(p) => spec_punct_str(p),
        KindV::Illegal => "ILLEGAL"@,
    }
}

impl TokenKind {
    /// The display form of the token kind.
    pub fn string(&self) -> (r: String)
        ensures
            r@ == spec_kind_str(self@),
    {
        match self {
            TokenKind::BooleanLiteral(b) => bool_string(*b),
            TokenKind::EOF => String::from_str("end of file"),
            TokenKind::Identifier(s) => s.clone(),
            TokenKind::Keyword(w) => String::from_str(w.as_str()),
            TokenKind::NumericLiteral(Numeric::Integer(n)) => i64_string(*n),
            TokenKind::StringLiteral(s) => s.clone(),
            TokenKind::Punctuator(p) => String::from_str(p.as_str()),
            TokenKind::ILLEGAL => String::from_str("ILLEGAL"),
        }
    }
}

impl TokenKind {
    /// A structural copy of the token kind, equal to it in the model.
    pub fn duplicate(&self) -> (r: TokenKind)
        ensures
            r@ == self@,
    {
        match self {
            TokenKind::BooleanLiteral(b) => TokenKind::BooleanLiteral(*b),
            TokenKind::EOF => TokenKind::EOF,
            TokenKind::Identifier(s) => TokenKind::Identifier(s.clone()),
            TokenKind::Keyword(k) => TokenKind::Keyword(*k),
            TokenKind::Punctuator(p) => TokenKind::Punctuator(*p),
            TokenKind::NumericLiteral(Numeric::Integer(n)) => TokenKind::NumericLiteral(
                Numeric::Integer(*n),
            ),
            TokenKind::StringLiteral(s) => TokenKind::StringLiteral(s.clone()),
            TokenKind::ILLEGAL => TokenKind::ILLEGAL,
        }
    }
}

/// Decides equality of two token kinds at the level of their models.
pub fn kind_eq(a: &TokenKind, b: &TokenKind) -> (r: bool)
    ensures
        r == (a@ == b@),
{
    match (a, b) {
        (TokenKind::BooleanLiteral(x), TokenKind::BooleanLiteral(y)) => x == y,
        (TokenKind::EOF, TokenKind::EOF) => true,
        (TokenKind::Identifier(x), TokenKind::Identifier(y)) => x.eq(y),
        (TokenKind::Keyword(x), TokenKind::Keyword(y)) => x == y,
        (TokenKind::Punctuator(x), TokenKind::Punctuator(y)) => x == y,
        (
            TokenKind::NumericLiteral(Numeric::Integer(x)),
            TokenKind::NumericLiteral(Numeric::Integer(y)),
        ) => x == y,
        (TokenKind::StringLiteral(x), TokenKind::StringLiteral(y)) => x.eq(y),
        (TokenKind::ILLEGAL, TokenKind::ILLEGAL) => true,
        _ => {
            assert(a@ != b@);
            false
        },
    }
}

/// The token kind denoted by a run of identifier characters: a keyword for
/// the reserved words, an identifier otherwise.
pub open spec fn spec_lookup_identifier(s: Seq<char>) -> KindV {
    match spec_keyword_of_source(s) {
        Some(k) => KindV::Kw(k),
        None => KindV::Ident(s),
    }
}

/// The reserved word spelled by a run of identifier characters, if any,
/// in the order the scanner tries them.
pub open spec fn spec_keyword_of_source(s: Seq<char>) -> Option<Keyword> {
    if s == "fn"@ {
        Some(Keyword::Function)
    } else if s == "let"@ {
        Some(Keyword::Let)
    } else if s == "true"@ {
        Some(Keyword::True)
    } else if s == "false"@ {
        Some(Keyword::False)
    } else if s == "if"@ {
        Some(Keyword::If)
    } else if s == "else"@ {
        Some(Keyword::Else)
    } else if s == "return"@ {
        Some(Keyword::Return)
    } else {
        None
    }
}

pub fn lookup_identifier(identifier: &str) -> (r: TokenKind)
    ensures
        r@ == spec_lookup_identifier(identifier@),
{
    if str_eq(identifier, "fn") {
        TokenKind::Keyword(Keyword::Function)
    } else if str_eq(identifier, "let") {
        TokenKind::Keyword(Keyword::Let)
    } else if str_eq(identifier, "true") {
        TokenKind::Keyword(Keyword::True)
    } else if str_eq(identifier, "false") {
        TokenKind::Keyword(Keyword::False)
    } else if str_eq(identifier, "if") {
        TokenKind::Keyword(Keyword::If)
    } else if str_eq(identifier, "else") {
        TokenKind::Keyword(Keyword::Else)
    } else if str_eq(identifier, "return") {
        TokenKind::Keyword(Keyword::Return)
    } else {
        TokenKind::identifier(identifier)
    }
}

} // verus!
