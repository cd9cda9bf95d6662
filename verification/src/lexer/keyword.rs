//! The reserved words of the language.
use vstd::prelude::*;

use crate::text::str_eq;

verus! {

#[derive(Clone, Copy, PartialEq, Eq, Structural, Debug)]
pub enum Keyword {
    Function,
    Let,
    True,
    False,
    If,
    Else,
    Return,
}

/// The error returned when a string is not a reserved word.
#[derive(Debug, Clone, Copy)]
pub struct KeywordError;

impl KeywordError {
    /// The textual form of the error.
    pub fn string(&self) -> (r: String)
        ensures
            r@ == "invalid token"@,
    {
        String::from_str("invalid token")
    }
}

/// The source spelling of each reserved word.
pub open spec fn spec_keyword_str(k: Keyword) -> Seq<char> {
    match k {
        Keyword::Function => "fn"@,
        Keyword::Let => "let"@,
        Keyword::True => "true"@,
        Keyword::False => "false"@,
        Keyword::If => "if"@,
        Keyword::Else => "else"@,
        Keyword::Return => "return"@,
    }
}

/// The reserved word spelled by a string, if any.
pub open spec fn spec_keyword_of(s: Seq<char>) -> Option<Keyword> {
    if s == "fn"@ {
        Some(Keyword::Function)
    } else if s == "let"@ {
        Some(Keyword::Let)
    } else if s == "if"@ {
        Some(Keyword::If)
    } else if s == "else"@ {
        Some(Keyword::Else)
    } else if s == "true"@ {
        Some(Keyword::True)
    } else if s == "false"@ {
        Some(Keyword::False)
    } else if s == "return"@ {
        Some(Keyword::Return)
    } else {
        None
    }
}

impl Keyword {
    pub fn as_str(self) -> (r: &'static str)
        ensures
            r@ == spec_keyword_str(self),
    {
        match self {
            Keyword::Function => "fn",
            Keyword::Let => "let",
            Keyword::True => "true",
            Keyword::False => "false",
            Keyword::If => "if",
            Keyword::Else => "else",
            Keyword::Return => "return",
        }
    }

    /// Parses a reserved word from its source spelling.
    pub fn from_str(s: &str) -> (r: Result<Keyword, KeywordError>)
        ensures
            match spec_keyword_of(s@) {
                Some(k) => r == Ok::<Keyword, KeywordError>(k),
                None => r is Err,
            },
    {
        if str_eq(s, "fn") {
            Ok(Keyword::Function)
        } else if str_eq(s, "let") {
            Ok(Keyword::Let)
        } else if str_eq(s, "if") {
            Ok(Keyword::If)
        } else if str_eq(s, "else") {
            Ok(Keyword::Else)
        } else if str_eq(s, "true") {
            Ok(Keyword::True)
        } else if str_eq(s, "false") {
            Ok(Keyword::False)
        } else if str_eq(s, "return") {
            Ok(Keyword::Return)
        } else {
            Err(KeywordError)
        }
    }
}

} // verus!
