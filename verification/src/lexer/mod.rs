//! Lexical analysis: turns source text into a stream of tokens.
//!
//! The scanner consumes whitespace, then classifies the next character:
//! runs of letters and underscores become identifiers or keywords, runs of
//! digits become integer literals, a double quote starts a string literal,
//! and everything else is matched against the punctuator table (with a
//! one-character lookahead for the two-character punctuators). Unrecognized
//! characters become `ILLEGAL` tokens; the scanner never fails.
use vstd::prelude::*;

pub mod keyword;
pub mod op;
pub mod punctuator;
pub mod token;

use crate::lexer::keyword::Keyword;
use crate::lexer::punctuator::Punctuator;
use crate::lexer::token::{
    lookup_identifier, spec_lookup_identifier, KindV, Span, Token, TokenKind, TokenV,
};
use crate::text::{spec_char_utf8_len, spec_nat_str};

verus! {

/// The token kind of a run of identifier characters: reserved words
/// become keywords, except `true` and `false`, which normalize to boolean
/// literals so that the rest of the pipeline treats them uniformly.
pub open spec fn spec_ident_kind(s: Seq<char>) -> KindV {
    match spec_lookup_identifier(s) {
        KindV::Kw(Keyword::True) => KindV::Bool(true),
        KindV::Kw(Keyword::False) => KindV::Bool(false),
        k => k,
    }
}

/// Whether a character can appear in an identifier: a letter or `_`.
pub open spec fn is_letter_char(c: char) -> bool {
    ('a' as u32 <= c as u32 && c as u32 <= 'z' as u32) || ('A' as u32 <= c as u32 && c as u32
        <= 'Z' as u32) || c == '_'
}

/// Whether a character is a decimal digit.
pub open spec fn is_digit_char(c: char) -> bool {
    '0' as u32 <= c as u32 && c as u32 <= '9' as u32
}

/// Whether a character is whitespace the scanner skips.
pub open spec fn is_ws_char(c: char) -> bool {
    c == ' ' || c == '\t' || c == '\n' || c == '\r'
}

/// The numeric value of a digit character.
pub open spec fn digit_val(c: char) -> int {
    c as u32 - '0' as u32
}

/// One byte-position step: a character's encoded length is added, capped
/// at the machine's address range (unreachable for a real source text,
/// whose byte length already fits).
pub open spec fn spec_badd(b: nat, c: char) -> nat {
    if b + spec_char_utf8_len(c) > usize::MAX {
        usize::MAX as nat
    } else {
        (b + spec_char_utf8_len(c)) as nat
    }
}

/// The byte offset of character position `i` in the source: the summed
/// UTF-8 lengths of the characters before it.
pub open spec fn spec_byte_pos(src: Seq<char>, i: int) -> nat
    decreases i,
    when 0 <= i <= src.len()
{
    if i <= 0 {
        0
    } else {
        spec_badd(spec_byte_pos(src, i - 1), src[i - 1])
    }
}

/// The number of bytes of one character's UTF-8 encoding.
fn char_width(c: char) -> (w: usize)
    ensures
        w == spec_char_utf8_len(c),
{
    if (c as u32) < 0x80 {
        1
    } else if (c as u32) < 0x800 {
        2
    } else if (c as u32) < 0x10000 {
        3
    } else {
        4
    }
}

/// Advances a byte position past one character.
fn byte_add(b: usize, c: char) -> (r: usize)
    ensures
        r == spec_badd(b as nat, c),
{
    let w = char_width(c);
    if b > usize::MAX - w {
        usize::MAX
    } else {
        b + w
    }
}

fn is_letter(c: char) -> (r: bool)
    ensures
        r == is_letter_char(c),
{
    let u = c as u32;
    ('a' as u32 <= u && u <= 'z' as u32) || ('A' as u32 <= u && u <= 'Z' as u32) || c == '_'
}

fn is_digit(c: char) -> (r: bool)
    ensures
        r == is_digit_char(c),
{
    let u = c as u32;
    '0' as u32 <= u && u <= '9' as u32
}

fn is_ws(c: char) -> (r: bool)
    ensures
        r == is_ws_char(c),
{
    c == ' ' || c == '\t' || c == '\n' || c == '\r'
}

/// The position of the first non-whitespace character at or after `pos`.
pub open spec fn spec_skip_ws(src: Seq<char>, pos: int) -> int
    decreases src.len() - pos,
    when 0 <= pos <= src.len()
{
    if pos < src.len() && is_ws_char(src[pos]) {
        spec_skip_ws(src, pos + 1)
    } else {
        pos
    }
}

/// The position of the first character at or after `pos` that cannot
/// appear in an identifier.
pub open spec fn spec_scan_letters(src: Seq<char>, pos: int) -> int
    decreases src.len() - pos,
    when 0 <= pos <= src.len()
{
    if pos < src.len() && is_letter_char(src[pos]) {
        spec_scan_letters(src, pos + 1)
    } else {
        pos
    }
}

/// The position of the first non-digit character at or after `pos`.
pub open spec fn spec_scan_digits(src: Seq<char>, pos: int) -> int
    decreases src.len() - pos,
    when 0 <= pos <= src.len()
{
    if pos < src.len() && is_digit_char(src[pos]) {
        spec_scan_digits(src, pos + 1)
    } else {
        pos
    }
}

/// The position of the closing quote of a string literal whose body starts
/// at `pos`, skipping characters preceded by a backslash; the length of the
/// source if the literal is unterminated.
pub open spec fn spec_scan_string_end(src: Seq<char>, pos: int) -> int
    decreases src.len() - pos,
    when 0 <= pos <= src.len()
{
    if pos >= src.len() {
        src.len() as int
    } else if src[pos] == '"' {
        pos
    } else if src[pos] == '\\' && pos + 1 < src.len() {
        spec_scan_string_end(src, pos + 2)
    } else {
        spec_scan_string_end(src, pos + 1)
    }
}

/// The value of the run of digits in `src[pos..end]`, accumulated onto
/// `acc` most significant digit first.
pub open spec fn spec_digits_val(src: Seq<char>, pos: int, end: int, acc: nat) -> nat
    decreases end - pos,
    when pos <= end <= src.len()
{
    if pos >= end {
        acc
    } else {
        spec_digits_val(src, pos + 1, end, acc * 10 + digit_val(src[pos]) as nat)
    }
}

proof fn lemma_skip_ws_bounds(src: Seq<char>, pos: int)
    requires
        0 <= pos <= src.len(),
    ensures
        pos <= spec_skip_ws(src, pos) <= src.len(),
    decreases src.len() - pos,
{
    if pos < src.len() && is_ws_char(src[pos]) {
        lemma_skip_ws_bounds(src, pos + 1);
    }
}

proof fn lemma_scan_letters_bounds(src: Seq<char>, pos: int)
    requires
        0 <= pos <= src.len(),
    ensures
        pos <= spec_scan_letters(src, pos) <= src.len(),
    decreases src.len() - pos,
{
    if pos < src.len() && is_letter_char(src[pos]) {
        lemma_scan_letters_bounds(src, pos + 1);
    }
}

proof fn lemma_scan_digits_bounds(src: Seq<char>, pos: int)
    requires
        0 <= pos <= src.len(),
    ensures
        pos <= spec_scan_digits(src, pos) <= src.len(),
    decreases src.len() - pos,
{
    if pos < src.len() && is_digit_char(src[pos]) {
        lemma_scan_digits_bounds(src, pos + 1);
    }
}

proof fn lemma_scan_string_end_bounds(src: Seq<char>, pos: int)
    requires
        0 <= pos <= src.len(),
    ensures
        pos <= spec_scan_string_end(src, pos) <= src.len(),
    decreases src.len() - pos,
{
    if pos >= src.len() || src[pos] == '"' {
    } else if src[pos] == '\\' && pos + 1 < src.len() {
        lemma_scan_string_end_bounds(src, pos + 2);
    } else {
        lemma_scan_string_end_bounds(src, pos + 1);
    }
}

/// Every later digit only grows the accumulated value.
proof fn lemma_digits_val_lower(src: Seq<char>, pos: int, end: int, acc: nat)
    requires
        pos <= end <= src.len(),
    ensures
        spec_digits_val(src, pos, end, acc) >= acc,
    decreases end - pos,
{
    if pos < end {
        lemma_digits_val_lower(src, pos + 1, end, acc * 10 + digit_val(src[pos]) as nat);
    }
}

/// One step of the scanner: the kind, character range and successor
/// position of the token that starts at the first non-whitespace position
/// at or after `pos`; the byte span recorded on the token follows by
/// `spec_byte_pos`.
pub ghost struct LexStep {
    pub kind: KindV,
    pub start: int,
    pub end: int,
    pub next: int,
}

/// The single-character punctuator table, together with the two-character
/// lookahead rules for `==`, `!=`, `<=`, `>=`, `&&` and `||`.
pub open spec fn spec_punct_step(src: Seq<char>, p: int) -> LexStep
    recommends
        0 <= p < src.len(),
{
    let c = src[p];
    let two = p + 1 < src.len();
    if c == '=' {
        if two && src[p + 1] == '=' {
            LexStep { kind: KindV::Punct(Punctuator::Eq), start: p, end: p + 2, next: p + 2 }
        } else {
            LexStep { kind: KindV::Punct(Punctuator::Assign), start: p, end: p + 1, next: p + 1 }
        }
    } else if c == '!' {
        if two && src[p + 1] == '=' {
            LexStep { kind: KindV::Punct(Punctuator::NotEq), start: p, end: p + 2, next: p + 2 }
        } else {
            LexStep { kind: KindV::Punct(Punctuator::Not), start: p, end: p + 1, next: p + 1 }
        }
    } else if c == '<' {
        if two && src[p + 1] == '=' {
            LexStep {
                kind: KindV::Punct(Punctuator::LessThanOrEq),
                start: p,
                end: p + 2,
                next: p + 2,
            }
        } else {
            LexStep { kind: KindV::Punct(Punctuator::LessThan), start: p, end: p + 1, next: p + 1 }
        }
    } else if c == '>' {
        if two && src[p + 1] == '=' {
            LexStep {
                kind: KindV::Punct(Punctuator::GreaterThanOrEq),
                start: p,
                end: p + 2,
                next: p + 2,
            }
        } else {
            LexStep {
                kind: KindV::Punct(Punctuator::GreaterThan),
                start: p,
                end: p + 1,
                next: p + 1,
            }
        }
    } else if c == '&' && two && src[p + 1] == '&' {
        LexStep { kind: KindV::Punct(Punctuator::BoolAnd), start: p, end: p + 2, next: p + 2 }
    } else if c == '|' && two && src[p + 1] == '|' {
        LexStep { kind: KindV::Punct(Punctuator::BoolOr), start: p, end: p + 2, next: p + 2 }
    } else if c == '+' {
        LexStep { kind: KindV::Punct(Punctuator::Add), start: p, end: p + 1, next: p + 1 }
    } else if c == '-' {
        LexStep { kind: KindV::Punct(Punctuator::Sub), start: p, end: p + 1, next: p + 1 }
    } else if c == '*' {
        LexStep { kind: KindV::Punct(Punctuator::Mul), start: p, end: p + 1, next: p + 1 }
    } else if c == '/' {
        LexStep { kind: KindV::Punct(Punctuator::Div), start: p, end: p + 1, next: p + 1 }
    } else if c == ';' {
        LexStep { kind: KindV::Punct(Punctuator::Semicolon), start: p, end: p + 1, next: p + 1 }
    } else if c == ',' {
        LexStep { kind: KindV::Punct(Punctuator::Comma), start: p, end: p + 1, next: p + 1 }
    } else if c == '{' {
        LexStep { kind: KindV::Punct(Punctuator::OpenBlock), start: p, end: p + 1, next: p + 1 }
    } else if c == '}' {
        LexStep { kind: KindV::Punct(Punctuator::CloseBlock), start: p, end: p + 1, next: p + 1 }
    } else if c == '(' {
        LexStep { kind: KindV::Punct(Punctuator::OpenParen), start: p, end: p + 1, next: p + 1 }
    } else if c == ')' {
        LexStep { kind: KindV::Punct(Punctuator::CloseParen), start: p, end: p + 1, next: p + 1 }
    } else if c == ':' {
        LexStep { kind: KindV::Punct(Punctuator::Colon), start: p, end: p + 1, next: p + 1 }
    } else if c == '[' {
        LexStep { kind: KindV::Punct(Punctuator::OpenBracket), start: p, end: p + 1, next: p + 1 }
    } else if c == ']' {
        LexStep { kind: KindV::Punct(Punctuator::CloseBracket), start: p, end: p + 1, next: p + 1 }
    } else {
        LexStep { kind: KindV::Illegal, start: p, end: p + 1, next: p + 1 }
    }
}

/// The token produced by one call of `next_token` at position `pos`, and
/// the position the scanner advances to.
pub open spec fn spec_next_token(src: Seq<char>, pos: int) -> LexStep
    recommends
        0 <= pos <= src.len(),
{
    let p = spec_skip_ws(src, pos);
    if p >= src.len() {
        LexStep { kind: KindV::Eof, start: p, end: p, next: p }
    } else {
        let c = src[p];
        if is_letter_char(c) {
            let e = spec_scan_letters(src, p);
            LexStep { kind: spec_ident_kind(src.subrange(p, e)), start: p, end: e, next: e }
        } else if is_digit_char(c) {
            let e = spec_scan_digits(src, p);
            let v = spec_digits_val(src, p, e, 0);
            if v <= i64::MAX {
                LexStep { kind: KindV::Num(v as i64), start: p, end: e, next: e }
            } else {
                LexStep { kind: KindV::Illegal, start: p, end: e, next: e }
            }
        } else if c == '"' {
            let e = spec_scan_string_end(src, p + 1);
            if e < src.len() {
                LexStep {
                    kind: KindV::Str(src.subrange(p + 1, e)),
                    start: p,
                    end: e + 1,
                    next: e + 1,
                }
            } else {
                LexStep { kind: KindV::Illegal, start: p, end: src.len() as int, next: src.len() as int }
            }
        } else {
            spec_punct_step(src, p)
        }
    }
}

/// The scanner always stays inside the source, and advances whenever it
/// does not report the end of the input.
pub proof fn lemma_next_token_advances(src: Seq<char>, pos: int)
    requires
        0 <= pos <= src.len(),
    ensures
        pos <= spec_next_token(src, pos).next <= src.len(),
        !(spec_next_token(src, pos).kind is Eof) ==> spec_next_token(src, pos).next > pos,
{
    lemma_skip_ws_bounds(src, pos);
    let p = spec_skip_ws(src, pos);
    if p < src.len() {
        let c = src[p];
        if is_letter_char(c) {
            lemma_scan_letters_bounds(src, p + 1);
            assert(spec_scan_letters(src, p) == spec_scan_letters(src, p + 1));
        } else if is_digit_char(c) {
            lemma_scan_digits_bounds(src, p + 1);
            assert(spec_scan_digits(src, p) == spec_scan_digits(src, p + 1));
        } else if c == '"' {
            lemma_scan_string_end_bounds(src, p + 1);
        }
    }
}

/// The scanned value depends only on the characters in the scanned range.
proof fn lemma_digits_val_congruence(t1: Seq<char>, t2: Seq<char>, i: int, end: int, acc: nat)
    requires
        0 <= i <= end,
        end <= t1.len(),
        end <= t2.len(),
        forall|j: int| i <= j < end ==> t1[j] == t2[j],
    ensures
        spec_digits_val(t1, i, end, acc) == spec_digits_val(t2, i, end, acc),
    decreases end - i,
{
    if i < end {
        lemma_digits_val_congruence(t1, t2, i + 1, end, acc * 10 + digit_val(t1[i]) as nat);
    }
}

/// Scanning one more digit multiplies the value by ten and adds it.
proof fn lemma_digits_val_snoc(t: Seq<char>, i: int, n: int, acc: nat)
    requires
        0 <= i <= n,
        n < t.len(),
    ensures
        spec_digits_val(t, i, n + 1, acc) == spec_digits_val(t, i, n, acc) * 10 + digit_val(
            t[n],
        ) as nat,
    decreases n - i,
{
    if i < n {
        lemma_digits_val_snoc(t, i + 1, n, acc * 10 + digit_val(t[i]) as nat);
    } else {
        let step = acc * 10 + digit_val(t[n]) as nat;
        assert(spec_digits_val(t, n + 1, n + 1, step) == step);
        assert(spec_digits_val(t, n, n, acc) == acc);
    }
}

/// Law: scanning the decimal rendering of a number yields the number back:
/// the rendering consists of digits alone, and its scanned value is the
/// rendered value. Together with the scanner's contract this makes the
/// canonical form of an integer a fixed point of rendering and re-lexing.
pub proof fn lemma_digits_val_inverts_nat_str(v: nat)
    ensures
        spec_nat_str(v).len() >= 1,
        forall|i: int|
            0 <= i < spec_nat_str(v).len() ==> is_digit_char(#[trigger] spec_nat_str(v)[i]),
        spec_digits_val(spec_nat_str(v), 0, spec_nat_str(v).len() as int, 0) == v,
    decreases v,
{
    let s = spec_nat_str(v);
    if v < 10 {
        assert(s =~= seq![crate::text::digit_char(v as int)]);
        assert(spec_digits_val(s, 1, 1, digit_val(s[0]) as nat) == digit_val(s[0]) as nat);
        assert(spec_digits_val(s, 0, 1, 0) == digit_val(s[0]));
    } else {
        lemma_digits_val_inverts_nat_str(v / 10);
        let p = spec_nat_str(v / 10);
        let n = p.len() as int;
        assert(s =~= p + seq![crate::text::digit_char((v % 10) as int)]);
        assert(forall|j: int| 0 <= j < n ==> s[j] == p[j]);
        lemma_digits_val_congruence(s, p, 0, n, 0);
        lemma_digits_val_snoc(s, 0, n, 0);
        assert(digit_val(s[n]) as nat == v % 10);
        assert(spec_digits_val(s, 0, n + 1, 0) == (v / 10) * 10 + v % 10);
    }
}

/// A run of digits scans to the end of the run.
pub proof fn lemma_scan_digits_all(src: Seq<char>, pos: int)
    requires
        0 <= pos <= src.len(),
        forall|i: int| pos <= i < src.len() ==> is_digit_char(#[trigger] src[i]),
    ensures
        spec_scan_digits(src, pos) == src.len(),
    decreases src.len() - pos,
{
    if pos < src.len() {
        lemma_scan_digits_all(src, pos + 1);
    }
}

/// The decimal rendering of a non-negative machine integer lexes to
/// exactly one numeric token carrying that integer.
pub proof fn lemma_lex_integer(n: i64)
    requires
        0 <= n,
    ensures
        spec_tokens(spec_nat_str(n as nat), 0) =~= seq![
            TokenV {
                kind: KindV::Num(n),
                span: Span {
                    start: 0,
                    end: spec_byte_pos(
                        spec_nat_str(n as nat),
                        spec_nat_str(n as nat).len() as int,
                    ) as usize,
                },
            },
        ],
{
    let s = spec_nat_str(n as nat);
    lemma_digits_val_inverts_nat_str(n as nat);
    assert(!is_ws_char(s[0]));
    assert(!is_letter_char(s[0]));
    assert(spec_skip_ws(s, 0) == 0);
    lemma_scan_digits_all(s, 0);
    let st = spec_next_token(s, 0);
    assert(st.kind == KindV::Num(n));
    assert(st.next == s.len());
    assert(spec_skip_ws(s, s.len() as int) == s.len());
    assert(spec_next_token(s, s.len() as int).kind is Eof);
    assert(spec_tokens(s, s.len() as int) =~= Seq::<TokenV>::empty());
}

/// A run of identifier characters scans to the end of the run.
pub proof fn lemma_scan_letters_all(src: Seq<char>, pos: int)
    requires
        0 <= pos <= src.len(),
        forall|i: int| pos <= i < src.len() ==> is_letter_char(#[trigger] src[i]),
    ensures
        spec_scan_letters(src, pos) == src.len(),
    decreases src.len() - pos,
{
    if pos < src.len() {
        lemma_scan_letters_all(src, pos + 1);
    }
}

/// A source text that is one run of identifier characters, spelling no
/// reserved word, lexes to exactly one identifier token covering it.
pub proof fn lemma_lex_identifier(s: Seq<char>)
    requires
        1 <= s.len() <= usize::MAX,
        forall|i: int| 0 <= i < s.len() ==> is_letter_char(#[trigger] s[i]),
        crate::lexer::token::spec_keyword_of_source(s) is None,
    ensures
        spec_tokens(s, 0) =~= seq![
            TokenV {
                kind: KindV::Ident(s),
                span: Span { start: 0, end: spec_byte_pos(s, s.len() as int) as usize },
            },
        ],
{
    assert(!is_ws_char(s[0]));
    assert(spec_skip_ws(s, 0) == 0);
    lemma_scan_letters_all(s, 0);
    assert(s.subrange(0, s.len() as int) =~= s);
    let st = spec_next_token(s, 0);
    assert(st.kind == KindV::Ident(s));
    assert(st.next == s.len());
    assert(spec_skip_ws(s, s.len() as int) == s.len());
    assert(spec_next_token(s, s.len() as int).kind is Eof);
    assert(spec_tokens(s, s.len() as int) =~= Seq::<TokenV>::empty());
}

/// The token stream of the whole source from `pos` on, excluding the final
/// end-of-input token.
pub open spec fn spec_tokens(src: Seq<char>, pos: int) -> Seq<TokenV>
    decreases src.len() - pos,
    when 0 <= pos <= src.len()
{
    let st = spec_next_token(src, pos);
    if st.kind is Eof {
        seq![]
    } else if !(pos < st.next <= src.len()) {
        seq![]
    } else {
        seq![
            TokenV {
                kind: st.kind,
                span: Span {
                    start: spec_byte_pos(src, st.start) as usize,
                    end: spec_byte_pos(src, st.end) as usize,
                },
            },
        ] + spec_tokens(src, st.next)
    }
}

/// A scanner over the characters of one source text. `pos` is the index
/// of the next character to examine and `bpos` its byte offset.
pub struct Lexer<'a> {
    pub input: &'a str,
    pub pos: usize,
    pub bpos: usize,
}

impl<'a> Lexer<'a> {
    pub open spec fn wf(&self) -> bool {
        &&& self.pos <= self.input@.len()
        &&& self.bpos == spec_byte_pos(self.input@, self.pos as int)
    }

    /// Creates a lexer positioned at the start of the source text.
    pub fn new(input: &'a str) -> (r: Lexer<'a>)
        ensures
            r.wf(),
            r.input@ == input@,
            r.pos == 0,
    {
        Lexer { input, pos: 0, bpos: 0 }
    }

    /// Consumes whitespace and then exactly one token, advancing the
    /// cursor. At the end of the input it keeps returning `EOF`.
    pub fn next_token(&mut self) -> (r: Token)
        requires
            old(self).wf(),
        ensures
            final(self).wf(),
            final(self).input@ == old(self).input@,
            ({
                let st = spec_next_token(old(self).input@, old(self).pos as int);
                &&& r@.kind == st.kind
                &&& r@.span.start == spec_byte_pos(old(self).input@, st.start)
                &&& r@.span.end == spec_byte_pos(old(self).input@, st.end)
                &&& final(self).pos == st.next
            }),
    {
        let src = self.input;
        let ghost gsrc = src@;
        let len = src.unicode_len();
        while self.pos < len && is_ws(src.get_char(self.pos))
            invariant
                self.pos <= len,
                self.input@ == gsrc,
                len == gsrc.len(),
                self.bpos == spec_byte_pos(gsrc, self.pos as int),
                spec_skip_ws(gsrc, old(self).pos as int) == spec_skip_ws(gsrc, self.pos as int),
            decreases len - self.pos,
        {
            self.bpos = byte_add(self.bpos, src.get_char(self.pos));
            self.pos = self.pos + 1;
        }
        let p = self.pos;
        let bstart = self.bpos;
        if p >= len {
            return Token::new(TokenKind::eof(), Span { start: bstart, end: bstart });
        }
        let c = src.get_char(p);
        if is_letter(c) {
            let mut e = p;
            let mut be = bstart;
            while e < len && is_letter(src.get_char(e))
                invariant
                    p <= e <= len,
                    be == spec_byte_pos(gsrc, e as int),
                    spec_scan_letters(gsrc, p as int) == spec_scan_letters(gsrc, e as int),
                    forall|j: int| p <= j < e ==> is_letter_char(gsrc[j]),
                decreases len - e,
            {
                be = byte_add(be, src.get_char(e));
                e = e + 1;
            }
            let text = src.substring_char(p, e);
            self.pos = e;
            self.bpos = be;
            let kind = match lookup_identifier(text) {
                TokenKind::Keyword(Keyword::True) => TokenKind::boolean_literal(true),
                TokenKind::Keyword(Keyword::False) => TokenKind::boolean_literal(false),
                k => k,
            };
            Token::new(kind, Span { start: bstart, end: be })
        } else if is_digit(c) {
            let mut e = p;
            let mut be = bstart;
            let mut acc: u64 = 0;
            let mut overflow = false;
            let ghost gend = spec_scan_digits(gsrc, p as int);
            proof {
                lemma_scan_digits_bounds(gsrc, p as int);
            }
            while e < len && is_digit(src.get_char(e))
                invariant
                    p <= e <= len,
                    be == spec_byte_pos(gsrc, e as int),
                    spec_scan_digits(gsrc, p as int) == spec_scan_digits(gsrc, e as int),
                    gend == spec_scan_digits(gsrc, p as int),
                    e <= gend,
                    acc <= i64::MAX,
                    !overflow ==> spec_digits_val(gsrc, p as int, gend, 0) == spec_digits_val(
                        gsrc,
                        e as int,
                        gend,
                        acc as nat,
                    ),
                    overflow ==> spec_digits_val(gsrc, p as int, gend, 0) > i64::MAX,
                decreases len - e,
            {
                proof {
                    lemma_scan_digits_bounds(gsrc, e as int + 1);
                }
                let d = (src.get_char(e) as u32 as u64) - ('0' as u32 as u64);
                if !overflow {
                    if acc > 922337203685477580u64 || acc * 10 > (9223372036854775807u64 - d) {
                        proof {
                            lemma_digits_val_lower(
                                gsrc,
                                e as int + 1,
                                gend,
                                acc as nat * 10 + d as nat,
                            );
                        }
                        overflow = true;
                    } else {
                        acc = acc * 10 + d;
                    }
                }
                be = byte_add(be, src.get_char(e));
                e = e + 1;
            }
            proof {
                assert(e == gend);
            }
            self.pos = e;
            self.bpos = be;
            if overflow {
                Token::new(TokenKind::ILLEGAL, Span { start: bstart, end: be })
            } else {
                Token::new(
                    TokenKind::numeric_literal(acc as i64),
                    Span { start: bstart, end: be },
                )
            }
        } else if c == '"' {
            let mut e = p + 1;
            let mut be = byte_add(bstart, c);
            while e < len && !(src.get_char(e) == '"')
                invariant
                    p + 1 <= e <= len,
                    be == spec_byte_pos(gsrc, e as int),
                    spec_scan_string_end(gsrc, p as int + 1) == spec_scan_string_end(
                        gsrc,
                        e as int,
                    ),
                decreases len - e,
            {
                let ch = src.get_char(e);
                if ch == '\\' && e + 1 < len {
                    proof {
                        assert(spec_byte_pos(gsrc, e as int + 1) == spec_badd(
                            spec_byte_pos(gsrc, e as int),
                            gsrc[e as int],
                        ));
                        assert(spec_byte_pos(gsrc, e as int + 2) == spec_badd(
                            spec_byte_pos(gsrc, e as int + 1),
                            gsrc[e as int + 1],
                        ));
                    }
                    be = byte_add(byte_add(be, ch), src.get_char(e + 1));
                    e = e + 2;
                } else {
                    be = byte_add(be, ch);
                    e = e + 1;
                }
            }
            if e < len {
                let text = src.substring_char(p + 1, e);
                let bend = byte_add(be, src.get_char(e));
                self.pos = e + 1;
                self.bpos = bend;
                Token::new(TokenKind::string_literal(text), Span { start: bstart, end: bend })
            } else {
                self.pos = len;
                self.bpos = be;
                Token::new(TokenKind::ILLEGAL, Span { start: bstart, end: be })
            }
        } else {
            let two = p + 1 < len;
            let (kind, w): (TokenKind, usize) = if c == '=' {
                if two && src.get_char(p + 1) == '=' {
                    (TokenKind::punctuator(Punctuator::Eq), 2)
                } else {
                    (TokenKind::punctuator(Punctuator::Assign), 1)
                }
            } else if c == '!' {
                if two && src.get_char(p + 1) == '=' {
                    (TokenKind::punctuator(Punctuator::NotEq), 2)
                } else {
                    (TokenKind::punctuator(Punctuator::Not), 1)
                }
            } else if c == '<' {
                if two && src.get_char(p + 1) == '=' {
                    (TokenKind::punctuator(Punctuator::LessThanOrEq), 2)
                } else {
                    (TokenKind::punctuator(Punctuator::LessThan), 1)
                }
            } else if c == '>' {
                if two && src.get_char(p + 1) == '=' {
                    (TokenKind::punctuator(Punctuator::GreaterThanOrEq), 2)
                } else {
                    (TokenKind::punctuator(Punctuator::GreaterThan), 1)
                }
            } else if c == '&' && two && src.get_char(p + 1) == '&' {
                (TokenKind::punctuator(Punctuator::BoolAnd), 2)
            } else if c == '|' && two && src.get_char(p + 1) == '|' {
                (TokenKind::punctuator(Punctuator::BoolOr), 2)
            } else if c == '+' {
                (TokenKind::punctuator(Punctuator::Add), 1)
            } else if c == '-' {
                (TokenKind::punctuator(Punctuator::Sub), 1)
            } else if c == '*' {
                (TokenKind::punctuator(Punctuator::Mul), 1)
            } else if c == '/' {
                (TokenKind::punctuator(Punctuator::Div), 1)
            } else if c == ';' {
                (TokenKind::punctuator(Punctuator::Semicolon), 1)
            } else if c == ',' {
                (TokenKind::punctuator(Punctuator::Comma), 1)
            } else if c == '{' {
                (TokenKind::punctuator(Punctuator::OpenBlock), 1)
            } else if c == '}' {
                (TokenKind::punctuator(Punctuator::CloseBlock), 1)
            } else if c == '(' {
                (TokenKind::punctuator(Punctuator::OpenParen), 1)
            } else if c == ')' {
                (TokenKind::punctuator(Punctuator::CloseParen), 1)
            } else if c == ':' {
                (TokenKind::punctuator(Punctuator::Colon), 1)
            } else if c == '[' {
                (TokenKind::punctuator(Punctuator::OpenBracket), 1)
            } else if c == ']' {
                (TokenKind::punctuator(Punctuator::CloseBracket), 1)
            } else {
                (TokenKind::ILLEGAL, 1)
            };
            let bend = if w == 2 {
                proof {
                    assert(spec_byte_pos(gsrc, p as int + 1) == spec_badd(
                        spec_byte_pos(gsrc, p as int),
                        gsrc[p as int],
                    ));
                    assert(spec_byte_pos(gsrc, p as int + 2) == spec_badd(
                        spec_byte_pos(gsrc, p as int + 1),
                        gsrc[p as int + 1],
                    ));
                }
                byte_add(byte_add(bstart, c), src.get_char(p + 1))
            } else {
                byte_add(bstart, c)
            };
            self.pos = p + w;
            self.bpos = bend;
            Token::new(kind, Span { start: bstart, end: bend })
        }
    }
}

} // verus!
