//! Byte signatures: their text form, their tokens, and what it means for
//! one to match.
//!
//! A signature is written as tokens with one whitespace character between
//! neighbours. A token is either two hexadecimal digits, in either case,
//! standing for that byte, or a single `?`, standing for any byte:
//! `48 8D 0D ? ? ? ? E8`.

use vstd::prelude::*;
use vstd::string::StringSliceAdditionalSpecFns;

verus! {

/// The text of the wildcard token, `?`.
pub const WILDCARD: u8 = 0x3F;

/// The most tokens a signature may have and still be scanned for.
pub const MAX_TOKENS: usize = 1024;

/// One position of a signature.
#[derive(Clone, Copy, Debug, PartialEq, Eq, Structural)]
pub enum Token {
    /// Exactly this byte.
    Byte(u8),
    /// Any byte.
    Any,
}

impl Token {
    /// Whether the token lets `byte` stand at its position.
    pub open spec fn accepts(self, byte: u8) -> bool {
        match self {
            Token::Byte(b) => b == byte,
            Token::Any => true,
        }
    }

    /// Tests one byte against the token.
    pub fn admits(&self, byte: u8) -> (ok: bool)
        ensures
            ok == self.accepts(byte),
    {
        match self {
            Token::Byte(b) => *b == byte,
            Token::Any => true,
        }
    }
}

/// `0`-`9`, `a`-`f` or `A`-`F`, as ASCII.
pub open spec fn is_hex_digit(c: u8) -> bool {
    ||| 0x30 <= c <= 0x39
    ||| 0x41 <= c <= 0x46
    ||| 0x61 <= c <= 0x66
}

/// The number a hexadecimal digit stands for.
pub open spec fn hex_value(c: u8) -> int
    recommends
        is_hex_digit(c),
{
    if c <= 0x39 {
        c - 0x30
    } else if c <= 0x46 {
        c - 0x41 + 10
    } else {
        c - 0x61 + 10
    }
}

/// What may stand between two tokens: a space, a tab, a line feed, a form
/// feed or a carriage return.
pub open spec fn is_separator(c: u8) -> bool {
    c == 0x20 || c == 0x09 || c == 0x0A || c == 0x0C || c == 0x0D
}

/// How many bytes of `text` the token starting at `at` takes: 1 for a
/// wildcard, 2 for a byte, 0 where no token starts.
pub open spec fn token_width(text: Seq<u8>, at: int) -> int {
    if 0 <= at < text.len() && text[at] == WILDCARD {
        1
    } else if 0 <= at && at + 1 < text.len() && is_hex_digit(text[at]) && is_hex_digit(
        text[at + 1],
    ) {
        2
    } else {
        0
    }
}

/// The token that starts at `at`, where one does.
pub open spec fn token_at(text: Seq<u8>, at: int) -> Token
    recommends
        token_width(text, at) > 0,
{
    if text[at] == WILDCARD {
        Token::Any
    } else {
        Token::Byte((hex_value(text[at]) * 16 + hex_value(text[at + 1])) as u8)
    }
}

/// The tokens that `text` spells from `at` to its end, or `None` where the
/// rest of the text is not a signature.
pub open spec fn parse_from(text: Seq<u8>, at: int) -> Option<Seq<Token>>
    decreases text.len() - at,
{
    let width = token_width(text, at);
    if width == 0 {
        None
    } else if at + width == text.len() {
        Some(seq![token_at(text, at)])
    } else if !is_separator(text[at + width]) {
        None
    } else {
        match parse_from(text, at + width + 1) {
            Some(rest) => Some(seq![token_at(text, at)] + rest),
            None => None,
        }
    }
}

/// The tokens of a signature, or `None` for text outside the grammar.
pub open spec fn parse(text: Seq<u8>) -> Option<Seq<Token>> {
    parse_from(text, 0)
}

/// Whether `text` is a signature.
pub open spec fn is_valid_pattern(text: Seq<u8>) -> bool {
    parse(text) is Some
}

/// `tokens` put in front of what a parse of the rest gave.
pub open spec fn prepend(tokens: Seq<Token>, rest: Option<Seq<Token>>) -> Option<Seq<Token>> {
    match rest {
        Some(r) => Some(tokens + r),
        None => None,
    }
}

/// Whether the signature matches `image` at offset `at`: it fits between
/// `at` and the end, and every token accepts the byte under it.
pub open spec fn matches_at(image: Seq<u8>, tokens: Seq<Token>, at: int) -> bool {
    &&& 0 <= at
    &&& at + tokens.len() <= image.len()
    &&& forall|j: int| 0 <= j < tokens.len() ==> (#[trigger] tokens[j]).accepts(image[at + j])
}

/// Whether the signature matches nowhere in `image`.
pub open spec fn no_match(image: Seq<u8>, tokens: Seq<Token>) -> bool {
    forall|k: int| !matches_at(image, tokens, k)
}

/// Whether `at` is the lowest offset at which the signature matches.
pub open spec fn is_first_match(image: Seq<u8>, tokens: Seq<Token>, at: int) -> bool {
    &&& matches_at(image, tokens, at)
    &&& forall|k: int| 0 <= k < at ==> !matches_at(image, tokens, k)
}

/// What a scan for the signature in `image` finds: the lowest matching
/// offset, or nothing.
pub open spec fn is_scan_result(image: Seq<u8>, tokens: Seq<Token>, found: Option<usize>) -> bool {
    match found {
        Some(at) => is_first_match(image, tokens, at as int),
        None => no_match(image, tokens),
    }
}

/// A signature has at least one token.
pub proof fn lemma_token_count(text: Seq<u8>, at: int)
    ensures
        parse_from(text, at) matches Some(tokens) ==> tokens.len() >= 1,
    decreases text.len() - at,
{
    let width = token_width(text, at);
    if width > 0 && at + width < text.len() && is_separator(text[at + width]) {
        lemma_token_count(text, at + width + 1);
    }
}

fn hex_digit(c: u8) -> (value: Option<u8>)
    ensures
        value is Some <==> is_hex_digit(c),
        value matches Some(v) ==> v == hex_value(c),
{
    if 0x30 <= c && c <= 0x39 {
        Some(c - 0x30)
    } else if 0x41 <= c && c <= 0x46 {
        Some(c - 0x41 + 10)
    } else if 0x61 <= c && c <= 0x66 {
        Some(c - 0x61 + 10)
    } else {
        None
    }
}

fn separator(c: u8) -> (yes: bool)
    ensures
        yes == is_separator(c),
{
    c == 0x20 || c == 0x09 || c == 0x0A || c == 0x0C || c == 0x0D
}

/// Reads the token that starts at `at`, with its width.
fn read_token(text: &[u8], at: usize) -> (token: Option<(Token, usize)>)
    requires
        at <= text.len(),
    ensures
        token is Some <==> token_width(text@, at as int) > 0,
        token matches Some((t, w)) ==> t == token_at(text@, at as int) && w == token_width(
            text@,
            at as int,
        ),
{
    let n: usize = text.len();
    if at < n && text[at] == WILDCARD {
        return Some((Token::Any, 1));
    }
    if n - at < 2 {
        return None;
    }
    match (hex_digit(text[at]), hex_digit(text[at + 1])) {
        (Some(hi), Some(lo)) => Some((Token::Byte(hi * 16 + lo), 2)),
        _ => None,
    }
}

/// Turns the text of a signature into its tokens.
///
/// Returns `None` exactly for text that is not a signature.
pub fn compile_bytes(text: &[u8]) -> (tokens: Option<Vec<Token>>)
    ensures
        tokens is Some <==> is_valid_pattern(text@),
        tokens matches Some(t) ==> Some(t@) == parse(text@),
{
    let n: usize = text.len();
    let mut out: Vec<Token> = Vec::new();
    let mut at: usize = 0;
    loop
        invariant
            n == text.len(),
            at <= n,
            parse(text@) == prepend(out@, parse_from(text@, at as int)),
        decreases n - at,
    {
        let (token, width) = match read_token(text, at) {
            Some(read) => read,
            None => {
                return None;
            },
        };
        proof {
            let rest = parse_from(text@, at as int);
            let ghost_next = out@.push(token);
            if at + width < n && is_separator(text@[at + width]) {
                let tail = parse_from(text@, at + width + 1);
                assert(prepend(out@, rest) == prepend(ghost_next, tail)) by {
                    if let Some(r) = tail {
                        assert(out@ + (seq![token] + r) =~= ghost_next + r);
                    }
                }
            } else if at + width == n {
                assert(out@ + seq![token] =~= ghost_next);
            }
        }
        out.push(token);
        if at + width == n {
            return Some(out);
        }
        if !separator(text[at + width]) {
            return None;
        }
        at = at + width + 1;
    }
}

/// Turns a signature written as a string into its tokens.
///
/// Returns `None` exactly for a string that is not a signature.
pub fn compile(pattern: &str) -> (tokens: Option<Vec<Token>>)
    ensures
        tokens is Some <==> is_valid_pattern(pattern.spec_bytes()),
        tokens matches Some(t) ==> Some(t@) == parse(pattern.spec_bytes()),
{
    compile_bytes(pattern.as_bytes())
}

/// Whether a string is a signature.
pub fn is_valid(pattern: &str) -> (valid: bool)
    ensures
        valid == is_valid_pattern(pattern.spec_bytes()),
{
    compile_bytes(pattern.as_bytes()).is_some()
}

} // verus!
