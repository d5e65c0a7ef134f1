//! The lexer: whitespace and comments (kept as trivia), punctuation,
//! identifiers and keywords, integer and duration literals, and string
//! literals with escapes. It works on the UTF-8 bytes of the source; every
//! byte index it reports is a byte offset into the source.
use vstd::prelude::*;
use vstd::string::StringSliceAdditionalSpecFns;

verus! {

// ───────────────────────────── byte classes ────────────────────────────────

/// Space, tab, carriage return or line feed.
pub open spec fn is_ws_byte(b: u8) -> bool {
    b == 32 || b == 9 || b == 13 || b == 10
}

/// `0`–`9`.
pub open spec fn is_digit_byte(b: u8) -> bool {
    48 <= b <= 57
}

/// `A`–`Z` or `a`–`z`.
pub open spec fn is_alpha_byte(b: u8) -> bool {
    (65 <= b <= 90) || (97 <= b <= 122)
}

/// A hexadecimal digit.
pub open spec fn is_hex_byte(b: u8) -> bool {
    is_digit_byte(b) || (65 <= b <= 70) || (97 <= b <= 102)
}

/// An identifier may start with a letter or `_`.
pub open spec fn ident_start_byte(b: u8) -> bool {
    is_alpha_byte(b) || b == 95
}

/// An identifier continues with letters, digits and `_`.
pub open spec fn ident_continue_byte(b: u8) -> bool {
    is_alpha_byte(b) || is_digit_byte(b) || b == 95
}

/// Width of the UTF-8 sequence a lead byte starts.
pub open spec fn utf8_width(b: u8) -> int {
    if b < 0x80 {
        1
    } else if b < 0xE0 {
        2
    } else if b < 0xF0 {
        3
    } else {
        4
    }
}

/// Bytes of the character at `i`, cut at the end of the input.
pub open spec fn char_len(s: Seq<u8>, i: int) -> int {
    if i + utf8_width(s[i]) <= s.len() {
        utf8_width(s[i])
    } else {
        s.len() - i
    }
}

/// Bytes `i` and `i + 1` are `a` and `b`.
pub open spec fn at2(s: Seq<u8>, i: int, a: u8, b: u8) -> bool {
    0 <= i && i + 1 < s.len() && s[i] == a && s[i + 1] == b
}

/// `s` holds `p` at byte `i`.
pub open spec fn has_at(s: Seq<u8>, i: int, p: Seq<u8>) -> bool {
    0 <= i && i + p.len() <= s.len() && s.subrange(i, i + p.len()) == p
}

fn is_ws(b: u8) -> (r: bool)
    ensures
        r == is_ws_byte(b),
{
    b == 32 || b == 9 || b == 13 || b == 10
}

fn is_digit(b: u8) -> (r: bool)
    ensures
        r == is_digit_byte(b),
{
    48 <= b && b <= 57
}

fn is_alpha(b: u8) -> (r: bool)
    ensures
        r == is_alpha_byte(b),
{
    (65 <= b && b <= 90) || (97 <= b && b <= 122)
}

fn is_hex(b: u8) -> (r: bool)
    ensures
        r == is_hex_byte(b),
{
    is_digit(b) || (65 <= b && b <= 70) || (97 <= b && b <= 102)
}

fn ident_continue(b: u8) -> (r: bool)
    ensures
        r == ident_continue_byte(b),
{
    is_alpha(b) || is_digit(b) || b == 95
}

fn char_width(s: &[u8], i: usize) -> (w: usize)
    requires
        i < s@.len(),
    ensures
        w == char_len(s@, i as int),
        1 <= w,
        i + w <= s@.len(),
{
    let b = s[i];
    let u: usize = if b < 0x80 {
        1
    } else if b < 0xE0 {
        2
    } else if b < 0xF0 {
        3
    } else {
        4
    };
    if u <= s.len() - i {
        u
    } else {
        s.len() - i
    }
}

fn at_pair(s: &[u8], i: usize, a: u8, b: u8) -> (r: bool)
    ensures
        r == at2(s@, i as int, a, b),
{
    i < s.len() && s.len() - i >= 2 && s[i] == a && s[i + 1] == b
}

// ───────────────────────────── character helpers ────────────────────────────

/// `ch` may start an identifier: an ASCII letter or `_`.
pub open spec fn ident_start_char(ch: char) -> bool {
    ('a' <= ch <= 'z') || ('A' <= ch <= 'Z') || ch == '_'
}

/// `ch` may continue an identifier: an ASCII letter, digit or `_`.
pub open spec fn ident_continue_char(ch: char) -> bool {
    ident_start_char(ch) || ('0' <= ch <= '9')
}

/// Whether `ch` may start an identifier.
pub fn is_ident_start(ch: char) -> (b: bool)
    ensures
        b == ident_start_char(ch),
{
    (ch >= 'a' && ch <= 'z') || (ch >= 'A' && ch <= 'Z') || ch == '_'
}

/// Whether `ch` may continue an identifier.
pub fn is_ident_continue(ch: char) -> (b: bool)
    ensures
        b == ident_continue_char(ch),
{
    is_ident_start(ch) || (ch >= '0' && ch <= '9')
}

/// Whether the character at byte `byte_idx` of `s` continues an identifier
/// (false past the end; a byte inside a multi-byte character never does).
pub fn starts_ident_continue(s: &str, byte_idx: usize) -> (b: bool)
    ensures
        b == (byte_idx < s.spec_bytes().len() && ident_continue_byte(s.spec_bytes()[byte_idx as int])),
{
    let bytes = s.as_bytes();
    byte_idx < bytes.len() && ident_continue(bytes[byte_idx])
}

// ───────────────────────────── positions ──────────────────────────────────

/// `(line, column)` after the first `n` bytes, both 1-based: a line feed
/// starts a new line, every other character start advances the column, and
/// UTF-8 continuation bytes do not count.
pub open spec fn line_col_spec(s: Seq<u8>, n: int) -> (int, int)
    decreases n,
{
    if n <= 0 {
        (1, 1)
    } else {
        let (line, col) = line_col_spec(s, n - 1);
        let b = s[n - 1];
        if b == 10 {
            (line + 1, 1)
        } else if b & 0xC0 == 0x80 {
            (line, col)
        } else {
            (line, col + 1)
        }
    }
}

proof fn lemma_line_col_bounds(s: Seq<u8>, n: int)
    requires
        0 <= n,
    ensures
        1 <= line_col_spec(s, n).0 <= n + 1,
        1 <= line_col_spec(s, n).1 <= n + 1,
    decreases n,
{
    if n > 0 {
        lemma_line_col_bounds(s, n - 1);
    }
}

/// Converts a byte offset (clamped to the source length) to a 1-based
/// `(line, column)`.
pub fn line_col(src: &str, byte_off: usize) -> (r: (usize, usize))
    requires
        src.spec_bytes().len() < usize::MAX,
    ensures
        ({
            let n = if byte_off < src.spec_bytes().len() {
                byte_off as int
            } else {
                src.spec_bytes().len() as int
            };
            r.0 == line_col_spec(src.spec_bytes(), n).0 && r.1 == line_col_spec(src.spec_bytes(), n).1
        }),
{
    let s = src.as_bytes();
    let off = if byte_off < s.len() {
        byte_off
    } else {
        s.len()
    };
    let mut line: usize = 1;
    let mut col: usize = 1;
    let mut i: usize = 0;
    while i < off
        invariant
            0 <= i <= off <= s@.len(),
            s@.len() < usize::MAX,
            line == line_col_spec(s@, i as int).0,
            col == line_col_spec(s@, i as int).1,
        decreases off - i,
    {
        proof {
            lemma_line_col_bounds(s@, i as int);
        }
        let b = s[i];
        if b == 10 {
            line = line + 1;
            col = 1;
        } else if b & 0xC0 == 0x80 {
        } else {
            col = col + 1;
        }
        i = i + 1;
    }
    (line, col)
}

// ───────────────────────────── trivia ──────────────────────────────────────

/// Comment kind.
#[derive(Debug, Clone, Copy, PartialEq, Eq, Structural)]
pub enum TriviaKind {
    /// `// …` up to (not including) the line feed.
    LineComment,
    /// `/* … */`.
    BlockComment,
}

/// A comment skipped before a token: its kind and byte span.
#[derive(Debug, Clone, Copy, PartialEq, Eq, Structural)]
pub struct Trivia {
    /// Line or block comment.
    pub kind: TriviaKind,
    /// First byte.
    pub start: usize,
    /// One past the last byte.
    pub end: usize,
}

/// A lexical error: a stable code, a message and a byte span.
#[derive(Debug, Clone, Copy, PartialEq, Eq)]
pub struct LexError {
    /// Stable diagnostic code.
    pub code: &'static str,
    /// Human-readable message.
    pub message: &'static str,
    /// First byte.
    pub start: usize,
    /// One past the last byte.
    pub end: usize,
}

/// The error with these parts.
pub open spec fn lex_err(code: &'static str, message: &'static str, start: int, end: int) -> LexError {
    LexError { code, message, start: start as usize, end: end as usize }
}

/// Skipping from byte `i`: whitespace, then comments (recorded as trivia),
/// repeatedly; the position of the next token and the comments met, or the
/// start of an unclosed block comment.
pub open spec fn skip_from(s: Seq<u8>, i: int) -> Result<(int, Seq<Trivia>), int>
    decreases s.len() - i, 1int,
{
    if i < 0 || i >= s.len() {
        Ok((i, Seq::empty()))
    } else if is_ws_byte(s[i]) {
        skip_from(s, i + 1)
    } else if at2(s, i, 47, 47) {
        in_line_comment(s, i, i + 2)
    } else if at2(s, i, 47, 42) {
        in_block_comment(s, i, i + 2)
    } else {
        Ok((i, Seq::empty()))
    }
}

/// Inside a line comment that started at `start`, at byte `j`.
pub open spec fn in_line_comment(s: Seq<u8>, start: int, j: int) -> Result<(int, Seq<Trivia>), int>
    decreases s.len() - j, 2int,
{
    if j < s.len() && s[j] != 10 {
        in_line_comment(s, start, j + 1)
    } else {
        match skip_from(s, j) {
            Ok((k, t)) => Ok(
                (
                    k,
                    seq![Trivia { kind: TriviaKind::LineComment, start: start as usize, end: j as usize }]
                        + t,
                ),
            ),
            Err(e) => Err(e),
        }
    }
}

/// Inside a block comment that started at `start`, at byte `j`.
pub open spec fn in_block_comment(s: Seq<u8>, start: int, j: int) -> Result<(int, Seq<Trivia>), int>
    decreases s.len() - j, 2int,
{
    if j >= s.len() {
        Err(start)
    } else if at2(s, j, 42, 47) {
        match skip_from(s, j + 2) {
            Ok((k, t)) => Ok(
                (
                    k,
                    seq![Trivia { kind: TriviaKind::BlockComment, start: start as usize, end: (j + 2) as usize }]
                        + t,
                ),
            ),
            Err(e) => Err(e),
        }
    } else {
        in_block_comment(s, start, j + 1)
    }
}

proof fn lemma_skip_bounds(s: Seq<u8>, i: int)
    requires
        0 <= i <= s.len(),
    ensures
        skip_from(s, i) matches Ok((k, t)) ==> i <= k <= s.len(),
        skip_from(s, i) matches Err(st) ==> i <= st < s.len(),
    decreases s.len() - i, 1int,
{
    if i < s.len() {
        if is_ws_byte(s[i]) {
            lemma_skip_bounds(s, i + 1);
        } else if at2(s, i, 47, 47) {
            lemma_line_bounds(s, i, i + 2);
        } else if at2(s, i, 47, 42) {
            lemma_block_bounds(s, i, i + 2);
        }
    }
}

proof fn lemma_line_bounds(s: Seq<u8>, start: int, j: int)
    requires
        0 <= start < j <= s.len(),
    ensures
        in_line_comment(s, start, j) matches Ok((k, t)) ==> j <= k <= s.len(),
        in_line_comment(s, start, j) matches Err(st) ==> j <= st < s.len(),
    decreases s.len() - j, 2int,
{
    if j < s.len() && s[j] != 10 {
        lemma_line_bounds(s, start, j + 1);
    } else {
        lemma_skip_bounds(s, j);
    }
}

proof fn lemma_block_bounds(s: Seq<u8>, start: int, j: int)
    requires
        0 <= start < j <= s.len(),
    ensures
        in_block_comment(s, start, j) matches Ok((k, t)) ==> j <= k <= s.len(),
        in_block_comment(s, start, j) matches Err(st) ==> start <= st < s.len(),
    decreases s.len() - j, 2int,
{
    if j < s.len() {
        if at2(s, j, 42, 47) {
            lemma_skip_bounds(s, j + 2);
        } else {
            lemma_block_bounds(s, start, j + 1);
        }
    }
}

/// Skips whitespace and comments from byte `i`. Returns the position of
/// the next token and the comments met, in order; an unclosed block comment
/// is `ADGL0106` spanning its `/*`.
pub fn skip_ws_and_comments(s: &[u8], i: usize) -> (r: Result<(usize, Vec<Trivia>), LexError>)
    requires
        i <= s@.len(),
    ensures
        match skip_from(s@, i as int) {
            Ok((k, t)) => r matches Ok((k2, t2)) && k2 == k && t2@ == t,
            Err(st) => r == Err::<(usize, Vec<Trivia>), LexError>(
                lex_err("ADGL0106", "unclosed block comment", st, st + 2),
            ),
        },
{
    let mut pos = i;
    let mut trivia: Vec<Trivia> = Vec::new();
    proof {
        lemma_skip_bounds(s@, i as int);
    }
    loop
        invariant
            i <= pos <= s@.len(),
            skip_from(s@, i as int) == match skip_from(s@, pos as int) {
                Ok((k, t)) => Ok((k, trivia@ + t)),
                Err(st) => Err::<(int, Seq<Trivia>), int>(st),
            },
        decreases s@.len() - pos,
    {
        proof {
            lemma_skip_bounds(s@, pos as int);
        }
        if pos >= s.len() {
            proof {
                assert(trivia@ + Seq::<Trivia>::empty() =~= trivia@);
            }
            return Ok((pos, trivia));
        }
        if is_ws(s[pos]) {
            pos = pos + 1;
        } else if at_pair(s, pos, 47, 47) {
            let start = pos;
            let mut j = pos + 2;
            proof {
                assert(skip_from(s@, pos as int) == in_line_comment(s@, start as int, start + 2));
            }
            while j < s.len() && s[j] != 10
                invariant
                    start + 2 <= j <= s@.len(),
                    in_line_comment(s@, start as int, start + 2) == in_line_comment(s@, start as int, j as int),
                decreases s@.len() - j,
            {
                j = j + 1;
            }
            let ghost before = trivia@;
            let tv = Trivia { kind: TriviaKind::LineComment, start, end: j };
            trivia.push(tv);
            proof {
                match skip_from(s@, j as int) {
                    Ok((k, t)) => {
                        assert(before + (seq![tv] + t) =~= trivia@ + t);
                    },
                    Err(_) => {},
                }
            }
            pos = j;
        } else if at_pair(s, pos, 47, 42) {
            let start = pos;
            let mut j = pos + 2;
            proof {
                assert(skip_from(s@, pos as int) == in_block_comment(s@, start as int, start + 2));
            }
            loop
                invariant
                    start + 2 <= j <= s@.len(),
                    in_block_comment(s@, start as int, start + 2) == in_block_comment(s@, start as int, j as int),
                    skip_from(s@, pos as int) == in_block_comment(s@, start as int, start + 2),
                    pos == start,
                    skip_from(s@, i as int) == match in_block_comment(s@, start as int, start + 2) {
                        Ok((k, t)) => Ok((k, trivia@ + t)),
                        Err(st) => Err::<(int, Seq<Trivia>), int>(st),
                    },
                ensures
                    start + 2 <= j,
                    at2(s@, j as int, 42, 47),
                    in_block_comment(s@, start as int, start + 2) == in_block_comment(s@, start as int, j as int),
                decreases s@.len() - j,
            {
                if j >= s.len() {
                    return Err(LexError { code: "ADGL0106", message: "unclosed block comment", start, end: start + 2 });
                }
                if at_pair(s, j, 42, 47) {
                    break;
                }
                j = j + 1;
            }
            let ghost before = trivia@;
            let tv = Trivia { kind: TriviaKind::BlockComment, start, end: j + 2 };
            trivia.push(tv);
            proof {
                match skip_from(s@, j + 2) {
                    Ok((k, t)) => {
                        assert(before + (seq![tv] + t) =~= trivia@ + t);
                    },
                    Err(_) => {},
                }
            }
            pos = j + 2;
        } else {
            proof {
                assert(trivia@ + Seq::<Trivia>::empty() =~= trivia@);
            }
            return Ok((pos, trivia));
        }
    }
}

// ───────────────────────────── tokens ──────────────────────────────────────

/// Punctuation and operator tokens.
#[derive(Debug, Clone, Copy, PartialEq, Eq, Structural)]
pub enum Punct {
    /// `{`
    LBrace,
    /// `}`
    RBrace,
    /// `(`
    LParen,
    /// `)`
    RParen,
    /// `[`
    LBracket,
    /// `]`
    RBracket,
    /// `:`
    Colon,
    /// `,`
    Comma,
    /// `.`
    Dot,
    /// `=`
    Eq,
    /// `+`
    Plus,
    /// `-`
    Minus,
    /// `*`
    Star,
    /// `/`
    Slash,
    /// `%`
    Percent,
    /// `!`
    Bang,
    /// `<`
    Lt,
    /// `<=`
    Le,
    /// `>`
    Gt,
    /// `>=`
    Ge,
    /// `==`
    EqEq,
    /// `!=`
    Ne,
    /// `&&`
    AndAnd,
    /// `||`
    OrOr,
}

/// Token kinds.
#[derive(Debug, Clone, PartialEq, Eq)]
pub enum TokenKind {
    /// An identifier; its text is the token's span.
    Ident,
    /// A string literal's decoded UTF-8 bytes.
    Str(Vec<u8>),
    /// An integer literal.
    Int(i64),
    /// A duration literal in milliseconds.
    Duration(i64),
    /// Punctuation or an operator.
    Punct(Punct),
    /// A keyword.
    Kw(&'static str),
    /// End of input.
    Eof,
}

/// A token and its byte span.
#[derive(Debug, Clone, PartialEq, Eq)]
pub struct Token {
    /// What was lexed.
    pub kind: TokenKind,
    /// First byte.
    pub start: usize,
    /// One past the last byte.
    pub end: usize,
}

/// The value of a token kind.
pub enum TokSpec {
    /// An identifier.
    Ident,
    /// A string literal's decoded bytes.
    Str(Seq<u8>),
    /// An integer literal.
    Int(i64),
    /// A duration in milliseconds.
    Duration(i64),
    /// Punctuation.
    Punct(Punct),
    /// A keyword, by its bytes.
    Kw(Seq<u8>),
    /// End of input.
    Eof,
}

/// The value of a token kind.
pub open spec fn kind_view(k: TokenKind) -> TokSpec {
    match k {
        TokenKind::Ident => TokSpec::Ident,
        TokenKind::Str(v) => TokSpec::Str(v@),
        TokenKind::Int(v) => TokSpec::Int(v),
        TokenKind::Duration(v) => TokSpec::Duration(v),
        TokenKind::Punct(p) => TokSpec::Punct(p),
        TokenKind::Kw(w) => TokSpec::Kw(w.spec_bytes()),
        TokenKind::Eof => TokSpec::Eof,
    }
}

/// A lexing result matches its specification: the same error, or a token
/// of the specified kind spanning `start` to the specified end.
pub open spec fn token_matches(r: Result<Token, LexError>, spec: Result<(TokSpec, int), LexError>, start: int) -> bool {
    match spec {
        Ok((k, e)) => r matches Ok(t) && kind_view(t.kind) == k && t.start == start && t.end == e,
        Err(err) => r == Err::<Token, LexError>(err),
    }
}

/// The two-byte operator at `i`, if any.
pub open spec fn punct_double(s: Seq<u8>, i: int) -> Option<Punct> {
    if at2(s, i, 38, 38) {
        Some(Punct::AndAnd)
    } else if at2(s, i, 124, 124) {
        Some(Punct::OrOr)
    } else if at2(s, i, 61, 61) {
        Some(Punct::EqEq)
    } else if at2(s, i, 33, 61) {
        Some(Punct::Ne)
    } else if at2(s, i, 60, 61) {
        Some(Punct::Le)
    } else if at2(s, i, 62, 61) {
        Some(Punct::Ge)
    } else {
        None
    }
}

/// The one-byte punctuation `b` is, if any.
pub open spec fn punct_single(b: u8) -> Option<Punct> {
    if b == 123 {
        Some(Punct::LBrace)
    } else if b == 125 {
        Some(Punct::RBrace)
    } else if b == 40 {
        Some(Punct::LParen)
    } else if b == 41 {
        Some(Punct::RParen)
    } else if b == 91 {
        Some(Punct::LBracket)
    } else if b == 93 {
        Some(Punct::RBracket)
    } else if b == 58 {
        Some(Punct::Colon)
    } else if b == 44 {
        Some(Punct::Comma)
    } else if b == 46 {
        Some(Punct::Dot)
    } else if b == 61 {
        Some(Punct::Eq)
    } else if b == 43 {
        Some(Punct::Plus)
    } else if b == 45 {
        Some(Punct::Minus)
    } else if b == 42 {
        Some(Punct::Star)
    } else if b == 47 {
        Some(Punct::Slash)
    } else if b == 37 {
        Some(Punct::Percent)
    } else if b == 33 {
        Some(Punct::Bang)
    } else if b == 60 {
        Some(Punct::Lt)
    } else if b == 62 {
        Some(Punct::Gt)
    } else {
        None
    }
}

fn punct_at(s: &[u8], i: usize) -> (r: Option<(Punct, usize)>)
    requires
        i < s@.len(),
    ensures
        match punct_double(s@, i as int) {
            Some(p) => r == Some((p, 2usize)),
            None => match punct_single(s@[i as int]) {
                Some(p) => r == Some((p, 1usize)),
                None => r is None,
            },
        },
{
    if at_pair(s, i, 38, 38) {
        return Some((Punct::AndAnd, 2));
    }
    if at_pair(s, i, 124, 124) {
        return Some((Punct::OrOr, 2));
    }
    if at_pair(s, i, 61, 61) {
        return Some((Punct::EqEq, 2));
    }
    if at_pair(s, i, 33, 61) {
        return Some((Punct::Ne, 2));
    }
    if at_pair(s, i, 60, 61) {
        return Some((Punct::Le, 2));
    }
    if at_pair(s, i, 62, 61) {
        return Some((Punct::Ge, 2));
    }
    let b = s[i];
    let p = if b == 123 {
        Punct::LBrace
    } else if b == 125 {
        Punct::RBrace
    } else if b == 40 {
        Punct::LParen
    } else if b == 41 {
        Punct::RParen
    } else if b == 91 {
        Punct::LBracket
    } else if b == 93 {
        Punct::RBracket
    } else if b == 58 {
        Punct::Colon
    } else if b == 44 {
        Punct::Comma
    } else if b == 46 {
        Punct::Dot
    } else if b == 61 {
        Punct::Eq
    } else if b == 43 {
        Punct::Plus
    } else if b == 45 {
        Punct::Minus
    } else if b == 42 {
        Punct::Star
    } else if b == 47 {
        Punct::Slash
    } else if b == 37 {
        Punct::Percent
    } else if b == 33 {
        Punct::Bang
    } else if b == 60 {
        Punct::Lt
    } else if b == 62 {
        Punct::Gt
    } else {
        return None;
    };
    Some((p, 1))
}

// ───────────────────────────── identifiers ─────────────────────────────────

/// Length of the run of bytes satisfying `pred` from `i`.
pub open spec fn run_len(s: Seq<u8>, i: int, pred: spec_fn(u8) -> bool) -> int
    decreases s.len() - i,
{
    if 0 <= i < s.len() && pred(s[i]) {
        1 + run_len(s, i + 1, pred)
    } else {
        0
    }
}

proof fn lemma_run_len(s: Seq<u8>, i: int, pred: spec_fn(u8) -> bool)
    requires
        0 <= i <= s.len(),
    ensures
        0 <= run_len(s, i, pred) <= s.len() - i,
        forall|k: int| i <= k < i + run_len(s, i, pred) ==> pred(#[trigger] s[k]),
        i + run_len(s, i, pred) < s.len() ==> !pred(s[i + run_len(s, i, pred)]),
    decreases s.len() - i,
{
    if i < s.len() && pred(s[i]) {
        lemma_run_len(s, i + 1, pred);
    }
}

/// The identifier-continue byte class.
pub open spec fn ident_pred() -> spec_fn(u8) -> bool {
    |b: u8| ident_continue_byte(b)
}

/// Whether `w` is one of the language's keywords.
pub open spec fn is_keyword(w: Seq<u8>) -> bool {
    ||| w == "ruleset".spec_bytes()
    ||| w == "version".spec_bytes()
    ||| w == "requires".spec_bytes()
    ||| w == "mutually_exclusive".spec_bytes()
    ||| w == "evidence".spec_bytes()
    ||| w == "decision".spec_bytes()
    ||| w == "scope".spec_bytes()
    ||| w == "anchor".spec_bytes()
    ||| w == "correlate".spec_bytes()
    ||| w == "having".spec_bytes()
    ||| w == "infer".spec_bytes()
    ||| w == "emit".spec_bytes()
    ||| w == "action".spec_bytes()
    ||| w == "if".spec_bytes()
    ||| w == "else".spec_bytes()
    ||| w == "present".spec_bytes()
    ||| w == "absent".spec_bytes()
    ||| w == "and".spec_bytes()
    ||| w == "or".spec_bytes()
    ||| w == "not".spec_bytes()
    ||| w == "Cause".spec_bytes()
    ||| w == "Problem".spec_bytes()
    ||| w == "event".spec_bytes()
    ||| w == "in".spec_bytes()
    ||| w == "true".spec_bytes()
    ||| w == "false".spec_bytes()
}

/// The reserved-prefix identifiers that are allowed.
pub open spec fn is_builtin_ident(w: Seq<u8>) -> bool {
    ||| w == "__watermark".spec_bytes()
    ||| w == "__scope".spec_bytes()
    ||| w == "__confidence".spec_bytes()
    ||| w == "__ruleset_version".spec_bytes()
}

fn bytes_eq(a: &[u8], b: &[u8]) -> (r: bool)
    ensures
        r == (a@ == b@),
{
    if a.len() != b.len() {
        return false;
    }
    let mut i: usize = 0;
    while i < a.len()
        invariant
            0 <= i <= a@.len(),
            a@.len() == b@.len(),
            forall|k: int| 0 <= k < i ==> a@[k] == b@[k],
        decreases a@.len() - i,
    {
        if a[i] != b[i] {
            return false;
        }
        i = i + 1;
    }
    proof {
        assert(a@ =~= b@);
    }
    true
}

fn keyword_of(w: &[u8]) -> (r: Option<&'static str>)
    ensures
        match r {
            Some(k) => is_keyword(w@) && k.spec_bytes() == w@,
            None => !is_keyword(w@),
        },
{
    if bytes_eq(w, "ruleset".as_bytes()) {
        return Some("ruleset");
    }
    if bytes_eq(w, "version".as_bytes()) {
        return Some("version");
    }
    if bytes_eq(w, "requires".as_bytes()) {
        return Some("requires");
    }
    if bytes_eq(w, "mutually_exclusive".as_bytes()) {
        return Some("mutually_exclusive");
    }
    if bytes_eq(w, "evidence".as_bytes()) {
        return Some("evidence");
    }
    if bytes_eq(w, "decision".as_bytes()) {
        return Some("decision");
    }
    if bytes_eq(w, "scope".as_bytes()) {
        return Some("scope");
    }
    if bytes_eq(w, "anchor".as_bytes()) {
        return Some("anchor");
    }
    if bytes_eq(w, "correlate".as_bytes()) {
        return Some("correlate");
    }
    if bytes_eq(w, "having".as_bytes()) {
        return Some("having");
    }
    if bytes_eq(w, "infer".as_bytes()) {
        return Some("infer");
    }
    if bytes_eq(w, "emit".as_bytes()) {
        return Some("emit");
    }
    if bytes_eq(w, "action".as_bytes()) {
        return Some("action");
    }
    if bytes_eq(w, "if".as_bytes()) {
        return Some("if");
    }
    if bytes_eq(w, "else".as_bytes()) {
        return Some("else");
    }
    if bytes_eq(w, "present".as_bytes()) {
        return Some("present");
    }
    if bytes_eq(w, "absent".as_bytes()) {
        return Some("absent");
    }
    if bytes_eq(w, "and".as_bytes()) {
        return Some("and");
    }
    if bytes_eq(w, "or".as_bytes()) {
        return Some("or");
    }
    if bytes_eq(w, "not".as_bytes()) {
        return Some("not");
    }
    if bytes_eq(w, "Cause".as_bytes()) {
        return Some("Cause");
    }
    if bytes_eq(w, "Problem".as_bytes()) {
        return Some("Problem");
    }
    if bytes_eq(w, "event".as_bytes()) {
        return Some("event");
    }
    if bytes_eq(w, "in".as_bytes()) {
        return Some("in");
    }
    if bytes_eq(w, "true".as_bytes()) {
        return Some("true");
    }
    if bytes_eq(w, "false".as_bytes()) {
        return Some("false");
    }
    None
}

/// The static spelling of a keyword, or `"unknown"` for any other text.
pub fn keyword_static(s: &str) -> (r: &'static str)
    ensures
        r.spec_bytes() == if is_keyword(s.spec_bytes()) {
            s.spec_bytes()
        } else {
            "unknown".spec_bytes()
        },
{
    match keyword_of(s.as_bytes()) {
        Some(k) => k,
        None => "unknown",
    }
}

fn is_builtin(w: &[u8]) -> (r: bool)
    ensures
        r == is_builtin_ident(w@),
{
    bytes_eq(w, "__watermark".as_bytes()) || bytes_eq(w, "__scope".as_bytes()) || bytes_eq(
        w,
        "__confidence".as_bytes(),
    ) || bytes_eq(w, "__ruleset_version".as_bytes())
}

/// An identifier or keyword at `i` (which starts an identifier): the
/// maximal run of identifier bytes; longer than 255 bytes is `ADGL0101`; a
/// `__` prefix other than the four builtins is `ADGL0104`.
pub open spec fn ident_spec(s: Seq<u8>, i: int) -> Result<(TokSpec, int), LexError> {
    let n = run_len(s, i, ident_pred());
    let w = s.subrange(i, i + n);
    if n > 255 {
        Err(lex_err("ADGL0101", "identifier exceeds 255 bytes", i, i + n))
    } else if n >= 2 && s[i] == 95 && s[i + 1] == 95 && !is_builtin_ident(w) {
        Err(lex_err("ADGL0104", "identifier prefix '__' is reserved", i, i + n))
    } else if is_keyword(w) {
        Ok((TokSpec::Kw(w), i + n))
    } else {
        Ok((TokSpec::Ident, i + n))
    }
}

/// Lexes an identifier or keyword starting at byte `start`.
pub fn lex_ident_or_kw(s: &[u8], start: usize) -> (r: Result<Token, LexError>)
    requires
        start < s@.len(),
        ident_start_byte(s@[start as int]),
    ensures
        token_matches(r, ident_spec(s@, start as int), start as int),
        r matches Ok(t) ==> start < t.end <= s@.len(),
{
    let ghost pred = ident_pred();
    let mut end = start;
    proof {
        lemma_run_len(s@, start as int, pred);
    }
    while end < s.len() && ident_continue(s[end])
        invariant
            start <= end <= s@.len(),
            pred == ident_pred(),
            run_len(s@, start as int, pred) == (end - start) + run_len(s@, end as int, pred),
        decreases s@.len() - end,
    {
        end = end + 1;
    }
    let n = end - start;
    let w = vstd::slice::slice_subrange(s, start, end);
    proof {
        assert(w@ == s@.subrange(start as int, end as int));
    }
    if n > 255 {
        return Err(LexError { code: "ADGL0101", message: "identifier exceeds 255 bytes", start, end });
    }
    if n >= 2 && s[start] == 95 && s[start + 1] == 95 && !is_builtin(w) {
        return Err(LexError { code: "ADGL0104", message: "identifier prefix '__' is reserved", start, end });
    }
    let kind = match keyword_of(w) {
        Some(k) => TokenKind::Kw(k),
        None => TokenKind::Ident,
    };
    Ok(Token { kind, start, end })
}

// ───────────────────────────── numbers ─────────────────────────────────────

/// Hexadecimal digits and `_`.
pub open spec fn hex_pred() -> spec_fn(u8) -> bool {
    |b: u8| is_hex_byte(b) || b == 95
}

/// Binary digits and `_`.
pub open spec fn bin_pred() -> spec_fn(u8) -> bool {
    |b: u8| b == 48 || b == 49 || b == 95
}

/// Decimal digits and `_`.
pub open spec fn dec_pred() -> spec_fn(u8) -> bool {
    |b: u8| is_digit_byte(b) || b == 95
}

/// Radix of the literal at `i`: `0x`/`0X` hexadecimal, `0b`/`0B` binary,
/// otherwise decimal.
pub open spec fn num_radix(s: Seq<u8>, i: int) -> int {
    if at2(s, i, 48, 120) || at2(s, i, 48, 88) {
        16
    } else if at2(s, i, 48, 98) || at2(s, i, 48, 66) {
        2
    } else {
        10
    }
}

/// Byte length of the literal's digits (with prefix and `_`s).
pub open spec fn num_len(s: Seq<u8>, i: int) -> int {
    if num_radix(s, i) == 16 {
        2 + run_len(s, i + 2, hex_pred())
    } else if num_radix(s, i) == 2 {
        2 + run_len(s, i + 2, bin_pred())
    } else {
        run_len(s, i, dec_pred())
    }
}

/// `d` without every leading repetition of the two bytes `a b`.
pub open spec fn strip_rep(d: Seq<u8>, a: u8, b: u8) -> Seq<u8>
    decreases d.len(),
{
    if d.len() >= 2 && d[0] == a && d[1] == b {
        strip_rep(d.subrange(2, d.len() as int), a, b)
    } else {
        d
    }
}

/// Not an underscore.
pub open spec fn not_us() -> spec_fn(u8) -> bool {
    |b: u8| b != 95
}

/// The digits the literal's value is read from: its bytes without `_`, and
/// for a prefixed literal every leading `0x`, then `0X`, `0b`, `0B` removed.
pub open spec fn num_digits(s: Seq<u8>, i: int) -> Seq<u8> {
    let raw = s.subrange(i, i + num_len(s, i)).filter(not_us());
    if num_radix(s, i) == 10 {
        raw
    } else {
        strip_rep(strip_rep(strip_rep(strip_rep(raw, 48, 120), 48, 88), 48, 98), 48, 66)
    }
}

/// Value of one digit byte.
pub open spec fn digit_val(b: u8) -> int {
    if is_digit_byte(b) {
        b - 48
    } else if 65 <= b <= 70 {
        b - 55
    } else {
        b - 87
    }
}

/// Value of a digit sequence in radix `r`.
pub open spec fn digits_value(d: Seq<u8>, r: int) -> int
    decreases d.len(),
{
    if d.len() == 0 {
        0
    } else {
        digits_value(d.drop_last(), r) * r + digit_val(d.last())
    }
}

/// The literal's value, when its digits are non-empty and it fits an `i64`.
pub open spec fn num_value(s: Seq<u8>, i: int) -> Option<i64> {
    let d = num_digits(s, i);
    let v = digits_value(d, num_radix(s, i));
    if d.len() == 0 || v > i64::MAX {
        None
    } else {
        Some(v as i64)
    }
}

/// `v * m`, saturating at `i64::MAX`.
pub open spec fn sat_mul(v: i64, m: int) -> i64 {
    if v * m > i64::MAX {
        i64::MAX
    } else {
        (v * m) as i64
    }
}

/// Total byte width of up to `n` characters from `j`.
pub open spec fn chars_width(s: Seq<u8>, j: int, n: nat) -> int
    decreases n,
{
    if n == 0 || j < 0 || j >= s.len() {
        0
    } else {
        char_len(s, j) + chars_width(s, j + char_len(s, j), (n - 1) as nat)
    }
}

/// A number or duration at `i` (which holds a decimal digit). A literal out
/// of `i64` range (or a bare prefix) is `ADGL0100`. Suffix `ms` keeps the
/// value, `s` (not followed by an identifier byte) multiplies by 1000, `min`
/// by 60000, both saturating; any other suffix starting with `m` is
/// `ADGL0110`; otherwise the literal is an integer.
pub open spec fn number_spec(s: Seq<u8>, i: int) -> Result<(TokSpec, int), LexError> {
    let end = i + num_len(s, i);
    match num_value(s, i) {
        None => Err(lex_err("ADGL0100", "integer literal out of range", i, end)),
        Some(v) => if at2(s, end, 109, 115) {
            Ok((TokSpec::Duration(v), end + 2))
        } else if end < s.len() && s[end] == 115 && !(end + 1 < s.len() && ident_continue_byte(
            s[end + 1],
        )) {
            Ok((TokSpec::Duration(sat_mul(v, 1000)), end + 1))
        } else if has_at(s, end, seq![109u8, 105u8, 110u8]) {
            Ok((TokSpec::Duration(sat_mul(v, 60000)), end + 3))
        } else if end < s.len() && s[end] == 109 {
            Err(lex_err("ADGL0110", "malformed duration unit", i, end + chars_width(s, end, 3)))
        } else {
            Ok((TokSpec::Int(v), end))
        },
    }
}

proof fn lemma_digits_value_prefix(d: Seq<u8>, r: int, j: int, k: int)
    requires
        r >= 2,
        0 <= j <= k <= d.len(),
        forall|x: int| 0 <= x < d.len() ==> digit_val(#[trigger] d[x]) >= 0,
    ensures
        0 <= digits_value(d.take(j), r) <= digits_value(d.take(k), r),
    decreases k - j,
{
    if j < k {
        lemma_digits_value_prefix(d, r, j, k - 1);
        assert(d.take(k).drop_last() =~= d.take(k - 1));
        assert(d.take(k).last() == d[k - 1]);
        let a = digits_value(d.take(k - 1), r);
        assert(a * r >= a) by (nonlinear_arith)
            requires
                a >= 0,
                r >= 2,
        ;
    } else {
        lemma_digits_value_nonneg(d.take(j), r);
    }
}

proof fn lemma_digits_value_nonneg(d: Seq<u8>, r: int)
    requires
        r >= 2,
        forall|x: int| 0 <= x < d.len() ==> digit_val(#[trigger] d[x]) >= 0,
    ensures
        digits_value(d, r) >= 0,
    decreases d.len(),
{
    if d.len() > 0 {
        assert forall|x: int| 0 <= x < d.drop_last().len() implies digit_val(#[trigger] d.drop_last()[x]) >= 0 by {
            assert(d.drop_last()[x] == d[x]);
        }
        lemma_digits_value_nonneg(d.drop_last(), r);
        let a = digits_value(d.drop_last(), r);
        assert(a * r >= 0) by (nonlinear_arith)
            requires
                a >= 0,
                r >= 2,
        ;
        assert(d.last() == d[d.len() - 1]);
    }
}

/// Index in `d` after the leading repetitions of `a b` from `from`.
fn strip_from(d: &Vec<u8>, from: usize, a: u8, b: u8) -> (f: usize)
    requires
        from <= d@.len(),
    ensures
        from <= f <= d@.len(),
        d@.skip(f as int) == strip_rep(d@.skip(from as int), a, b),
{
    let mut f = from;
    while d.len() - f >= 2 && d[f] == a && d[f + 1] == b
        invariant
            from <= f <= d@.len(),
            strip_rep(d@.skip(from as int), a, b) == strip_rep(d@.skip(f as int), a, b),
        decreases d@.len() - f,
    {
        proof {
            let t = d@.skip(f as int);
            assert(t.subrange(2, t.len() as int) =~= d@.skip(f + 2));
        }
        f = f + 2;
    }
    f
}

fn digit_value_of(b: u8) -> (v: i64)
    ensures
        v == digit_val(b),
{
    if 48 <= b && b <= 57 {
        (b - 48) as i64
    } else if 65 <= b && b <= 70 {
        (b - 55) as i64
    } else {
        b as i64 - 87
    }
}

fn num_byte_ok(radix: i64, b: u8) -> (r: bool)
    ensures
        r == (if radix == 16 {
            hex_pred()(b)
        } else if radix == 2 {
            bin_pred()(b)
        } else {
            dec_pred()(b)
        }),
{
    if radix == 16 {
        is_hex(b) || b == 95
    } else if radix == 2 {
        b == 48 || b == 49 || b == 95
    } else {
        is_digit(b) || b == 95
    }
}

/// The radix, the end of the digits, and the digit bytes the value is read
/// from (`d[from..]`) of the literal at `start`.
fn number_digits(s: &[u8], start: usize) -> (r: (i64, usize, Vec<u8>, usize))
    requires
        start < s@.len(),
        is_digit_byte(s@[start as int]),
    ensures
        r.0 as int == num_radix(s@, start as int),
        r.1 == start + num_len(s@, start as int),
        start < r.1,
        r.1 <= s@.len(),
        r.3 <= r.2@.len(),
        r.2@.skip(r.3 as int) == num_digits(s@, start as int),
        forall|x: int| 0 <= x < r.2@.len() ==> digit_val(#[trigger] r.2@[x]) >= 0,
{
    let slen = s.len();
    let radix: i64 = if at_pair(s, start, 48, 120) || at_pair(s, start, 48, 88) {
        16
    } else if at_pair(s, start, 48, 98) || at_pair(s, start, 48, 66) {
        2
    } else {
        10
    };
    proof {
        assert(radix as int == num_radix(s@, start as int));
    }
    let ghost pred = if radix == 16 {
        hex_pred()
    } else if radix == 2 {
        bin_pred()
    } else {
        dec_pred()
    };
    let mut end: usize = if radix == 10 || slen - start < 2 {
        start
    } else {
        start + 2
    };
    let ghost run_start = end as int;
    proof {
        lemma_run_len(s@, run_start, pred);
    }
    while end < s.len() && num_byte_ok(radix, s[end])
        invariant
            run_start <= end <= s@.len(),
            pred == if radix == 16 {
                hex_pred()
            } else if radix == 2 {
                bin_pred()
            } else {
                dec_pred()
            },
            radix == 16 || radix == 2 || radix == 10,
            run_len(s@, run_start, pred) == (end - run_start) + run_len(s@, end as int, pred),
        decreases s@.len() - end,
    {
        end = end + 1;
    }
    proof {
        assert(end == start + num_len(s@, start as int));
        lemma_run_len(s@, run_start, pred);
        if radix == 10 {
            assert(pred(s@[start as int]));
            assert(end > start);
        }
        assert forall|x: int| start <= x < end implies is_hex_byte(#[trigger] s@[x]) || s@[x] == 95
            || s@[x] == 120 || s@[x] == 88 by {
            if x >= run_start {
                assert(pred(s@[x]));
            }
        }
    }
    let mut d: Vec<u8> = Vec::new();
    let mut k = start;
    proof {
        reveal(Seq::filter);
        assert(s@.subrange(start as int, start as int).filter(not_us()) =~= d@);
    }
    while k < end
        invariant
            start <= k <= end <= s@.len(),
            d@ == s@.subrange(start as int, k as int).filter(not_us()),
            forall|x: int| 0 <= x < d@.len() ==> digit_val(#[trigger] d@[x]) >= 0,
            forall|x: int|
                start <= x < end ==> is_hex_byte(#[trigger] s@[x]) || s@[x] == 95 || s@[x] == 120
                    || s@[x] == 88,
        decreases end - k,
    {
        proof {
            reveal(Seq::filter);
            assert(s@.subrange(start as int, k + 1).drop_last() =~= s@.subrange(start as int, k as int));
        }
        if s[k] != 95 {
            d.push(s[k]);
        }
        k = k + 1;
    }
    let mut from: usize = 0;
    if radix != 10 {
        from = strip_from(&d, from, 48, 120);
        from = strip_from(&d, from, 48, 88);
        from = strip_from(&d, from, 48, 98);
        from = strip_from(&d, from, 48, 66);
    }
    proof {
        assert(d@.skip(0) =~= d@);
    }
    (radix, end, d, from)
}

/// The value of `d[from..]` in `radix`, when non-empty and in `i64` range.
fn digits_to_i64(d: &Vec<u8>, from: usize, radix: i64) -> (r: Option<i64>)
    requires
        from <= d@.len(),
        radix == 16 || radix == 2 || radix == 10,
        forall|x: int| 0 <= x < d@.len() ==> digit_val(#[trigger] d@[x]) >= 0,
    ensures
        ({
            let t = d@.skip(from as int);
            if t.len() == 0 || digits_value(t, radix as int) > i64::MAX {
                r is None
            } else {
                r == Some(digits_value(t, radix as int) as i64)
            }
        }),
{
    let ghost t = d@.skip(from as int);
    proof {
        assert forall|x: int| 0 <= x < t.len() implies digit_val(#[trigger] t[x]) >= 0 by {
            assert(t[x] == d@[x + from]);
        }
    }
    if from >= d.len() {
        return None;
    }
    let mut acc: i64 = 0;
    let mut j = from;
    proof {
        assert(t.take(0) =~= Seq::<u8>::empty());
    }
    while j < d.len()
        invariant
            from <= j <= d@.len(),
            t == d@.skip(from as int),
            forall|x: int| 0 <= x < t.len() ==> digit_val(#[trigger] t[x]) >= 0,
            radix == 16 || radix == 2 || radix == 10,
            acc as int == digits_value(t.take(j - from), radix as int),
            acc >= 0,
        decreases d@.len() - j,
    {
        let v = digit_value_of(d[j]);
        proof {
            assert(t.take(j - from + 1).drop_last() =~= t.take(j - from));
            assert(t.take(j - from + 1).last() == d@[j as int]);
            assert(t[j - from] == d@[j as int]);
        }
        let next = match acc.checked_mul(radix) {
            Some(m) => m.checked_add(v),
            None => None,
        };
        match next {
            Some(n) => {
                acc = n;
            },
            None => {
                proof {
                    lemma_digits_value_prefix(t, radix as int, j - from + 1, t.len() as int);
                    assert(t.take(t.len() as int) =~= t);
                    let a = acc as int;
                    let r = radix as int;
                    assert(a * r >= 0) by (nonlinear_arith)
                        requires
                            a >= 0,
                            r >= 2,
                    ;
                }
                return None;
            },
        }
        j = j + 1;
    }
    proof {
        assert(t.take(t.len() as int) =~= t);
    }
    Some(acc)
}

/// Lexes a number or duration literal starting at byte `start`.
pub fn lex_number_or_duration(s: &[u8], start: usize) -> (r: Result<Token, LexError>)
    requires
        start < s@.len(),
        is_digit_byte(s@[start as int]),
    ensures
        token_matches(r, number_spec(s@, start as int), start as int),
        r matches Ok(t) ==> start < t.end <= s@.len(),
{
    let slen = s.len();
    let (radix, end, d, from) = number_digits(s, start);
    let value = match digits_to_i64(&d, from, radix) {
        Some(v) => v,
        None => {
            return Err(LexError { code: "ADGL0100", message: "integer literal out of range", start, end });
        },
    };
    proof {
        assert(num_value(s@, start as int) == Some(value));
        lemma_digits_value_nonneg(num_digits(s@, start as int), radix as int);
    }
    if at_pair(s, end, 109, 115) {
        return Ok(Token { kind: TokenKind::Duration(value), start, end: end + 2 });
    }
    if end < s.len() && s[end] == 115 && !(s.len() - end > 1 && ident_continue(s[end + 1])) {
        let d1 = match value.checked_mul(1000) {
            Some(x) => x,
            None => i64::MAX,
        };
        return Ok(Token { kind: TokenKind::Duration(d1), start, end: end + 1 });
    }
    if s.len() - end >= 3 && s[end] == 109 && s[end + 1] == 105 && s[end + 2] == 110 {
        proof {
            assert(s@.subrange(end as int, end + 3) =~= seq![109u8, 105u8, 110u8]);
        }
        let d2 = match value.checked_mul(60000) {
            Some(x) => x,
            None => i64::MAX,
        };
        return Ok(Token { kind: TokenKind::Duration(d2), start, end: end + 3 });
    }
    proof {
        if has_at(s@, end as int, seq![109u8, 105u8, 110u8]) {
            assert(s@.subrange(end as int, end + 3)[0] == 109);
            assert(s@.subrange(end as int, end + 3)[1] == 105);
            assert(s@.subrange(end as int, end + 3)[2] == 110);
        }
    }
    if end < s.len() && s[end] == 109 {
        let mut w: usize = 0;
        let mut p = end;
        let mut c: usize = 0;
        while c < 3 && p < s.len()
            invariant
                end <= p <= s@.len(),
                c <= 3,
                w == p - end,
                chars_width(s@, end as int, 3) == w + chars_width(s@, p as int, (3 - c) as nat),
            decreases 3 - c,
        {
            let cw = char_width(s, p);
            p = p + cw;
            w = w + cw;
            c = c + 1;
        }
        return Err(LexError { code: "ADGL0110", message: "malformed duration unit", start, end: end + w });
    }
    Ok(Token { kind: TokenKind::Int(value), start, end })
}

// ───────────────────────────── strings ─────────────────────────────────────

/// UTF-8 encoding of the character `U+00bb` a `\xbb` escape denotes.
pub open spec fn byte_char_utf8(b: u8) -> Seq<u8> {
    if b < 0x80 {
        seq![b]
    } else {
        seq![(0xC0u8 | (b >> 6u8)) as u8, (0x80u8 | (b & 0x3Fu8)) as u8]
    }
}

/// The byte a two-character `\x` escape denotes: two hex digits, or `+`
/// and one hex digit (the radix parser accepts a leading `+`).
pub open spec fn hex_escape(hi: u8, lo: u8) -> Option<u8> {
    if is_hex_byte(hi) && is_hex_byte(lo) {
        Some((digit_val(hi) * 16 + digit_val(lo)) as u8)
    } else if hi == 43 && is_hex_byte(lo) {
        Some(digit_val(lo) as u8)
    } else {
        None
    }
}

/// The byte a one-character escape (`\n \t \r \0 \" \\`) denotes.
pub open spec fn simple_escape(e: u8) -> Option<u8> {
    if e == 110 {
        Some(10u8)
    } else if e == 116 {
        Some(9u8)
    } else if e == 114 {
        Some(13u8)
    } else if e == 48 {
        Some(0u8)
    } else if e == 34 {
        Some(34u8)
    } else if e == 92 {
        Some(92u8)
    } else {
        None
    }
}

/// The body of a string literal opened at `start`, from byte `j`, having
/// decoded `out` so far: the decoded bytes and the end after the closing
/// quote, or the error.
pub open spec fn str_body(s: Seq<u8>, start: int, j: int, out: Seq<u8>) -> Result<(Seq<u8>, int), LexError>
    decreases s.len() - j,
{
    if j < 0 || j >= s.len() {
        Err(lex_err("ADGL0100", "unterminated string", start, j))
    } else if s[j] == 34 {
        Ok((out, j + 1))
    } else if s[j] == 92 {
        let k = j + 1;
        if k >= s.len() {
            Err(lex_err("ADGL0100", "unterminated string", start, k))
        } else if s[k] == 120 {
            let h = k + 1;
            if h >= s.len() {
                Err(lex_err("ADGL0100", "incomplete hex escape", start, h))
            } else {
                let l = h + char_len(s, h);
                if l >= s.len() {
                    Err(lex_err("ADGL0100", "incomplete hex escape", start, l))
                } else {
                    let e = l + char_len(s, l);
                    if char_len(s, h) != 1 || char_len(s, l) != 1 {
                        Err(lex_err("ADGL0100", "invalid hex escape", start, e))
                    } else {
                        match hex_escape(s[h], s[l]) {
                            None => Err(lex_err("ADGL0100", "invalid hex escape", start, e)),
                            Some(b) => str_body(s, start, e, out + byte_char_utf8(b)),
                        }
                    }
                }
            }
        } else {
            match simple_escape(s[k]) {
                Some(b) => str_body(s, start, k + 1, out.push(b)),
                None => Err(lex_err("ADGL0100", "unknown escape", start, k + char_len(s, k))),
            }
        }
    } else {
        let w = char_len(s, j);
        str_body(s, start, j + w, out + s.subrange(j, j + w))
    }
}

/// A string literal at `i` (which holds `"`).
pub open spec fn string_spec(s: Seq<u8>, i: int) -> Result<(TokSpec, int), LexError> {
    match str_body(s, i, i + 1, Seq::empty()) {
        Ok((out, e)) => Ok((TokSpec::Str(out), e)),
        Err(e) => Err(e),
    }
}

fn hex_escape_of(hi: u8, lo: u8) -> (r: Option<u8>)
    ensures
        r == hex_escape(hi, lo),
{
    if is_hex(hi) && is_hex(lo) {
        let h = digit_value_of(hi);
        let l = digit_value_of(lo);
        Some((h * 16 + l) as u8)
    } else if hi == 43 && is_hex(lo) {
        Some(digit_value_of(lo) as u8)
    } else {
        None
    }
}

fn push_byte_char(out: &mut Vec<u8>, b: u8)
    ensures
        final(out)@ == old(out)@ + byte_char_utf8(b),
{
    let ghost o = out@;
    if b < 0x80 {
        out.push(b);
        proof {
            assert(out@ =~= o + byte_char_utf8(b));
        }
    } else {
        out.push(0xC0u8 | (b >> 6u8));
        out.push(0x80u8 | (b & 0x3Fu8));
        proof {
            assert(out@ =~= o + byte_char_utf8(b));
        }
    }
}

/// Lexes a string literal starting at the `"` at byte `start`, decoding
/// its escapes.
pub fn lex_string(s: &[u8], start: usize) -> (r: Result<Token, LexError>)
    requires
        start < s@.len(),
        s@[start as int] == 34,
    ensures
        token_matches(r, string_spec(s@, start as int), start as int),
        r matches Ok(t) ==> start < t.end <= s@.len(),
{
    let slen = s.len();
    let mut out: Vec<u8> = Vec::new();
    let mut j = start + 1;
    loop
        invariant
            start < j <= s@.len(),
            slen == s@.len(),
            str_body(s@, start as int, start + 1, Seq::empty()) == str_body(s@, start as int, j as int, out@),
        decreases s@.len() - j,
    {
        if j >= slen {
            return Err(LexError { code: "ADGL0100", message: "unterminated string", start, end: j });
        }
        let b = s[j];
        if b == 34 {
            return Ok(Token { kind: TokenKind::Str(out), start, end: j + 1 });
        }
        if b == 92 {
            let k = j + 1;
            if k >= slen {
                return Err(LexError { code: "ADGL0100", message: "unterminated string", start, end: k });
            }
            let e = s[k];
            if e == 120 {
                let h = k + 1;
                if h >= slen {
                    return Err(LexError { code: "ADGL0100", message: "incomplete hex escape", start, end: h });
                }
                let wh = char_width(s, h);
                let l = h + wh;
                if l >= slen {
                    return Err(LexError { code: "ADGL0100", message: "incomplete hex escape", start, end: l });
                }
                let wl = char_width(s, l);
                let end = l + wl;
                if wh != 1 || wl != 1 {
                    return Err(LexError { code: "ADGL0100", message: "invalid hex escape", start, end });
                }
                match hex_escape_of(s[h], s[l]) {
                    Some(v) => {
                        push_byte_char(&mut out, v);
                        j = end;
                    },
                    None => {
                        return Err(LexError { code: "ADGL0100", message: "invalid hex escape", start, end });
                    },
                }
            } else {
                let simple: Option<u8> = if e == 110 {
                    Some(10u8)
                } else if e == 116 {
                    Some(9u8)
                } else if e == 114 {
                    Some(13u8)
                } else if e == 48 {
                    Some(0u8)
                } else if e == 34 {
                    Some(34u8)
                } else if e == 92 {
                    Some(92u8)
                } else {
                    None
                };
                match simple {
                    Some(v) => {
                        out.push(v);
                        j = k + 1;
                    },
                    None => {
                        let we = char_width(s, k);
                        return Err(LexError { code: "ADGL0100", message: "unknown escape", start, end: k + we });
                    },
                }
            }
        } else {
            let w = char_width(s, j);
            let ghost o = out@;
            let mut c = j;
            let stop = j + w;
            while c < stop
                invariant
                    j <= c <= stop,
                    stop == j + w,
                    stop <= s@.len(),
                    out@ == o + s@.subrange(j as int, c as int),
                decreases stop - c,
            {
                out.push(s[c]);
                proof {
                    assert(s@.subrange(j as int, c + 1) =~= s@.subrange(j as int, c as int).push(s@[c as int]));
                }
                c = c + 1;
            }
            j = stop;
        }
    }
}


// ───────────────────────────── token stream ────────────────────────────────

/// The token at byte `i` (after whitespace and comments): two-byte
/// operators first, then one-byte punctuation, strings, numbers,
/// identifiers; any other character is `ADGL0100`; past the end, `Eof`.
pub open spec fn next_spec(s: Seq<u8>, i: int) -> Result<(TokSpec, int), LexError> {
    if i < 0 || i >= s.len() {
        Ok((TokSpec::Eof, i))
    } else {
        match punct_double(s, i) {
            Some(p) => Ok((TokSpec::Punct(p), i + 2)),
            None => match punct_single(s[i]) {
                Some(p) => Ok((TokSpec::Punct(p), i + 1)),
                None => if s[i] == 34 {
                    string_spec(s, i)
                } else if is_digit_byte(s[i]) {
                    number_spec(s, i)
                } else if ident_start_byte(s[i]) {
                    ident_spec(s, i)
                } else {
                    Err(lex_err("ADGL0100", "unexpected character", i, i + char_len(s, i)))
                },
            },
        }
    }
}

/// Lexes the token at byte `i`.
pub fn next_token(s: &[u8], i: usize) -> (r: Result<Token, LexError>)
    requires
        i <= s@.len(),
    ensures
        token_matches(r, next_spec(s@, i as int), i as int),
        i < s@.len() ==> (r matches Ok(t) ==> i < t.end <= s@.len()),
{
    if i >= s.len() {
        return Ok(Token { kind: TokenKind::Eof, start: i, end: i });
    }
    match punct_at(s, i) {
        Some((p, w)) => {
            return Ok(Token { kind: TokenKind::Punct(p), start: i, end: i + w });
        },
        None => {},
    }
    let b = s[i];
    if b == 34 {
        lex_string(s, i)
    } else if is_digit(b) {
        lex_number_or_duration(s, i)
    } else if is_alpha(b) || b == 95 {
        lex_ident_or_kw(s, i)
    } else {
        let w = char_width(s, i);
        Err(LexError { code: "ADGL0100", message: "unexpected character", start: i, end: i + w })
    }
}

/// Whether a token opens a bracket.
pub open spec fn opens(k: TokSpec) -> bool {
    k == TokSpec::Punct(Punct::LBrace) || k == TokSpec::Punct(Punct::LParen) || k == TokSpec::Punct(
        Punct::LBracket,
    )
}

/// Whether a token closes a bracket.
pub open spec fn closes(k: TokSpec) -> bool {
    k == TokSpec::Punct(Punct::RBrace) || k == TokSpec::Punct(Punct::RParen) || k == TokSpec::Punct(
        Punct::RBracket,
    )
}

/// The token stream from byte `i` at bracket depth `depth`, ending with
/// `Eof` at the end of input; a bracket opened deeper than 64 is `ADGL0103`.
pub open spec fn tokens_from(s: Seq<u8>, i: int, depth: int) -> Result<Seq<(TokSpec, int, int)>, LexError>
    decreases s.len() - i,
{
    if i < 0 || i > s.len() {
        Ok(Seq::empty())
    } else {
        match skip_from(s, i) {
            Err(st) => Err(lex_err("ADGL0106", "unclosed block comment", st, st + 2)),
            Ok((j, _t)) => if j >= s.len() || j < i {
                Ok(seq![(TokSpec::Eof, s.len() as int, s.len() as int)])
            } else {
                match next_spec(s, j) {
                    Err(e) => Err(e),
                    Ok((k, e)) => if e <= j || e > s.len() {
                        Ok(Seq::empty())
                    } else {
                        let d2 = if opens(k) {
                            depth + 1
                        } else if closes(k) {
                            if depth > 0 {
                                depth - 1
                            } else {
                                0
                            }
                        } else {
                            depth
                        };
                        if opens(k) && d2 > 64 {
                            Err(lex_err("ADGL0103", "nesting depth exceeds 64", j, e))
                        } else {
                            match tokens_from(s, e, d2) {
                                Ok(ts) => Ok(seq![(k, j, e)] + ts),
                                Err(x) => Err(x),
                            }
                        }
                    },
                }
            },
        }
    }
}

/// The value of a lexed token.
pub open spec fn token_view(t: Token) -> (TokSpec, int, int) {
    (kind_view(t.kind), t.start as int, t.end as int)
}

/// Tokenizes a whole source. Sources over 4 MiB are `ADGL0102`; otherwise
/// the result is [`tokens_from`] from byte 0 at depth 0.
#[verifier::rlimit(50)]
pub fn tokenize(src: &str) -> (r: Result<Vec<Token>, LexError>)
    ensures
        src.spec_bytes().len() > 4 * 1024 * 1024 ==> r == Err::<Vec<Token>, LexError>(
            lex_err("ADGL0102", "source exceeds 4 MiB limit", 0, src.spec_bytes().len() as int),
        ),
        src.spec_bytes().len() <= 4 * 1024 * 1024 ==> match tokens_from(src.spec_bytes(), 0, 0) {
            Ok(ts) => r matches Ok(v) && v@.len() == ts.len() && forall|i: int|
                0 <= i < ts.len() ==> token_view(#[trigger] v@[i]) == ts[i],
            Err(e) => r == Err::<Vec<Token>, LexError>(e),
        },
{
    let s = src.as_bytes();
    let slen = s.len();
    if slen > 4 * 1024 * 1024 {
        return Err(LexError { code: "ADGL0102", message: "source exceeds 4 MiB limit", start: 0, end: slen });
    }
    let mut out: Vec<Token> = Vec::new();
    let mut pos: usize = 0;
    let mut depth: usize = 0;
    loop
        invariant
            pos <= s@.len(),
            slen == s@.len(),
            slen <= 4 * 1024 * 1024,
            s@ == src.spec_bytes(),
            depth <= 64,
            tokens_from(s@, 0, 0) == match tokens_from(s@, pos as int, depth as int) {
                Ok(ts) => Ok(out@.map_values(|t: Token| token_view(t)) + ts),
                Err(e) => Err::<Seq<(TokSpec, int, int)>, LexError>(e),
            },
        decreases s@.len() - pos,
    {
        proof {
            lemma_skip_bounds(s@, pos as int);
        }
        let ghost before = out@;
        let (j, _trivia) = match skip_ws_and_comments(s, pos) {
            Ok(x) => x,
            Err(e) => {
                return Err(e);
            },
        };
        if j >= slen {
            out.push(Token { kind: TokenKind::Eof, start: slen, end: slen });
            proof {
                let tv = (TokSpec::Eof, slen as int, slen as int);
                assert(out@.map_values(|t: Token| token_view(t)) =~= before.map_values(|t: Token| token_view(t)).push(tv));
                assert(before.map_values(|t: Token| token_view(t)) + seq![tv] =~= before.map_values(|t: Token| token_view(t)).push(tv));
            }
            proof {
                assert forall|i: int| 0 <= i < out@.len() implies token_view(#[trigger] out@[i]) == out@.map_values(|t: Token| token_view(t))[i] by {}
            }
            return Ok(out);
        }
        let tok = match next_token(s, j) {
            Ok(t) => t,
            Err(e) => {
                return Err(e);
            },
        };
        let opener = match tok.kind {
            TokenKind::Punct(Punct::LBrace) | TokenKind::Punct(Punct::LParen) | TokenKind::Punct(Punct::LBracket) => true,
            _ => false,
        };
        let closer = match tok.kind {
            TokenKind::Punct(Punct::RBrace) | TokenKind::Punct(Punct::RParen) | TokenKind::Punct(Punct::RBracket) => true,
            _ => false,
        };
        let d2: usize = if opener {
            depth + 1
        } else if closer {
            if depth > 0 {
                depth - 1
            } else {
                0
            }
        } else {
            depth
        };
        if opener && d2 > 64 {
            return Err(LexError { code: "ADGL0103", message: "nesting depth exceeds 64", start: tok.start, end: tok.end });
        }
        let e = tok.end;
        let ghost tv = token_view(tok);
        out.push(tok);
        proof {
            assert(out@.map_values(|t: Token| token_view(t)) =~= before.map_values(|t: Token| token_view(t)).push(tv));
            match tokens_from(s@, e as int, d2 as int) {
                Ok(ts) => {
                    assert(before.map_values(|t: Token| token_view(t)) + (seq![tv] + ts) =~= out@.map_values(|t: Token| token_view(t)) + ts);
                },
                Err(_) => {},
            }
        }
        pos = e;
        depth = d2;
    }
}


/// Inside a string literal, a backslash escape stands for one fixed byte:
/// `\t` for 0x09, `\n` for 0x0A, `\r` for 0x0D, `\0` for 0x00, `\"` for
/// 0x22 and `\\` for 0x5C; decoding goes on after the two escape bytes.
pub proof fn law_string_escapes(s: Seq<u8>, start: int, j: int, out: Seq<u8>)
    requires
        0 <= j,
        j + 1 < s.len(),
        s[j] == 92u8,
    ensures
        s[j + 1] == 116u8 ==> str_body(s, start, j, out) == str_body(s, start, j + 2, out.push(9u8)),
        s[j + 1] == 110u8 ==> str_body(s, start, j, out) == str_body(s, start, j + 2, out.push(10u8)),
        s[j + 1] == 114u8 ==> str_body(s, start, j, out) == str_body(s, start, j + 2, out.push(13u8)),
        s[j + 1] == 48u8 ==> str_body(s, start, j, out) == str_body(s, start, j + 2, out.push(0u8)),
        s[j + 1] == 34u8 ==> str_body(s, start, j, out) == str_body(s, start, j + 2, out.push(34u8)),
        s[j + 1] == 92u8 ==> str_body(s, start, j, out) == str_body(s, start, j + 2, out.push(92u8)),
{
}

/// Inside a string literal, an ASCII byte other than `"` and `\\` stands
/// for itself, and a `"` ends the literal with what was decoded so far.
pub proof fn law_string_plain_bytes(s: Seq<u8>, start: int, j: int, out: Seq<u8>)
    requires
        0 <= j < s.len(),
    ensures
        s[j] < 128 && s[j] != 34u8 && s[j] != 92u8 ==> str_body(s, start, j, out) == str_body(
            s,
            start,
            j + 1,
            out.push(s[j]),
        ),
        s[j] == 34u8 ==> str_body(s, start, j, out) == Ok::<(Seq<u8>, int), LexError>((out, j + 1)),
{
    if s[j] < 128 && s[j] != 34u8 && s[j] != 92u8 {
        assert(s.subrange(j, j + 1) =~= seq![s[j]]);
        assert(out + s.subrange(j, j + 1) =~= out.push(s[j]));
    }
}

/// A literal of a plain ASCII byte `a`, one escape and a plain ASCII byte
/// `b` at `i` is the string token of the three bytes `a`, the escape's
/// byte, `b`, ending after the closing quote.
pub proof fn law_string_literal_with_escape(s: Seq<u8>, i: int, a: u8, e: u8, b: u8)
    requires
        0 <= i,
        i + 5 < s.len(),
        s[i] == 34u8 && s[i + 1] == a && s[i + 2] == 92u8 && s[i + 3] == e && s[i + 4] == b && s[i + 5] == 34u8,
        a < 128 && a != 34u8 && a != 92u8,
        b < 128 && b != 34u8 && b != 92u8,
    ensures
        e == 116u8 ==> string_spec(s, i) == Ok::<(TokSpec, int), LexError>((TokSpec::Str(seq![a, 9u8, b]), i + 6)),
        e == 110u8 ==> string_spec(s, i) == Ok::<(TokSpec, int), LexError>((TokSpec::Str(seq![a, 10u8, b]), i + 6)),
        e == 114u8 ==> string_spec(s, i) == Ok::<(TokSpec, int), LexError>((TokSpec::Str(seq![a, 13u8, b]), i + 6)),
        e == 48u8 ==> string_spec(s, i) == Ok::<(TokSpec, int), LexError>((TokSpec::Str(seq![a, 0u8, b]), i + 6)),
{
    let e0 = Seq::<u8>::empty();
    law_string_plain_bytes(s, i, i + 1, e0);
    law_string_escapes(s, i, i + 2, e0.push(a));
    let d: u8 = if e == 116u8 {
        9u8
    } else if e == 110u8 {
        10u8
    } else if e == 114u8 {
        13u8
    } else {
        0u8
    };
    law_string_plain_bytes(s, i, i + 4, e0.push(a).push(d));
    law_string_plain_bytes(s, i, i + 5, e0.push(a).push(d).push(b));
    assert(e0.push(a).push(d).push(b) =~= seq![a, d, b]);
}


/// A `\xHL` escape with `H` in `0..7` and `L` a hex digit stands for the
/// ASCII byte `16 * H + L`.
pub proof fn law_string_hex_escape(s: Seq<u8>, start: int, j: int, out: Seq<u8>)
    requires
        0 <= j,
        j + 3 < s.len(),
        s[j] == 92u8,
        s[j + 1] == 120u8,
        48 <= s[j + 2] <= 55,
        (48 <= s[j + 3] <= 57) || (97 <= s[j + 3] <= 102) || (65 <= s[j + 3] <= 70),
    ensures
        str_body(s, start, j, out) == str_body(
            s,
            start,
            j + 4,
            out.push(
                ((s[j + 2] - 48) * 16 + if 48 <= s[j + 3] <= 57 {
                    s[j + 3] - 48
                } else if 97 <= s[j + 3] <= 102 {
                    s[j + 3] - 87
                } else {
                    s[j + 3] - 55
                }) as u8,
            ),
        ),
{
    let v: u8 = ((s[j + 2] - 48) * 16 + if 48 <= s[j + 3] <= 57 {
        s[j + 3] - 48
    } else if 97 <= s[j + 3] <= 102 {
        s[j + 3] - 87
    } else {
        s[j + 3] - 55
    }) as u8;
    assert(v < 0x80);
    assert(byte_char_utf8(v) == seq![v]);
    assert(out + seq![v] =~= out.push(v));
}

} // verus!
