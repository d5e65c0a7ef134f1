//! The leading path directives of a source file: each directive is the
//! directive keyword, a string literal path, and the end of its line;
//! whitespace and comments may stand between directives. Scanning stops at
//! the first thing that is not a directive (normally `ruleset`).
use vstd::prelude::*;
use vstd::string::StringSliceAdditionalSpecFns;

use crate::syntax::lexer::{at2, byte_char_utf8, ident_continue_byte};

verus! {

/// Whether `b` continues an identifier (ASCII letter, digit or `_`).
pub fn is_ident_cont(b: u8) -> (r: bool)
    ensures
        r == ident_continue_byte(b),
{
    (65 <= b && b <= 90) || (97 <= b && b <= 122) || (48 <= b && b <= 57) || b == 95
}

/// Spaces, tabs and carriage returns from `i` (not line feeds).
pub open spec fn blank_byte(b: u8) -> bool {
    b == 32 || b == 9 || b == 13
}

/// First index `>= i` that is not a blank (or the end).
pub open spec fn skip_blank_spec(s: Seq<u8>, i: int) -> int
    decreases s.len() - i,
{
    if 0 <= i < s.len() && blank_byte(s[i]) {
        skip_blank_spec(s, i + 1)
    } else {
        i
    }
}

/// Skips spaces, tabs and carriage returns from `i`.
pub fn skip_ws_only(bytes: &[u8], i: usize) -> (j: usize)
    ensures
        j == skip_blank_spec(bytes@, i as int),
{
    let mut j = i;
    while j < bytes.len() && (bytes[j] == 32 || bytes[j] == 9 || bytes[j] == 13)
        invariant
            i <= j,
            skip_blank_spec(bytes@, i as int) == skip_blank_spec(bytes@, j as int),
        decreases bytes@.len() - j,
    {
        j = j + 1;
    }
    j
}

/// Whether `bytes` holds `word` at `i`.
pub fn starts_with_word(bytes: &[u8], i: usize, word: &[u8]) -> (r: bool)
    ensures
        r == (i <= bytes@.len() && i + word@.len() <= bytes@.len() && bytes@.subrange(
            i as int,
            i + word@.len(),
        ) == word@),
{
    if i > bytes.len() || word.len() > bytes.len() - i {
        return false;
    }
    let n = bytes.len();
    let mut k: usize = 0;
    while k < word.len()
        invariant
            0 <= k <= word@.len(),
            n == bytes@.len(),
            i + word@.len() <= bytes@.len(),
            forall|x: int| 0 <= x < k ==> bytes@[i + x] == word@[x],
        decreases word@.len() - k,
    {
        if bytes[i + k] != word[k] {
            return false;
        }
        k = k + 1;
    }
    proof {
        assert(bytes@.subrange(i as int, i + word@.len()) =~= word@);
    }
    true
}

/// Skipping whitespace and comments from `i`: the next position, or the
/// span of an unclosed block comment.
pub open spec fn inc_skip(s: Seq<u8>, i: int) -> Result<int, (int, int)>
    decreases s.len() - i, 1int,
{
    if 0 <= i < s.len() && (blank_byte(s[i]) || s[i] == 10) {
        inc_skip(s, i + 1)
    } else if at2(s, i, 47, 47) {
        inc_line(s, i + 2)
    } else if at2(s, i, 47, 42) {
        inc_block(s, i, i + 2)
    } else {
        Ok(i)
    }
}

/// Inside a line comment at `j`.
pub open spec fn inc_line(s: Seq<u8>, j: int) -> Result<int, (int, int)>
    decreases s.len() - j, 2int,
{
    if 0 <= j < s.len() && s[j] != 10 {
        inc_line(s, j + 1)
    } else {
        inc_skip(s, j)
    }
}

/// Inside a block comment opened at `start`, at `j`.
pub open spec fn inc_block(s: Seq<u8>, start: int, j: int) -> Result<int, (int, int)>
    decreases s.len() - j, 2int,
{
    if j < 0 || j + 1 >= s.len() {
        Err((start, s.len() as int))
    } else if s[j] == 42 && s[j + 1] == 47 {
        inc_skip(s, j + 2)
    } else {
        inc_block(s, start, j + 1)
    }
}

proof fn lemma_inc_skip(s: Seq<u8>, i: int)
    requires
        0 <= i <= s.len(),
    ensures
        inc_skip(s, i) matches Ok(k) ==> i <= k <= s.len(),
    decreases s.len() - i, 1int,
{
    if i < s.len() && (blank_byte(s[i]) || s[i] == 10) {
        lemma_inc_skip(s, i + 1);
    } else if at2(s, i, 47, 47) {
        lemma_inc_line(s, i + 2);
    } else if at2(s, i, 47, 42) {
        lemma_inc_block(s, i, i + 2);
    }
}

proof fn lemma_inc_line(s: Seq<u8>, j: int)
    requires
        0 <= j <= s.len(),
    ensures
        inc_line(s, j) matches Ok(k) ==> j <= k <= s.len(),
    decreases s.len() - j, 2int,
{
    if j < s.len() && s[j] != 10 {
        lemma_inc_line(s, j + 1);
    } else {
        lemma_inc_skip(s, j);
    }
}

proof fn lemma_inc_block(s: Seq<u8>, start: int, j: int)
    requires
        0 <= j <= s.len(),
    ensures
        inc_block(s, start, j) matches Ok(k) ==> j <= k <= s.len(),
    decreases s.len() - j, 2int,
{
    if j + 1 < s.len() {
        if s[j] == 42 && s[j + 1] == 47 {
            lemma_inc_skip(s, j + 2);
        } else {
            lemma_inc_block(s, start, j + 1);
        }
    }
}

/// Skips whitespace (line feeds included) and comments from `i`; an
/// unclosed block comment is reported by its span (`/*` to the end).
pub fn skip_ws_and_comments(bytes: &[u8], i: usize) -> (r: Result<usize, (usize, usize)>)
    requires
        i <= bytes@.len(),
    ensures
        match inc_skip(bytes@, i as int) {
            Ok(k) => r == Ok::<usize, (usize, usize)>(k as usize),
            Err((a, b)) => r == Err::<usize, (usize, usize)>((a as usize, b as usize)),
        },
{
    let n = bytes.len();
    let mut p = i;
    proof {
        lemma_inc_skip(bytes@, i as int);
    }
    loop
        invariant
            i <= p <= n,
            n == bytes@.len(),
            inc_skip(bytes@, i as int) == inc_skip(bytes@, p as int),
        decreases n - p,
    {
        if p < n && (bytes[p] == 32 || bytes[p] == 9 || bytes[p] == 13 || bytes[p] == 10) {
            p = p + 1;
        } else if p < n && n - p >= 2 && bytes[p] == 47 && bytes[p + 1] == 47 {
            let mut j = p + 2;
            proof {
                assert(inc_skip(bytes@, p as int) == inc_line(bytes@, p + 2));
            }
            while j < n && bytes[j] != 10
                invariant
                    p + 2 <= j <= n,
                    n == bytes@.len(),
                    inc_line(bytes@, p + 2) == inc_line(bytes@, j as int),
                decreases n - j,
            {
                j = j + 1;
            }
            p = j;
        } else if p < n && n - p >= 2 && bytes[p] == 47 && bytes[p + 1] == 42 {
            let start = p;
            let mut j = p + 2;
            proof {
                assert(inc_skip(bytes@, p as int) == inc_block(bytes@, start as int, p + 2));
            }
            loop
                invariant
                    start + 2 <= j <= n,
                    n == bytes@.len(),
                    inc_skip(bytes@, i as int) == inc_block(bytes@, start as int, j as int),
                ensures
                    j + 1 < n,
                    bytes@[j as int] == 42 && bytes@[j + 1] == 47,
                    inc_skip(bytes@, i as int) == inc_block(bytes@, start as int, j as int),
                decreases n - j,
            {
                if n - j < 2 {
                    return Err((start, n));
                }
                if bytes[j] == 42 && bytes[j + 1] == 47 {
                    break;
                }
                j = j + 1;
            }
            p = j + 2;
        } else {
            return Ok(p);
        }
    }
}

/// A string literal path at `i`: the decoded bytes (escapes `\" \\ \n \t`;
/// any other escaped or plain byte becomes the character of that byte
/// value) and the position after the closing quote; or the error span. A
/// line break or the end of input before the closing quote is an error.
pub open spec fn str_lit_spec(s: Seq<u8>, i: int) -> Result<(Seq<u8>, int), (int, int)> {
    if i < 0 || i >= s.len() || s[i] != 34 {
        Err((i, if i < s.len() {
            i
        } else {
            s.len() as int
        }))
    } else {
        str_lit_body(s, i, i + 1, Seq::empty())
    }
}

/// The body of a path literal opened at `start`, at `j`, having decoded
/// `out`.
pub open spec fn str_lit_body(s: Seq<u8>, start: int, j: int, out: Seq<u8>) -> Result<(Seq<u8>, int), (int, int)>
    decreases s.len() - j,
{
    if j < 0 || j >= s.len() {
        Err((start, s.len() as int))
    } else if s[j] == 34 {
        Ok((out, j + 1))
    } else if s[j] == 92 {
        if j + 1 >= s.len() {
            Err((start, s.len() as int))
        } else {
            let e = s[j + 1];
            let d: Seq<u8> = if e == 34 {
                seq![34u8]
            } else if e == 92 {
                seq![92u8]
            } else if e == 110 {
                seq![10u8]
            } else if e == 116 {
                seq![9u8]
            } else {
                byte_char_utf8(e)
            };
            str_lit_body(s, start, j + 2, out + d)
        }
    } else if s[j] == 10 || s[j] == 13 {
        Err((start, j))
    } else {
        str_lit_body(s, start, j + 1, out + byte_char_utf8(s[j]))
    }
}

fn push_char_of_byte(out: &mut Vec<u8>, b: u8)
    ensures
        final(out)@ == old(out)@ + byte_char_utf8(b),
{
    let ghost o = out@;
    if b < 0x80 {
        out.push(b);
    } else {
        out.push(0xC0u8 | (b >> 6u8));
        out.push(0x80u8 | (b & 0x3Fu8));
    }
    proof {
        assert(out@ =~= o + byte_char_utf8(b));
    }
}

/// Parses a path literal at `i` (see [`str_lit_spec`]): the decoded bytes,
/// its span start and the position after it.
pub fn parse_string_lit(bytes: &[u8], i: usize) -> (r: Result<(Vec<u8>, usize, usize), (usize, usize)>)
    ensures
        match str_lit_spec(bytes@, i as int) {
            Ok((out, e)) => r matches Ok((v, st, en)) && v@ == out && st == i && en == e,
            Err((a, b)) => r == Err::<(Vec<u8>, usize, usize), (usize, usize)>((a as usize, b as usize)),
        },
{
    let n = bytes.len();
    if i >= n || bytes[i] != 34 {
        return Err((i, if i < n {
            i
        } else {
            n
        }));
    }
    let start = i;
    let mut j = i + 1;
    let mut out: Vec<u8> = Vec::new();
    loop
        invariant
            start == i,
            start < j <= n,
            n == bytes@.len(),
            str_lit_spec(bytes@, start as int) == str_lit_body(bytes@, start as int, j as int, out@),
        decreases n - j,
    {
        if j >= n {
            return Err((start, n));
        }
        let b = bytes[j];
        if b == 34 {
            return Ok((out, start, j + 1));
        } else if b == 92 {
            if j + 1 >= n {
                return Err((start, n));
            }
            let e = bytes[j + 1];
            let ghost o = out@;
            if e == 34 {
                out.push(34);
            } else if e == 92 {
                out.push(92);
            } else if e == 110 {
                out.push(10);
            } else if e == 116 {
                out.push(9);
            } else {
                push_char_of_byte(&mut out, e);
            }
            proof {
                if e == 34 || e == 92 || e == 110 || e == 116 {
                    let d: Seq<u8> = if e == 34 {
                        seq![34u8]
                    } else if e == 92 {
                        seq![92u8]
                    } else if e == 110 {
                        seq![10u8]
                    } else {
                        seq![9u8]
                    };
                    assert(out@ =~= o + d);
                }
            }
            j = j + 2;
        } else if b == 10 || b == 13 {
            return Err((start, j));
        } else {
            push_char_of_byte(&mut out, b);
            j = j + 1;
        }
    }
}

/// One leading path directive: the decoded path bytes and the span from
/// the keyword to the end of the path literal.
#[derive(Debug, Clone, PartialEq, Eq)]
pub struct IncludeDir {
    /// The path, UTF-8 bytes.
    pub path: Vec<u8>,
    /// Start of the directive keyword.
    pub start: usize,
    /// End of the path literal.
    pub end: usize,
}

/// A malformed leading directive section.
#[derive(Debug, Clone, Copy, PartialEq, Eq)]
pub struct IncludeError {
    /// `ADGL0106` for an unclosed comment, `ADGL0202` for a malformed
    /// directive.
    pub code: &'static str,
    /// Human-readable message.
    pub message: &'static str,
    /// First byte.
    pub start: usize,
    /// One past the last byte.
    pub end: usize,
}

/// The value of a directive: path bytes and span.
pub open spec fn dir_view(d: IncludeDir) -> (Seq<u8>, int, int) {
    (d.path@, d.start as int, d.end as int)
}

/// The directive keyword, as bytes.
pub open spec fn directive_keyword() -> Seq<u8> {
    seq![105u8, 110u8, 99u8, 108u8, 117u8, 100u8, 101u8]
}

/// The leading directives from `i`: each directive's path and span, and
/// where the rest of the source (the body) begins; or the error.
pub open spec fn includes_from(s: Seq<u8>, i: int) -> Result<(Seq<(Seq<u8>, int, int)>, int), IncludeError>
    decreases s.len() - i,
{
    if i < 0 || i > s.len() {
        Ok((Seq::empty(), i))
    } else {
        match inc_skip(s, i) {
            Err((a, b)) => Err(
                IncludeError {
                    code: "ADGL0106",
                    message: "unclosed block comment while scanning leading directives",
                    start: a as usize,
                    end: b as usize,
                },
            ),
            Ok(j) => if j < i || j >= s.len() || !(j + 7 <= s.len() && s.subrange(j, j + 7) == directive_keyword()) {
                Ok((Seq::empty(), j))
            } else if j + 7 < s.len() && ident_continue_byte(s[j + 7]) {
                Ok((Seq::empty(), j))
            } else {
                let p = skip_blank_spec(s, j + 7);
                match str_lit_spec(s, p) {
                    Err((a, b)) => Err(
                        IncludeError {
                            code: "ADGL0202",
                            message: "expected string literal path after the directive keyword",
                            start: a as usize,
                            end: b as usize,
                        },
                    ),
                    Ok((path, after)) => {
                        let q = skip_blank_spec(s, after);
                        if q < s.len() && s[q] != 10 && s[q] != 47 {
                            Err(
                                IncludeError {
                                    code: "ADGL0202",
                                    message: "unexpected tokens after a path directive (it must end at a line break)",
                                    start: q as usize,
                                    end: (q + 1) as usize,
                                },
                            )
                        } else if q <= i || q > s.len() {
                            Ok((Seq::empty(), j))
                        } else {
                            match includes_from(s, q) {
                                Ok((ds, body)) => Ok((seq![(path, j, after)] + ds, body)),
                                Err(e) => Err(e),
                            }
                        }
                    },
                }
            },
        }
    }
}

proof fn lemma_blank_bounds(s: Seq<u8>, i: int)
    requires
        0 <= i <= s.len(),
    ensures
        i <= skip_blank_spec(s, i) <= s.len(),
    decreases s.len() - i,
{
    if i < s.len() && blank_byte(s[i]) {
        lemma_blank_bounds(s, i + 1);
    }
}

proof fn lemma_str_lit_bounds(s: Seq<u8>, start: int, j: int, out: Seq<u8>)
    requires
        0 <= start < j <= s.len(),
    ensures
        str_lit_body(s, start, j, out) matches Ok((o, e)) ==> j < e <= s.len(),
    decreases s.len() - j,
{
    if j < s.len() && s[j] != 34 {
        if s[j] == 92 {
            if j + 1 < s.len() {
                let e = s[j + 1];
                let d: Seq<u8> = if e == 34 {
                    seq![34u8]
                } else if e == 92 {
                    seq![92u8]
                } else if e == 110 {
                    seq![10u8]
                } else if e == 116 {
                    seq![9u8]
                } else {
                    byte_char_utf8(e)
                };
                lemma_str_lit_bounds(s, start, j + 2, out + d);
            }
        } else if s[j] != 10 && s[j] != 13 {
            lemma_str_lit_bounds(s, start, j + 1, out + byte_char_utf8(s[j]));
        }
    }
}

/// Scans the leading path directives of `src`. Returns the directives
/// in order and the byte offset where the body (the rest of the source)
/// starts; see [`includes_from`].
pub fn strip_leading_includes(src: &str) -> (r: Result<(Vec<IncludeDir>, usize), IncludeError>)
    ensures
        match includes_from(src.spec_bytes(), 0) {
            Ok((ds, body)) => r matches Ok((v, b)) && b == body && v@.len() == ds.len() && forall|k: int|
                0 <= k < ds.len() ==> dir_view(#[trigger] v@[k]) == ds[k],
            Err(e) => r == Err::<(Vec<IncludeDir>, usize), IncludeError>(e),
        },
{
    let bytes = src.as_bytes();
    let n = bytes.len();
    let word: [u8; 7] = [105u8, 110u8, 99u8, 108u8, 117u8, 100u8, 101u8];
    let mut i: usize = 0;
    let mut dirs: Vec<IncludeDir> = Vec::new();
    proof {
        assert(word@ =~= directive_keyword());
    }
    loop
        invariant
            i <= n,
            n == bytes@.len(),
            bytes@ == src.spec_bytes(),
            word@ == directive_keyword(),
            includes_from(bytes@, 0) == match includes_from(bytes@, i as int) {
                Ok((ds, body)) => Ok((dirs@.map_values(|d: IncludeDir| dir_view(d)) + ds, body)),
                Err(e) => Err::<(Seq<(Seq<u8>, int, int)>, int), IncludeError>(e),
            },
        decreases n - i,
    {
        proof {
            lemma_inc_skip(bytes@, i as int);
        }
        let j = match skip_ws_and_comments(bytes, i) {
            Ok(j) => j,
            Err((a, b)) => {
                return Err(
                    IncludeError {
                        code: "ADGL0106",
                        message: "unclosed block comment while scanning leading directives",
                        start: a,
                        end: b,
                    },
                );
            },
        };
        if j >= n || !starts_with_word(bytes, j, word.as_slice()) {
            proof {
                assert(dirs@.map_values(|d: IncludeDir| dir_view(d)) + Seq::<(Seq<u8>, int, int)>::empty()
                    =~= dirs@.map_values(|d: IncludeDir| dir_view(d)));
            }
            let ghost dv = dirs@.map_values(|d: IncludeDir| dir_view(d));
            proof {
                assert forall|k: int| 0 <= k < dirs@.len() implies dir_view(#[trigger] dirs@[k]) == dv[k] by {}
            }
            return Ok((dirs, j));
        }
        let after_word = j + 7;
        if after_word < n && is_ident_cont(bytes[after_word]) {
            proof {
                assert(dirs@.map_values(|d: IncludeDir| dir_view(d)) + Seq::<(Seq<u8>, int, int)>::empty()
                    =~= dirs@.map_values(|d: IncludeDir| dir_view(d)));
            }
            let ghost dv = dirs@.map_values(|d: IncludeDir| dir_view(d));
            proof {
                assert forall|k: int| 0 <= k < dirs@.len() implies dir_view(#[trigger] dirs@[k]) == dv[k] by {}
            }
            return Ok((dirs, j));
        }
        let p = skip_ws_only(bytes, after_word);
        proof {
            lemma_blank_bounds(bytes@, after_word as int);
        }
        let (path, pstart, after) = match parse_string_lit(bytes, p) {
            Ok(x) => x,
            Err((a, b)) => {
                return Err(
                    IncludeError {
                        code: "ADGL0202",
                        message: "expected string literal path after the directive keyword",
                        start: a,
                        end: b,
                    },
                );
            },
        };
        proof {
            lemma_str_lit_bounds(bytes@, p as int, p + 1, Seq::empty());
            lemma_blank_bounds(bytes@, after as int);
        }
        let q = skip_ws_only(bytes, after);
        if q < n && bytes[q] != 10 && bytes[q] != 47 {
            return Err(
                IncludeError {
                    code: "ADGL0202",
                    message: "unexpected tokens after a path directive (it must end at a line break)",
                    start: q,
                    end: q + 1,
                },
            );
        }
        let ghost before = dirs@.map_values(|d: IncludeDir| dir_view(d));
        let d = IncludeDir { path, start: j, end: after };
        let ghost dv1 = dir_view(d);
        dirs.push(d);
        proof {
            assert(dirs@.map_values(|d: IncludeDir| dir_view(d)) =~= before.push(dv1));
            match includes_from(bytes@, q as int) {
                Ok((ds, body)) => {
                    assert(before + (seq![dv1] + ds) =~= dirs@.map_values(|d: IncludeDir| dir_view(d)) + ds);
                },
                Err(_) => {},
            }
        }
        i = q;
    }
}

} // verus!
