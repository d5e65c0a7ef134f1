//! Appending text to a `String`, and the lowercase hexadecimal digits the
//! SARIF writer renders.
use vstd::prelude::*;

verus! {

/// `String::push`: appends one character to the end of the string. The
/// contract claims that the string's characters afterwards are the old
/// ones followed by `c`, as std documents.
#[verifier::external_body]
pub(crate) fn push_char(s: &mut String, c: char)
    ensures
        final(s)@ == old(s)@.push(c),
{
    s.push(c);
}

/// `String::push_str`: appends a string slice to the end of the string.
/// The contract claims that the string's characters afterwards are the old
/// ones followed by those of `t`, as std documents.
#[verifier::external_body]
pub(crate) fn push_text(s: &mut String, t: &str)
    ensures
        final(s)@ == old(s)@ + t@,
{
    s.push_str(t);
}

/// The lowercase hexadecimal digits.
pub open spec fn hex_digit_table() -> Seq<char> {
    seq!['0', '1', '2', '3', '4', '5', '6', '7', '8', '9', 'a', 'b', 'c', 'd', 'e', 'f']
}

/// The lowercase hexadecimal digit of `d < 16`.
pub open spec fn hex_digit(d: int) -> char {
    hex_digit_table()[d]
}

/// The last `n` hexadecimal digits of `x`, most significant first (zero
/// padded).
pub open spec fn hex_digits(x: nat, n: nat) -> Seq<char>
    decreases n,
{
    if n == 0 {
        Seq::empty()
    } else {
        hex_digits(x / 16, (n - 1) as nat).push(hex_digit((x % 16) as int))
    }
}

/// The hexadecimal digit of `d`.
pub fn hex_char(d: u64) -> (c: char)
    requires
        d < 16,
    ensures
        c == hex_digit(d as int),
{
    let t = ['0', '1', '2', '3', '4', '5', '6', '7', '8', '9', 'a', 'b', 'c', 'd', 'e', 'f'];
    proof {
        assert(t@ =~= hex_digit_table());
    }
    t[d as usize]
}

/// Appends the last `n` hexadecimal digits of `x`, zero padded.
pub fn push_hex(out: &mut String, x: u64, n: u32)
    ensures
        final(out)@ == old(out)@ + hex_digits(x as nat, n as nat),
    decreases n,
{
    if n > 0 {
        push_hex(out, x / 16, n - 1);
        push_char(out, hex_char(x % 16));
        proof {
            assert(hex_digits(x as nat, n as nat) == hex_digits((x / 16) as nat, (n - 1) as nat).push(
                hex_digit((x % 16) as int),
            ));
        }
    } else {
        proof {
            assert(old(out)@ + hex_digits(x as nat, 0) =~= old(out)@);
        }
    }
}

/// The decimal digits of `n`, most significant first (`0` for zero).
pub open spec fn decimal_digits(n: nat) -> Seq<char>
    decreases n,
{
    if n < 10 {
        seq![hex_digit(n as int)]
    } else {
        decimal_digits(n / 10).push(hex_digit((n % 10) as int))
    }
}

/// Appends the decimal digits of `n`.
pub fn push_decimal(out: &mut String, n: u64)
    ensures
        final(out)@ == old(out)@ + decimal_digits(n as nat),
    decreases n,
{
    if n < 10 {
        push_char(out, hex_char(n as u64));
        proof {
            assert(old(out)@.push(hex_digit(n as int)) =~= old(out)@ + decimal_digits(n as nat));
        }
    } else {
        push_decimal(out, n / 10);
        push_char(out, hex_char((n % 10) as u64));
        proof {
            assert(decimal_digits(n as nat) == decimal_digits((n / 10) as nat).push(hex_digit((n % 10) as int)));
        }
    }
}

/// The decimal text of `v`, with a leading `-` when negative (as
/// `i64::to_string` writes it).
pub open spec fn int_text(v: int) -> Seq<char> {
    if v < 0 {
        seq!['-'] + decimal_digits((-v) as nat)
    } else {
        decimal_digits(v as nat)
    }
}

/// Appends the decimal text of `v`.
pub fn push_int(out: &mut String, v: i64)
    ensures
        final(out)@ == old(out)@ + int_text(v as int),
{
    if v < 0 {
        push_char(out, '-');
        let wide: i128 = v as i128;
        let mag: u64 = (0i128 - wide) as u64;
        push_decimal(out, mag);
        proof {
            assert(old(out)@.push('-') + decimal_digits(mag as nat) =~= old(out)@ + int_text(v as int));
        }
    } else {
        push_decimal(out, v as u64);
    }
}

/// `String::from_utf8`: the string of the given bytes. The contract claims
/// that valid UTF-8 decodes to its characters and that anything else gives
/// the empty string (the conversion's error is mapped to the default).
#[verifier::external_body]
pub(crate) fn utf8_text(bytes: Vec<u8>) -> (s: String)
    ensures
        vstd::utf8::valid_utf8(bytes@) ==> s@ == vstd::utf8::decode_utf8(bytes@),
        !vstd::utf8::valid_utf8(bytes@) ==> s@ == Seq::<char>::empty(),
{
    String::from_utf8(bytes).unwrap_or_default()
}

/// `String::from_utf8_lossy`: the text of the given bytes. The contract
/// claims that valid UTF-8 decodes to its characters; what invalid
/// sequences become (replacement characters) is left unsaid.
#[verifier::external_body]
pub(crate) fn lossy_text(bytes: &[u8]) -> (s: String)
    ensures
        vstd::utf8::valid_utf8(bytes@) ==> s@ == vstd::utf8::decode_utf8(bytes@),
{
    String::from_utf8_lossy(bytes).into_owned()
}

} // verus!
