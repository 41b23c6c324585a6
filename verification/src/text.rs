//! Text and numbers inside packets: UTF-8, case folding, decimal numbers.

use vstd::prelude::*;
use vstd::slice::slice_index_get;
use vstd::utf8::*;

verus! {

/// `std::string::FromUtf8Error`, the error of `String::from_utf8`. It is
/// only carried from that call to the one that describes it.
#[verifier::external_type_specification]
#[verifier::external_body]
pub struct ExFromUtf8Error(std::string::FromUtf8Error);

/// The text that `String::from_utf8_lossy` makes of a byte string.
pub uninterp spec fn lossy_text(bytes: Seq<u8>) -> Seq<char>;

/// The text that `str::to_lowercase` makes of a text.
pub uninterp spec fn lowercase_text(text: Seq<char>) -> Seq<char>;

/// An ASCII letter in lower case; any other character unchanged.
pub open spec fn ascii_lower_char(c: char) -> char {
    if 'A' <= c <= 'Z' {
        ((c as u8 + 32) as u8) as char
    } else {
        c
    }
}

/// A text with each ASCII capital letter replaced by its small letter.
pub open spec fn ascii_lowercase(text: Seq<char>) -> Seq<char> {
    Seq::new(text.len(), |i: int| ascii_lower_char(text[i]))
}

/// The text that a byte string is read as: what it encodes where it is
/// UTF-8, and what a lossy decoder makes of it where it is not.
pub open spec fn decoded_text(bytes: Seq<u8>) -> Seq<char> {
    if valid_utf8(bytes) {
        decode_utf8(bytes)
    } else {
        lossy_text(bytes)
    }
}

/// A text in lower case: ASCII letters by their table, any text with other
/// characters in it by the rules of Unicode.
pub open spec fn lowered_text(text: Seq<char>) -> Seq<char> {
    if is_ascii_chars(text) {
        ascii_lowercase(text)
    } else {
        lowercase_text(text)
    }
}

/// `String::from_utf8`: the text that the bytes encode, or an error where
/// they are not UTF-8.
#[verifier::external_body]
pub(crate) fn from_utf8(bytes: Vec<u8>) -> (r: Result<String, std::string::FromUtf8Error>)
    ensures
        r is Ok <==> valid_utf8(bytes@),
        r matches Ok(s) ==> s@ == decode_utf8(bytes@),
{
    String::from_utf8(bytes)
}

/// The `Debug` form of a `FromUtf8Error`, as `format!` prints it. Nothing
/// is claimed of the text.
#[verifier::external_body]
pub(crate) fn utf8_error_text(e: &std::string::FromUtf8Error) -> (text: String) {
    format!("{:?}", e)
}

/// `String::from_utf8_lossy`: the text that the bytes encode, with a
/// replacement character for every stretch that is not UTF-8. Bytes that
/// are UTF-8 come out as the text they encode.
#[verifier::external_body]
pub(crate) fn utf8_lossy(bytes: &[u8]) -> (text: String)
    ensures
        text@ == (if valid_utf8(bytes@) {
            decode_utf8(bytes@)
        } else {
            lossy_text(bytes@)
        }),
{
    String::from_utf8_lossy(bytes).into_owned()
}

/// `str::to_lowercase`: the text in lower case, by the rules of Unicode.
/// On a text of ASCII characters alone those rules replace the letters `A`
/// to `Z` by `a` to `z` and leave the rest.
#[verifier::external_body]
pub(crate) fn to_lowercase(text: &str) -> (lower: String)
    ensures
        lower@ == (if is_ascii_chars(text@) {
            ascii_lowercase(text@)
        } else {
            lowercase_text(text@)
        }),
{
    text.to_lowercase()
}

/// The text has no NUL character in it.
pub open spec fn no_nul(text: Seq<char>) -> bool {
    forall|i: int| 0 <= i < text.len() ==> #[trigger] text[i] != '\0'
}

/// The encoding of a character other than NUL has no NUL byte in it.
pub proof fn lemma_scalar_no_nul(scalar: u32)
    requires
        scalar != 0,
    ensures
        forall|i: int|
            0 <= i < encode_scalar(scalar).len() ==> #[trigger] encode_scalar(scalar)[i] != 0,
{
    let low = (scalar & 0x7F) as u8;
    let a = ((scalar >> 6) & 0x1F) as u8;
    let b = ((scalar >> 12) & 0x0F) as u8;
    let c = ((scalar >> 18) & 0x7) as u8;
    let x = (scalar & 0x3F) as u8;
    let y = ((scalar >> 6) & 0x3F) as u8;
    let z = ((scalar >> 12) & 0x3F) as u8;
    assert(scalar != 0 && scalar <= 0x7F ==> (scalar & 0x7F) as u8 != 0) by (bit_vector);
    assert(0xC0u8 | a != 0) by (bit_vector);
    assert(0xE0u8 | b != 0) by (bit_vector);
    assert(0xF0u8 | c != 0) by (bit_vector);
    assert(0x80u8 | x != 0) by (bit_vector);
    assert(0x80u8 | y != 0) by (bit_vector);
    assert(0x80u8 | z != 0) by (bit_vector);
}

/// The encoding of a text without a NUL character has no NUL byte in it.
pub proof fn lemma_text_no_nul(text: Seq<char>)
    requires
        no_nul(text),
    ensures
        forall|i: int| 0 <= i < encode_utf8(text).len() ==> #[trigger] encode_utf8(text)[i] != 0,
    decreases text.len(),
{
    if text.len() > 0 {
        let head = encode_scalar(text[0] as u32);
        let tail = encode_utf8(text.drop_first());
        assert(text[0] != '\0');
        char_is_scalar(text[0]);
        if text[0] as u32 == 0 {
            char_u32_cast(text[0], 0u32);
            assert(0u32 as char == '\0');
        }
        lemma_scalar_no_nul(text[0] as u32);
        assert forall|i: int| 0 <= i < text.drop_first().len() implies #[trigger] text.drop_first()[i]
            != '\0' by {
            assert(text.drop_first()[i] == text[i + 1]);
        }
        lemma_text_no_nul(text.drop_first());
        assert forall|i: int| 0 <= i < encode_utf8(text).len() implies #[trigger] encode_utf8(
            text,
        )[i] != 0 by {
            if i < head.len() {
                assert(encode_utf8(text)[i] == head[i]);
            } else {
                assert(encode_utf8(text)[i] == tail[i - head.len()]);
            }
        }
    }
}

/// Two byte slices hold the same bytes.
pub fn bytes_eq(a: &[u8], b: &[u8]) -> (r: bool)
    ensures
        r == (a@ == b@),
{
    if a.len() != b.len() {
        return false;
    }
    let mut i: usize = 0;
    while i < a.len()
        invariant
            i <= a.len(),
            a.len() == b.len(),
            forall|j: int| 0 <= j < i ==> a@[j] == b@[j],
        decreases a.len() - i,
    {
        if *slice_index_get(a, i) != *slice_index_get(b, i) {
            return false;
        }
        i += 1;
    }
    assert(a@ =~= b@);
    true
}

/// Two texts are the same, character by character.
pub fn str_eq(a: &str, b: &str) -> (r: bool)
    ensures
        r == (a@ == b@),
{
    let r = bytes_eq(a.as_bytes(), b.as_bytes());
    proof {
        encode_utf8_decode_utf8(a@);
        encode_utf8_decode_utf8(b@);
    }
    r
}

/// The byte is one of the ten ASCII digits.
pub open spec fn is_digit(b: u8) -> bool {
    48 <= b <= 57
}

/// Every byte is an ASCII digit.
pub open spec fn all_digits(s: Seq<u8>) -> bool {
    forall|i: int| 0 <= i < s.len() ==> is_digit(#[trigger] s[i])
}

/// The number that a string of ASCII digits spells in base ten.
pub open spec fn digits_value(s: Seq<u8>) -> nat
    decreases s.len(),
{
    if s.len() == 0 {
        0
    } else {
        digits_value(s.drop_last()) * 10 + (s.last() - 48) as nat
    }
}

/// The number that a byte string spells: an optional `+`, then one digit or
/// more. `None` for any other string.
pub open spec fn decimal_value(s: Seq<u8>) -> Option<nat> {
    let d = if s.len() > 0 && s[0] == 43 {
        s.skip(1)
    } else {
        s
    };
    if d.len() > 0 && all_digits(d) {
        Some(digits_value(d))
    } else {
        None
    }
}

/// The number that a byte string spells, where it spells one that is at
/// most `max`.
pub open spec fn bounded_decimal(s: Seq<u8>, max: nat) -> Option<nat> {
    match decimal_value(s) {
        Some(n) => if n <= max {
            Some(n)
        } else {
            None
        },
        None => None,
    }
}

/// The digits of a number in base ten, without leading zeros.
pub open spec fn decimal_digits(n: nat) -> Seq<u8>
    decreases n,
{
    if n < 10 {
        seq![(48 + n) as u8]
    } else {
        decimal_digits(n / 10).push((48 + n % 10) as u8)
    }
}

/// A string of digits spells at least what any of its prefixes spells.
pub proof fn lemma_digits_value_prefix(s: Seq<u8>, k: int)
    requires
        0 <= k <= s.len(),
    ensures
        digits_value(s.take(k)) <= digits_value(s),
    decreases s.len(),
{
    if k == s.len() {
        assert(s.take(k) =~= s);
    } else {
        assert(s.drop_last().take(k) =~= s.take(k));
        lemma_digits_value_prefix(s.drop_last(), k);
    }
}

/// Reads a decimal number of at most `max` out of a byte string.
pub fn parse_decimal(s: &[u8], max: u64) -> (r: Option<u64>)
    ensures
        r matches Some(n) ==> bounded_decimal(s@, max as nat) == Some(n as nat),
        r is None ==> bounded_decimal(s@, max as nat) is None,
{
    let n = s.len();
    let start: usize = if n > 0 && *slice_index_get(s, 0) == 43 {
        1
    } else {
        0
    };
    if start >= n {
        return None;
    }
    let ghost d = if start == 1 {
        s@.skip(1)
    } else {
        s@
    };
    let mut acc: u64 = 0;
    let mut i: usize = start;
    while i < n
        invariant
            start <= i <= n,
            n == s@.len(),
            start <= 1,
            d == (if start == 1 {
                s@.skip(1)
            } else {
                s@
            }),
            start == 1 <==> (s@.len() > 0 && s@[0] == 43),
            all_digits(d.take(i - start)),
            acc == digits_value(d.take(i - start)),
            acc <= max,
        decreases n - i,
    {
        let b = *slice_index_get(s, i);
        proof {
            let t = d.take(i - start + 1);
            assert(t.drop_last() =~= d.take(i - start));
            assert(t.last() == b);
            lemma_digits_value_prefix(d, i - start + 1);
            assert(d[i - start] == b);
        }
        if b < 48 || b > 57 {
            assert(!is_digit(d[i - start]));
            return None;
        }
        let digit: u64 = (b - 48) as u64;
        if digit > max {
            return None;
        }
        if acc > (max - digit) / 10 {
            assert(acc * 10 + digit > max) by (nonlinear_arith)
                requires
                    acc > (max - digit) / 10,
                    digit <= max,
                    digit < 10,
            ;
            return None;
        }
        assert(acc * 10 + digit <= max) by (nonlinear_arith)
            requires
                acc <= (max - digit) / 10,
                digit <= max,
        ;
        acc = acc * 10 + digit;
        i += 1;
        proof {
            let t = d.take(i - start);
            assert forall|j: int| 0 <= j < t.len() implies is_digit(#[trigger] t[j]) by {
                if j < t.len() - 1 {
                    assert(d.take(i - start - 1)[j] == t[j]);
                }
            }
        }
    }
    assert(d.take(i - start) =~= d);
    Some(acc)
}

/// Appends the digits of a number in base ten.
pub fn push_decimal(out: &mut Vec<u8>, n: u64)
    ensures
        final(out)@ == old(out)@ + decimal_digits(n as nat),
    decreases n,
{
    if n >= 10 {
        push_decimal(out, n / 10);
    }
    out.push(48 + (n % 10) as u8);
    assert(final(out)@ =~= old(out)@ + decimal_digits(n as nat));
}

/// The digits of a number are digits, at least one and at most twenty for
/// a number of 64 bits, and none of them is a NUL or a `+`.
pub proof fn lemma_decimal_digits(n: nat)
    ensures
        decimal_digits(n).len() >= 1,
        all_digits(decimal_digits(n)),
        digits_value(decimal_digits(n)) == n,
        decimal_value(decimal_digits(n)) == Some(n),
    decreases n,
{
    if n < 10 {
        let s = decimal_digits(n);
        assert(s.drop_last() =~= Seq::<u8>::empty());
        assert(digits_value(s.drop_last()) == 0);
    } else {
        lemma_decimal_digits(n / 10);
        let s = decimal_digits(n);
        assert(s.drop_last() =~= decimal_digits(n / 10));
        assert forall|i: int| 0 <= i < s.len() implies is_digit(#[trigger] s[i]) by {
            if i < s.len() - 1 {
                assert(s[i] == decimal_digits(n / 10)[i]);
            }
        }
    }
    assert(decimal_digits(n)[0] != 43);
}

/// A number of 64 bits has at most twenty digits.
pub proof fn lemma_decimal_digits_len(n: nat)
    ensures
        decimal_digits(n).len() >= 1,
        n < 10 ==> decimal_digits(n).len() == 1,
        n <= u64::MAX ==> decimal_digits(n).len() <= 20,
    decreases n,
{
    reveal_with_fuel(decimal_digits, 21);
}

} // verus!
