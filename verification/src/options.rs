//! The four options that a transfer can negotiate, their place in a packet,
//! and the limits that a server puts on them.

use crate::buffer;
use crate::buffer::{contents, max_len, written};
use crate::text::{
    ascii_lowercase, bounded_decimal, decimal_digits, decoded_text, is_digit, lemma_decimal_digits,
    lemma_decimal_digits_len, lowered_text, parse_decimal, push_decimal, str_eq, to_lowercase,
    utf8_lossy,
};
use bytes::{Bytes, BytesMut};
use vstd::prelude::*;
use vstd::slice::{slice_index_get, slice_subrange};
use vstd::string::StringSliceAdditionalSpecFns;
use vstd::utf8::*;

verus! {

/// What an `Options` holds: each field is present or absent.
pub struct OptionsView {
    pub blksize: Option<u16>,
    pub timeout: Option<u8>,
    pub tsize: Option<u64>,
    pub windowsize: Option<u16>,
}

/// The negotiated options of one transfer. An absent field means that the
/// option was not negotiated and its default applies.
#[derive(Clone, Copy, Debug)]
pub struct Options {
    blksize: Option<u16>,
    timeout: Option<u8>,
    tsize: Option<u64>,
    windowsize: Option<u16>,
}

impl View for Options {
    type V = OptionsView;

    closed spec fn view(&self) -> OptionsView {
        OptionsView {
            blksize: self.blksize,
            timeout: self.timeout,
            tsize: self.tsize,
            windowsize: self.windowsize,
        }
    }
}

/// The name of the block size option.
pub open spec fn blksize_name() -> Seq<char> {
    "blksize"@
}

/// The name of the timeout option.
pub open spec fn timeout_name() -> Seq<char> {
    "timeout"@
}

/// The name of the transfer size option.
pub open spec fn tsize_name() -> Seq<char> {
    "tsize"@
}

/// The name of the window size option.
pub open spec fn windowsize_name() -> Seq<char> {
    "windowsize"@
}

/// One option on the wire: its name, a NUL, its value in decimal, a NUL.
pub open spec fn option_bytes(name: Seq<char>, value: nat) -> Seq<u8> {
    encode_utf8(name) + seq![0u8] + decimal_digits(value) + seq![0u8]
}

/// The options on the wire: each present option, in the order block size,
/// timeout, transfer size, window size.
pub open spec fn options_bytes(o: OptionsView) -> Seq<u8> {
    (match o.blksize {
        Some(v) => option_bytes(blksize_name(), v as nat),
        None => Seq::<u8>::empty(),
    }) + (match o.timeout {
        Some(v) => option_bytes(timeout_name(), v as nat),
        None => Seq::<u8>::empty(),
    }) + (match o.tsize {
        Some(v) => option_bytes(tsize_name(), v as nat),
        None => Seq::<u8>::empty(),
    }) + (match o.windowsize {
        Some(v) => option_bytes(windowsize_name(), v as nat),
        None => Seq::<u8>::empty(),
    })
}

/// The index of the first NUL at or after `from`, or the length where
/// there is none.
pub open spec fn nul_from(s: Seq<u8>, from: int) -> int
    decreases s.len() - from,
{
    if from < 0 || from >= s.len() || s[from] == 0 {
        from
    } else {
        nul_from(s, from + 1)
    }
}

/// The options after one name and value were read. `key` is the name in
/// lower case, `value` the bytes of the value's text. A name that is none
/// of the four, and a value that is no number or out of range, change
/// nothing.
#[verifier::opaque]
pub open spec fn apply_option(o: OptionsView, key: Seq<char>, value: Seq<u8>) -> OptionsView {
    OptionsView {
        blksize: if key == blksize_name() && bounded_decimal(value, 65464) is Some
            && bounded_decimal(value, 65464)->0 >= 8 {
            Some(bounded_decimal(value, 65464)->0 as u16)
        } else {
            o.blksize
        },
        timeout: if key == timeout_name() && bounded_decimal(value, 255) is Some
            && bounded_decimal(value, 255)->0 >= 1 {
            Some(bounded_decimal(value, 255)->0 as u8)
        } else {
            o.timeout
        },
        tsize: if key == tsize_name() && bounded_decimal(value, u64::MAX as nat) is Some {
            Some(bounded_decimal(value, u64::MAX as nat)->0 as u64)
        } else {
            o.tsize
        },
        windowsize: if key == windowsize_name() && bounded_decimal(value, 65535) is Some
            && bounded_decimal(value, 65535)->0 >= 1 {
            Some(bounded_decimal(value, 65535)->0 as u16)
        } else {
            o.windowsize
        },
    }
}

/// The options after one name and value were read off the wire: the name
/// is decoded and put in lower case, the value is decoded.
pub open spec fn apply_pair(o: OptionsView, key: Seq<u8>, value: Seq<u8>) -> OptionsView {
    apply_option(o, lowered_text(decoded_text(key)), encode_utf8(decoded_text(value)))
}

/// The options that the bytes from `from` on add to `acc`. The bytes are
/// cut at each NUL; the pieces are names and values in turn. A name
/// without a value ends the reading.
pub open spec fn parse_from(s: Seq<u8>, from: int, acc: OptionsView) -> OptionsView
    decreases s.len() - from,
{
    let k = nul_from(s, from);
    if from < 0 || k < from || k >= s.len() {
        acc
    } else {
        let v = nul_from(s, k + 1);
        let next = apply_pair(acc, s.subrange(from, k), s.subrange(k + 1, v));
        if v <= k || v >= s.len() {
            next
        } else {
            parse_from(s, v + 1, next)
        }
    }
}

/// The options that a byte string holds.
pub open spec fn parse_options(s: Seq<u8>) -> OptionsView {
    parse_from(s, 0, OptionsView::none())
}

impl OptionsView {
    /// No option is present.
    pub open spec fn none() -> OptionsView {
        OptionsView { blksize: None, timeout: None, tsize: None, windowsize: None }
    }

    /// Payload bytes per DATA packet: 512 unless negotiated.
    pub open spec fn blksize(self) -> usize {
        match self.blksize {
            Some(v) => v as usize,
            None => 512,
        }
    }

    /// Seconds to wait for a packet: 10 unless negotiated.
    pub open spec fn timeout(self) -> u64 {
        match self.timeout {
            Some(v) => v as u64,
            None => 10,
        }
    }

    /// The size of the file: 0 unless negotiated.
    pub open spec fn tsize(self) -> u64 {
        match self.tsize {
            Some(v) => v,
            None => 0,
        }
    }

    /// DATA packets that may be in flight: 1 unless negotiated.
    pub open spec fn windowsize(self) -> u16 {
        match self.windowsize {
            Some(v) => v,
            None => 1,
        }
    }

    /// Some option is present.
    pub open spec fn has_option(self) -> bool {
        self.blksize is Some || self.timeout is Some || self.tsize is Some
            || self.windowsize is Some
    }

    /// The options that a server with the limits `lim` grants: block size
    /// and window size are lowered to the server's where it has a lower one;
    /// timeout and transfer size are kept only where the server has them.
    pub open spec fn cut_off(self, lim: OptionsView) -> OptionsView {
        OptionsView {
            blksize: if self.blksize is Some && lim.blksize is Some && lim.blksize->0
                < self.blksize->0 {
                lim.blksize
            } else {
                self.blksize
            },
            timeout: if lim.timeout is None {
                None
            } else {
                self.timeout
            },
            tsize: if lim.tsize is None {
                None
            } else {
                self.tsize
            },
            windowsize: if self.windowsize is Some && lim.windowsize is Some
                && lim.windowsize->0 < self.windowsize->0 {
                lim.windowsize
            } else {
                self.windowsize
            },
        }
    }

    /// The options with the transfer size, where present, set to `size`.
    pub open spec fn set_tsize(self, size: u64) -> OptionsView {
        OptionsView {
            tsize: if self.tsize is Some {
                Some(size)
            } else {
                None
            },
            ..self
        }
    }

    /// Every present option has a value that a peer accepts: a block size
    /// from 8 to 65464, a timeout and a window size of at least 1.
    pub open spec fn in_range(self) -> bool {
        &&& self.blksize matches Some(v) ==> 8 <= v <= 65464
        &&& self.timeout matches Some(v) ==> 1 <= v
        &&& self.windowsize matches Some(v) ==> 1 <= v
    }

    /// The options with only the chosen ones kept.
    pub open spec fn restrict(
        self,
        blksize: bool,
        timeout: bool,
        tsize: bool,
        windowsize: bool,
    ) -> OptionsView {
        OptionsView {
            blksize: if blksize {
                self.blksize
            } else {
                None
            },
            timeout: if timeout {
                self.timeout
            } else {
                None
            },
            tsize: if tsize {
                self.tsize
            } else {
                None
            },
            windowsize: if windowsize {
                self.windowsize
            } else {
                None
            },
        }
    }
}

/// The bytes of the four names: small ASCII letters, none of them a NUL.
pub proof fn lemma_names()
    ensures
        blksize_name() == seq!['b', 'l', 'k', 's', 'i', 'z', 'e'],
        timeout_name() == seq!['t', 'i', 'm', 'e', 'o', 'u', 't'],
        tsize_name() == seq!['t', 's', 'i', 'z', 'e'],
        windowsize_name() == seq!['w', 'i', 'n', 'd', 'o', 'w', 's', 'i', 'z', 'e'],
        encode_utf8(blksize_name()) == seq![98u8, 108, 107, 115, 105, 122, 101],
        encode_utf8(timeout_name()) == seq![116u8, 105, 109, 101, 111, 117, 116],
        encode_utf8(tsize_name()) == seq![116u8, 115, 105, 122, 101],
        encode_utf8(windowsize_name()) == seq![119u8, 105, 110, 100, 111, 119, 115, 105, 122, 101],
{
    reveal_strlit("blksize");
    reveal_strlit("timeout");
    reveal_strlit("tsize");
    reveal_strlit("windowsize");
    assert(blksize_name() =~= seq!['b', 'l', 'k', 's', 'i', 'z', 'e']);
    assert(timeout_name() =~= seq!['t', 'i', 'm', 'e', 'o', 'u', 't']);
    assert(tsize_name() =~= seq!['t', 's', 'i', 'z', 'e']);
    assert(windowsize_name() =~= seq!['w', 'i', 'n', 'd', 'o', 'w', 's', 'i', 'z', 'e']);
    assert(is_ascii_chars(blksize_name()));
    assert(is_ascii_chars(timeout_name()));
    assert(is_ascii_chars(tsize_name()));
    assert(is_ascii_chars(windowsize_name()));
    is_ascii_chars_encode_utf8(blksize_name());
    is_ascii_chars_encode_utf8(timeout_name());
    is_ascii_chars_encode_utf8(tsize_name());
    is_ascii_chars_encode_utf8(windowsize_name());
    assert(encode_utf8(blksize_name()) =~= seq![98u8, 108, 107, 115, 105, 122, 101]);
    assert(encode_utf8(timeout_name()) =~= seq![116u8, 105, 109, 101, 111, 117, 116]);
    assert(encode_utf8(tsize_name()) =~= seq![116u8, 115, 105, 122, 101]);
    assert(encode_utf8(windowsize_name()) =~= seq![
        119u8,
        105,
        110,
        100,
        111,
        119,
        115,
        105,
        122,
        101,
    ]);
}

/// What `nul_from` finds: the first NUL at or after `from`.
pub proof fn lemma_nul_from(s: Seq<u8>, from: int)
    requires
        0 <= from <= s.len(),
    ensures
        from <= nul_from(s, from) <= s.len(),
        forall|j: int| from <= j < nul_from(s, from) ==> s[j] != 0,
        nul_from(s, from) < s.len() ==> s[nul_from(s, from)] == 0,
    decreases s.len() - from,
{
    if from < s.len() && s[from] != 0 {
        lemma_nul_from(s, from + 1);
    }
}

/// Where `nul_from` stops: at `k`, if no byte before it is a NUL and the
/// byte there is one, or the bytes end there.
pub proof fn lemma_nul_from_is(s: Seq<u8>, from: int, k: int)
    requires
        0 <= from <= k <= s.len(),
        forall|j: int| from <= j < k ==> s[j] != 0,
        k < s.len() ==> s[k] == 0,
    ensures
        nul_from(s, from) == k,
    decreases k - from,
{
    if from < k {
        lemma_nul_from_is(s, from + 1, k);
    }
}

/// Bytes in front do not change where the next NUL is found.
pub proof fn lemma_nul_from_shift(a: Seq<u8>, b: Seq<u8>, i: int)
    requires
        0 <= i <= b.len(),
    ensures
        nul_from(a + b, a.len() + i) == a.len() + nul_from(b, i),
    decreases b.len() - i,
{
    if i < b.len() {
        assert((a + b)[a.len() + i] == b[i]);
        if b[i] != 0 {
            lemma_nul_from_shift(a, b, i + 1);
        }
    }
}

/// Bytes in front do not change what is read behind them.
pub proof fn lemma_parse_from_shift(a: Seq<u8>, b: Seq<u8>, i: int, acc: OptionsView)
    requires
        0 <= i <= b.len(),
    ensures
        parse_from(a + b, a.len() + i, acc) == parse_from(b, i, acc),
    decreases b.len() - i,
{
    let s = a + b;
    lemma_nul_from_shift(a, b, i);
    lemma_nul_from(b, i);
    let k = nul_from(b, i);
    if k < b.len() {
        lemma_nul_from_shift(a, b, k + 1);
        lemma_nul_from(b, k + 1);
        let v = nul_from(b, k + 1);
        assert(s.subrange(a.len() + i, a.len() + k) =~= b.subrange(i, k));
        assert(s.subrange(a.len() + k + 1, a.len() + v) =~= b.subrange(k + 1, v));
        if v < b.len() {
            lemma_parse_from_shift(
                a,
                b,
                v + 1,
                apply_pair(acc, b.subrange(i, k), b.subrange(k + 1, v)),
            );
        }
    }
}

/// Bytes below 128 are UTF-8, one character each.
pub proof fn lemma_ascii_bytes(b: Seq<u8>)
    requires
        forall|i: int| 0 <= i < b.len() ==> b[i] < 128,
    ensures
        valid_utf8(b),
        encode_utf8(decode_utf8(b)) == b,
{
    let chars = Seq::new(b.len(), |i: int| b[i] as char);
    assert(is_ascii_chars(chars));
    is_ascii_chars_encode_utf8(chars);
    assert(encode_utf8(chars) =~= b);
    encode_utf8_valid_utf8(chars);
    decode_utf8_encode_utf8(b);
}

/// One option on the wire is read as that option: its name, made of small
/// ASCII letters, and its value.
pub proof fn lemma_option_read(name: Seq<char>, value: nat, rest: Seq<u8>, acc: OptionsView)
    requires
        forall|i: int| 0 <= i < name.len() ==> 'a' <= #[trigger] name[i] <= 'z',
    ensures
        parse_from(option_bytes(name, value) + rest, 0, acc) == parse_from(
            rest,
            0,
            apply_option(acc, name, decimal_digits(value)),
        ),
{
    let n = encode_utf8(name);
    let d = decimal_digits(value);
    let head = option_bytes(name, value);
    let s = head + rest;
    assert(is_ascii_chars(name));
    is_ascii_chars_encode_utf8(name);
    lemma_decimal_digits(value);
    assert forall|j: int| 0 <= j < n.len() implies s[j] != 0 by {
        assert(s[j] == n[j]);
        assert(n[j] == name[j] as u8);
    }
    assert(s[n.len() as int] == 0);
    lemma_nul_from_is(s, 0, n.len() as int);
    let k = n.len() as int;
    assert forall|j: int| k + 1 <= j < k + 1 + d.len() implies s[j] != 0 by {
        assert(s[j] == d[j - k - 1]);
        assert(is_digit(d[j - k - 1]));
    }
    let v = k + 1 + d.len();
    assert(s[v] == 0);
    lemma_nul_from_is(s, k + 1, v);
    assert(s.subrange(0, k) =~= n);
    assert(s.subrange(k + 1, v) =~= d);
    encode_utf8_valid_utf8(name);
    encode_utf8_decode_utf8(name);
    assert(lowered_text(name) == name) by {
        assert(ascii_lowercase(name) =~= name);
    }
    assert forall|i: int| 0 <= i < d.len() implies d[i] < 128 by {
        assert(is_digit(d[i]));
    }
    lemma_ascii_bytes(d);
    assert(decoded_text(n) == name);
    assert(encode_utf8(decoded_text(d)) == d);
    assert(apply_pair(acc, n, d) == apply_option(acc, name, d));
    assert(head.len() == v + 1);
    lemma_parse_from_shift(head, rest, 0, apply_option(acc, name, d));
}

/// What reading a block size does to the options.
pub proof fn lemma_apply_blksize(acc: OptionsView, v: u16)
    requires
        8 <= v <= 65464,
    ensures
        apply_option(acc, blksize_name(), decimal_digits(v as nat)) == (OptionsView {
            blksize: Some(v),
            ..acc
        }),
{
    reveal(apply_option);
    lemma_names();
    lemma_decimal_digits(v as nat);
}

/// What reading a timeout does to the options.
pub proof fn lemma_apply_timeout(acc: OptionsView, v: u8)
    requires
        1 <= v,
    ensures
        apply_option(acc, timeout_name(), decimal_digits(v as nat)) == (OptionsView {
            timeout: Some(v),
            ..acc
        }),
{
    reveal(apply_option);
    lemma_names();
    lemma_decimal_digits(v as nat);
}

/// What reading a transfer size does to the options.
pub proof fn lemma_apply_tsize(acc: OptionsView, v: u64)
    ensures
        apply_option(acc, tsize_name(), decimal_digits(v as nat)) == (OptionsView {
            tsize: Some(v),
            ..acc
        }),
{
    reveal(apply_option);
    lemma_names();
    lemma_decimal_digits(v as nat);
}

/// What reading a window size does to the options.
pub proof fn lemma_apply_windowsize(acc: OptionsView, v: u16)
    requires
        1 <= v,
    ensures
        apply_option(acc, windowsize_name(), decimal_digits(v as nat)) == (OptionsView {
            windowsize: Some(v),
            ..acc
        }),
{
    reveal(apply_option);
    lemma_names();
    lemma_decimal_digits(v as nat);
}

/// A value that does not begin like a number changes no option.
pub proof fn lemma_apply_no_number(acc: OptionsView, key: Seq<char>, value: Seq<u8>)
    requires
        value.len() > 0,
        value[0] != 43,
        !is_digit(value[0]),
    ensures
        apply_option(acc, key, value) == acc,
{
    reveal(apply_option);
}

/// Nothing is read out of no bytes.
pub proof fn lemma_parse_empty(acc: OptionsView)
    ensures
        parse_from(Seq::<u8>::empty(), 0, acc) == acc,
{
}

/// The four names are made of small ASCII letters.
pub proof fn lemma_name_letters()
    ensures
        forall|i: int| 0 <= i < blksize_name().len() ==> 'a' <= #[trigger] blksize_name()[i] <= 'z',
        forall|i: int| 0 <= i < timeout_name().len() ==> 'a' <= #[trigger] timeout_name()[i] <= 'z',
        forall|i: int| 0 <= i < tsize_name().len() ==> 'a' <= #[trigger] tsize_name()[i] <= 'z',
        forall|i: int|
            0 <= i < windowsize_name().len() ==> 'a' <= #[trigger] windowsize_name()[i] <= 'z',
{
    lemma_names();
}

/// The bytes of an option that may be absent.
pub open spec fn optional_bytes(name: Seq<char>, value: Option<nat>) -> Seq<u8> {
    match value {
        Some(v) => option_bytes(name, v),
        None => Seq::<u8>::empty(),
    }
}

/// An option that may be absent is read as what it is, and the reading
/// goes on behind it.
pub proof fn lemma_optional_read(
    name: Seq<char>,
    value: Option<nat>,
    rest: Seq<u8>,
    acc: OptionsView,
    next: OptionsView,
)
    requires
        forall|i: int| 0 <= i < name.len() ==> 'a' <= #[trigger] name[i] <= 'z',
        value matches Some(v) ==> apply_option(acc, name, decimal_digits(v)) == next,
        value is None ==> next == acc,
    ensures
        parse_from(optional_bytes(name, value) + rest, 0, acc) == parse_from(rest, 0, next),
{
    match value {
        Some(v) => {
            lemma_option_read(name, v, rest, acc);
        },
        None => {
            assert(optional_bytes(name, value) + rest =~= rest);
        },
    }
}

/// The options on the wire, part by part.
pub proof fn lemma_options_bytes(o: OptionsView)
    ensures
        options_bytes(o) == optional_bytes(
            blksize_name(),
            match o.blksize {
                Some(v) => Some(v as nat),
                None => None,
            },
        ) + (optional_bytes(
            timeout_name(),
            match o.timeout {
                Some(v) => Some(v as nat),
                None => None,
            },
        ) + (optional_bytes(
            tsize_name(),
            match o.tsize {
                Some(v) => Some(v as nat),
                None => None,
            },
        ) + (optional_bytes(
            windowsize_name(),
            match o.windowsize {
                Some(v) => Some(v as nat),
                None => None,
            },
        ) + Seq::<u8>::empty()))),
{
    let b = optional_bytes(
        blksize_name(),
        match o.blksize {
            Some(v) => Some(v as nat),
            None => None,
        },
    );
    let t = optional_bytes(
        timeout_name(),
        match o.timeout {
            Some(v) => Some(v as nat),
            None => None,
        },
    );
    let z = optional_bytes(
        tsize_name(),
        match o.tsize {
            Some(v) => Some(v as nat),
            None => None,
        },
    );
    let w = optional_bytes(
        windowsize_name(),
        match o.windowsize {
            Some(v) => Some(v as nat),
            None => None,
        },
    );
    assert(options_bytes(o) == b + t + z + w);
    assert(b + t + z + w =~= b + (t + (z + (w + Seq::<u8>::empty()))));
}

/// Options that are written and read again are the same options, as long
/// as each present value is one that a peer accepts.
pub proof fn lemma_options_round_trip(o: OptionsView)
    requires
        o.in_range(),
    ensures
        parse_options(options_bytes(o)) == o,
{
    let e = Seq::<u8>::empty();
    let acc0 = OptionsView::none();
    let acc1 = OptionsView { blksize: o.blksize, ..acc0 };
    let acc2 = OptionsView { timeout: o.timeout, ..acc1 };
    let acc3 = OptionsView { tsize: o.tsize, ..acc2 };
    let vb = match o.blksize {
        Some(v) => Some(v as nat),
        None => None,
    };
    let vt = match o.timeout {
        Some(v) => Some(v as nat),
        None => None,
    };
    let vz = match o.tsize {
        Some(v) => Some(v as nat),
        None => None,
    };
    let vw = match o.windowsize {
        Some(v) => Some(v as nat),
        None => None,
    };
    let w = optional_bytes(windowsize_name(), vw) + e;
    let zw = optional_bytes(tsize_name(), vz) + w;
    let tzw = optional_bytes(timeout_name(), vt) + zw;
    lemma_options_bytes(o);
    lemma_name_letters();
    if o.blksize is Some {
        lemma_apply_blksize(acc0, o.blksize->0);
    }
    lemma_optional_read(blksize_name(), vb, tzw, acc0, acc1);
    if o.timeout is Some {
        lemma_apply_timeout(acc1, o.timeout->0);
    }
    lemma_optional_read(timeout_name(), vt, zw, acc1, acc2);
    if o.tsize is Some {
        lemma_apply_tsize(acc2, o.tsize->0);
    }
    lemma_optional_read(tsize_name(), vz, w, acc2, acc3);
    if o.windowsize is Some {
        lemma_apply_windowsize(acc3, o.windowsize->0);
    }
    lemma_optional_read(windowsize_name(), vw, e, acc3, o);
    lemma_parse_empty(o);
}

/// Option tolerance: a packet that carries only some of the options of a
/// record is read as the record with only those options.
pub proof fn lemma_option_tolerance(
    o: OptionsView,
    blksize: bool,
    timeout: bool,
    tsize: bool,
    windowsize: bool,
)
    requires
        o.in_range(),
    ensures
        parse_options(options_bytes(o.restrict(blksize, timeout, tsize, windowsize)))
            == o.restrict(blksize, timeout, tsize, windowsize),
{
    lemma_options_round_trip(o.restrict(blksize, timeout, tsize, windowsize));
}

/// The index of the first NUL at or after `from`, or the length.
pub fn find_nul(s: &[u8], from: usize) -> (k: usize)
    requires
        from <= s@.len(),
    ensures
        k == nul_from(s@, from as int),
        from <= k <= s@.len(),
{
    let mut i: usize = from;
    while i < s.len() && *slice_index_get(s, i) != 0
        invariant
            from <= i <= s@.len(),
            nul_from(s@, from as int) == nul_from(s@, i as int),
        decreases s@.len() - i,
    {
        i += 1;
    }
    i
}

/// Appends one option to a packet under construction.
fn put_option(bytes: &mut BytesMut, name: &str, value: u64)
    requires
        written(*old(bytes)).len() + name.spec_bytes().len() + 22 <= max_len(),
    ensures
        written(*final(bytes)) == written(*old(bytes)) + option_bytes(name@, value as nat),
        written(*final(bytes)).len() <= written(*old(bytes)).len() + name.spec_bytes().len() + 22,
{
    buffer::put(bytes, name.as_bytes());
    buffer::put_u8(bytes, 0);
    let mut digits: Vec<u8> = Vec::new();
    push_decimal(&mut digits, value);
    proof {
        lemma_decimal_digits_len(value as nat);
        assert(digits@ =~= decimal_digits(value as nat));
    }
    buffer::put(bytes, digits.as_slice());
    buffer::put_u8(bytes, 0);
    assert(written(*bytes) =~= written(*old(bytes)) + option_bytes(name@, value as nat));
}

impl Default for Options {
    fn default() -> (options: Options)
        ensures
            options@ == OptionsView::none(),
    {
        Options { blksize: None, timeout: None, tsize: None, windowsize: None }
    }
}

impl Options {
    /// Payload bytes per DATA packet.
    pub fn blksize(&self) -> (r: usize)
        ensures
            r == self@.blksize(),
    {
        match self.blksize {
            Some(v) => v as usize,
            None => 512,
        }
    }

    /// Seconds to wait for a packet.
    pub fn timeout(&self) -> (r: u64)
        ensures
            r == self@.timeout(),
    {
        match self.timeout {
            Some(v) => v as u64,
            None => 10,
        }
    }

    /// The size of the file, where it was negotiated.
    pub fn tsize(&self) -> (r: u64)
        ensures
            r == self@.tsize(),
    {
        match self.tsize {
            Some(v) => v,
            None => 0,
        }
    }

    /// DATA packets that may be in flight.
    pub fn windowsize(&self) -> (r: u16)
        ensures
            r == self@.windowsize(),
    {
        match self.windowsize {
            Some(v) => v,
            None => 1,
        }
    }

    /// The options as they stand in a request or an OACK.
    pub fn as_bytes(&self) -> (bytes: Bytes)
        ensures
            contents(bytes) == options_bytes(self@),
            contents(bytes).len() <= 120,
    {
        proof {
            lemma_names();
        }
        let mut bytes = buffer::new_buffer();
        let ghost b0 = written(bytes);
        if let Some(blksize) = self.blksize {
            put_option(&mut bytes, "blksize", blksize as u64);
        }
        let ghost b1 = written(bytes);
        assert(b1.len() <= 29);
        if let Some(timeout) = self.timeout {
            put_option(&mut bytes, "timeout", timeout as u64);
        }
        let ghost b2 = written(bytes);
        assert(b2.len() <= 58);
        if let Some(tsize) = self.tsize {
            put_option(&mut bytes, "tsize", tsize);
        }
        let ghost b3 = written(bytes);
        assert(b3.len() <= 85);
        if let Some(windowsize) = self.windowsize {
            put_option(&mut bytes, "windowsize", windowsize as u64);
        }
        proof {
            assert(b1 =~= b0 + (match self@.blksize {
                Some(v) => option_bytes(blksize_name(), v as nat),
                None => Seq::<u8>::empty(),
            }));
            assert(b2 =~= b1 + (match self@.timeout {
                Some(v) => option_bytes(timeout_name(), v as nat),
                None => Seq::<u8>::empty(),
            }));
            assert(b3 =~= b2 + (match self@.tsize {
                Some(v) => option_bytes(tsize_name(), v as nat),
                None => Seq::<u8>::empty(),
            }));
            assert(written(bytes) =~= options_bytes(self@));
        }
        buffer::freeze(bytes)
    }

    /// Lowers the options to what a server with the limits `limitations`
    /// grants.
    pub fn cut_off(&mut self, limitations: &Options)
        ensures
            final(self)@ == old(self)@.cut_off(limitations@),
    {
        if let Some(blksize) = self.blksize {
            if let Some(limit) = limitations.blksize {
                if limit < blksize {
                    self.blksize = limitations.blksize;
                }
            }
        }
        if limitations.timeout.is_none() {
            self.timeout = None;
        }
        if limitations.tsize.is_none() {
            self.tsize = None;
        }
        if let Some(windowsize) = self.windowsize {
            if let Some(limit) = limitations.windowsize {
                if limit < windowsize {
                    self.windowsize = limitations.windowsize;
                }
            }
        }
    }

    /// The transfer size is among the options.
    pub fn has_tsize(&self) -> (r: bool)
        ensures
            r == self@.tsize is Some,
    {
        self.tsize.is_some()
    }

    /// Some option is present.
    pub fn has_option(&self) -> (r: bool)
        ensures
            r == self@.has_option(),
    {
        self.blksize.is_some() || self.timeout.is_some() || self.tsize.is_some()
            || self.windowsize.is_some()
    }

    /// Where the transfer size is negotiated, sets it to the size of the
    /// file that is sent.
    pub fn set_tsize(&mut self, size: u64)
        ensures
            final(self)@ == old(self)@.set_tsize(size),
    {
        if self.tsize.is_some() {
            self.tsize = Some(size);
        }
    }

    /// Takes one option in: `key` is its name in lower case, `value` the
    /// text of its value.
    pub fn set_option(&mut self, key: &str, value: &str)
        ensures
            final(self)@ == apply_option(old(self)@, key@, value.spec_bytes()),
    {
        proof {
            reveal(apply_option);
        }
        let digits = value.as_bytes();
        if str_eq(key, "blksize") {
            if let Some(blksize) = parse_decimal(digits, 65464) {
                if 8 <= blksize {
                    self.blksize = Some(blksize as u16);
                }
            }
        }
        if str_eq(key, "timeout") {
            if let Some(timeout) = parse_decimal(digits, 255) {
                if 1 <= timeout {
                    self.timeout = Some(timeout as u8);
                }
            }
        }
        if str_eq(key, "tsize") {
            if let Some(tsize) = parse_decimal(digits, u64::MAX) {
                self.tsize = Some(tsize);
            }
        }
        if str_eq(key, "windowsize") {
            if let Some(windowsize) = parse_decimal(digits, 65535) {
                if 1 <= windowsize {
                    self.windowsize = Some(windowsize as u16);
                }
            }
        }
    }

    /// Reads the options out of a byte string: names and values in turn,
    /// each ended by a NUL.
    pub fn parse(s: &[u8]) -> (options: Options)
        ensures
            options@ == parse_options(s@),
    {
        let mut options = Options::default();
        let mut pos: usize = 0;
        loop
            invariant_except_break
                pos <= s@.len(),
                parse_from(s@, pos as int, options@) == parse_options(s@),
            ensures
                options@ == parse_options(s@),
            decreases s@.len() - pos,
        {
            let key_end = find_nul(s, pos);
            if key_end >= s.len() {
                break;
            }
            let value_end = find_nul(s, key_end + 1);
            let key = utf8_lossy(slice_subrange(s, pos, key_end));
            let key = to_lowercase(key.as_str());
            let value = utf8_lossy(slice_subrange(s, key_end + 1, value_end));
            options.set_option(key.as_str(), value.as_str());
            if value_end >= s.len() {
                break;
            }
            pos = value_end + 1;
        }
        options
    }

    /// Reads the options that a buffer holds. The buffer is left as it was.
    pub fn from(buf: &mut Bytes) -> (options: Options)
        ensures
            options@ == parse_options(contents(*old(buf))),
            contents(*final(buf)) == contents(*old(buf)),
    {
        Options::parse(buffer::as_slice(buf))
    }
}

/// Collects the options of a transfer one by one.
pub struct OptionBuilder {
    options: Options,
}

impl View for OptionBuilder {
    type V = OptionsView;

    closed spec fn view(&self) -> OptionsView {
        self.options@
    }
}

impl Default for OptionBuilder {
    fn default() -> (builder: OptionBuilder)
        ensures
            builder@ == OptionsView::none(),
    {
        OptionBuilder { options: Options::default() }
    }
}

impl OptionBuilder {
    pub fn blksize(self, blksize: u16) -> (builder: OptionBuilder)
        ensures
            builder@ == (OptionsView { blksize: Some(blksize), ..self@ }),
    {
        OptionBuilder { options: Options { blksize: Some(blksize), ..self.options } }
    }

    pub fn timeout(self, timeout: u8) -> (builder: OptionBuilder)
        ensures
            builder@ == (OptionsView { timeout: Some(timeout), ..self@ }),
    {
        OptionBuilder { options: Options { timeout: Some(timeout), ..self.options } }
    }

    pub fn tsize(self) -> (builder: OptionBuilder)
        ensures
            builder@ == (OptionsView { tsize: Some(0u64), ..self@ }),
    {
        OptionBuilder { options: Options { tsize: Some(0), ..self.options } }
    }

    pub fn windowsize(self, windowsize: u16) -> (builder: OptionBuilder)
        ensures
            builder@ == (OptionsView { windowsize: Some(windowsize), ..self@ }),
    {
        OptionBuilder { options: Options { windowsize: Some(windowsize), ..self.options } }
    }

    pub fn build(self) -> (options: Options)
        ensures
            options@ == self@,
    {
        self.options
    }
}

} // verus!
