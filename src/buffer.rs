//! Primitive readers and writers over byte buffers: big-endian integers,
//! var-ints, length-prefixed byte arrays and UTF-8 strings.

use vstd::prelude::*;
use vstd::utf8::{decode_utf8, encode_utf8, is_ascii_chars, valid_utf8};

verus! {

/// `128^i`, the weight of the `i`-th seven-bit group of a var-int.
pub open spec fn pow128(i: nat) -> nat
    decreases i,
{
    if i == 0 {
        1
    } else {
        128 * pow128((i - 1) as nat)
    }
}

/// The unsigned 32-bit two's-complement form of `x`.
pub open spec fn unsigned_form(x: i32) -> nat {
    if x >= 0 {
        x as nat
    } else {
        (x + 0x1_0000_0000) as nat
    }
}

/// The signed reading of a 32-bit pattern `v` (taken modulo 2^32).
pub open spec fn signed_form(v: nat) -> i32 {
    let w = v % 0x1_0000_0000;
    if w < 0x8000_0000 {
        w as i32
    } else {
        (w - 0x1_0000_0000) as i32
    }
}

/// Unsigned LEB128: seven-bit groups, least significant first, bit 7 set
/// on every byte that is followed by another.
pub open spec fn leb128_bytes(v: nat) -> Seq<u8>
    decreases v,
{
    if v < 128 {
        seq![v as u8]
    } else {
        seq![(v % 128 + 128) as u8] + leb128_bytes(v / 128)
    }
}

/// The var-int encoding of a 32-bit integer.
pub open spec fn var_int_bytes(x: i32) -> Seq<u8> {
    leb128_bytes(unsigned_form(x))
}

/// Outcome of scanning a var-int at the front of a byte sequence.
pub enum VarIntScan {
    /// The var-int holds `value` and takes the first `len` bytes.
    Done { value: nat, len: nat },
    /// The bytes end before the var-int does.
    Short,
    /// Every one of the allowed bytes has its continuation bit set.
    Overlong,
}

/// Scans the var-int of `s` from byte `i` on, with `acc` the value of the
/// groups before `i` and at most `limit` bytes allowed.
pub open spec fn scan_leb128(s: Seq<u8>, limit: nat, i: nat, acc: nat) -> VarIntScan
    decreases limit - i,
{
    if i >= limit {
        VarIntScan::Overlong
    } else if i >= s.len() {
        VarIntScan::Short
    } else {
        let acc2 = acc + (s[i as int] % 128) as nat * pow128(i);
        if s[i as int] < 128 {
            VarIntScan::Done { value: acc2, len: i + 1 }
        } else {
            scan_leb128(s, limit, i + 1, acc2)
        }
    }
}

/// A var-int of at most five bytes at the front of `s`: its value and the
/// bytes after it.
pub open spec fn parse_var_int(s: Seq<u8>) -> Option<(i32, Seq<u8>)> {
    match scan_leb128(s, 5, 0, 0) {
        VarIntScan::Done { value, len } => Some((signed_form(value), s.skip(len as int))),
        _ => None,
    }
}

/// A scanned var-int lies within the bytes scanned.
pub proof fn lemma_scan_leb128_bounds(s: Seq<u8>, limit: nat, i: nat, acc: nat)
    ensures
        scan_leb128(s, limit, i, acc) matches VarIntScan::Done { len, .. } ==> i < len <= s.len(),
    decreases limit - i,
{
    if i < limit && i < s.len() && s[i as int] >= 128 {
        let acc2 = acc + (s[i as int] % 128) as nat * pow128(i);
        lemma_scan_leb128_bounds(s, limit, i + 1, acc2);
    }
}

pub proof fn lemma_pow128_positive(i: nat)
    ensures
        pow128(i) >= 1,
    decreases i,
{
    if i > 0 {
        lemma_pow128_positive((i - 1) as nat);
    }
}

pub proof fn lemma_pow128_values()
    ensures
        pow128(3) == 0x20_0000,
        pow128(4) == 0x1000_0000,
        pow128(5) == 0x8_0000_0000,
{
    reveal_with_fuel(pow128, 6);
}

/// The encoding of a value below `128^k` takes at most `k` bytes.
pub proof fn lemma_leb128_len(v: nat, k: nat)
    requires
        k >= 1,
        v < pow128(k),
    ensures
        1 <= leb128_bytes(v).len() <= k,
    decreases v,
{
    if v >= 128 {
        assert(k >= 2) by {
            if k == 1 {
                assert(pow128(1) == 128 * pow128(0));
            }
        }
        let k1 = (k - 1) as nat;
        assert(pow128(k) == 128 * pow128(k1));
        assert(v / 128 < pow128(k1));
        lemma_leb128_len(v / 128, k1);
    }
}

/// Scanning an encoding that starts at byte `i` yields its value, shifted
/// by `i` groups, and ends right after it.
pub proof fn lemma_scan_leb128(s: Seq<u8>, limit: nat, i: nat, acc: nat, v: nat)
    requires
        i + leb128_bytes(v).len() <= limit,
        i + leb128_bytes(v).len() <= s.len(),
        s.subrange(i as int, i + leb128_bytes(v).len() as int) == leb128_bytes(v),
    ensures
        scan_leb128(s, limit, i, acc) == (VarIntScan::Done {
            value: acc + v * pow128(i),
            len: i + leb128_bytes(v).len(),
        }),
    decreases v,
{
    let e = leb128_bytes(v);
    assert(s[i as int] == e[0]);
    if v < 128 {
        assert(e.len() == 1);
        assert((v as u8) % 128 == v);
    } else {
        let t = leb128_bytes(v / 128);
        assert(e == seq![(v % 128 + 128) as u8] + t);
        assert(s[i as int] == (v % 128 + 128) as u8);
        assert(s[i as int] % 128 == v % 128);
        let acc2 = acc + (v % 128) * pow128(i);
        let ii = i as int;
        assert(s.subrange(ii + 1, ii + 1 + t.len()) == t) by {
            assert forall|j: int| 0 <= j < t.len() implies s.subrange(ii + 1, ii + 1 + t.len())[j]
                == t[j] by {
                assert(s.subrange(ii, ii + e.len())[j + 1] == e[j + 1]);
            }
        }
        lemma_scan_leb128(s, limit, i + 1, acc2, v / 128);
        assert(pow128(i + 1) == 128 * pow128(i));
        assert(acc2 + (v / 128) * pow128(i + 1) == acc + v * pow128(i)) by (nonlinear_arith)
            requires
                acc2 == acc + (v % 128) * pow128(i),
                pow128(i + 1) == 128 * pow128(i),
                v == 128 * (v / 128) + v % 128,
        ;
    }
}

/// How many bytes the var-int encoding of `x` takes.
pub fn var_int_size(value: i32) -> (size: usize)
    ensures
        size == var_int_bytes(value).len(),
        1 <= size <= 5,
{
    let mut v: u32 = if value >= 0 {
        value as u32
    } else {
        (value as i64 + 0x1_0000_0000i64) as u32
    };
    let mut size: usize = 1;
    proof {
        lemma_pow128_values();
        lemma_leb128_len(v as nat, 5);
    }
    while v >= 128
        invariant
            size + leb128_bytes(v as nat).len() == var_int_bytes(value).len() + 1,
            var_int_bytes(value).len() <= 5,
        decreases v,
    {
        v = v / 128;
        size = size + 1;
    }
    size
}

/// Appends the var-int encoding of `value`.
pub fn write_var_int(buf: &mut Vec<u8>, value: i32)
    ensures
        final(buf)@ == old(buf)@ + var_int_bytes(value),
{
    let mut v: u32 = if value >= 0 {
        value as u32
    } else {
        (value as i64 + 0x1_0000_0000i64) as u32
    };
    while v >= 128
        invariant
            buf@ + leb128_bytes(v as nat) == old(buf)@ + var_int_bytes(value),
        decreases v,
    {
        proof {
            assert(leb128_bytes(v as nat) == seq![(v % 128 + 128) as u8] + leb128_bytes(
                (v / 128) as nat,
            ));
        }
        buf.push((v % 128 + 128) as u8);
        v = v / 128;
    }
    buf.push(v as u8);
}


/// For every `i32`: reading back the var-int encoding of `x`, whatever
/// follows it, yields `x` and leaves exactly what follows; the encoding
/// takes between one and five bytes.
pub proof fn lemma_var_int_round_trip(x: i32, rest: Seq<u8>)
    ensures
        parse_var_int(var_int_bytes(x) + rest) == Some((x, rest)),
        1 <= var_int_bytes(x).len() <= 5,
{
    let v = unsigned_form(x);
    let e = leb128_bytes(v);
    let s = e + rest;
    lemma_pow128_values();
    lemma_leb128_len(v, 5);
    assert(s.subrange(0, e.len() as int) == e);
    lemma_scan_leb128(s, 5, 0, 0, v);
    assert(pow128(0) == 1);
    assert(v < 0x1_0000_0000);
    assert(v % 0x1_0000_0000 == v);
    assert(s.skip(e.len() as int) =~= rest);
}

/// The big-endian encoding of a `u16`.
pub open spec fn u16_bytes(v: u16) -> Seq<u8> {
    seq![(v / 0x100) as u8, (v % 0x100) as u8]
}

/// The big-endian encoding of a `u64`.
pub open spec fn u64_bytes(v: u64) -> Seq<u8> {
    seq![
        (v / 0x100_0000_0000_0000) as u8,
        (v / 0x1_0000_0000_0000 % 0x100) as u8,
        (v / 0x100_0000_0000 % 0x100) as u8,
        (v / 0x1_0000_0000 % 0x100) as u8,
        (v / 0x100_0000 % 0x100) as u8,
        (v / 0x1_0000 % 0x100) as u8,
        (v / 0x100 % 0x100) as u8,
        (v % 0x100) as u8,
    ]
}

/// A length-prefixed byte array: the var-int length, then the bytes.
pub open spec fn byte_array_bytes(b: Seq<u8>) -> Seq<u8> {
    var_int_bytes(b.len() as i32) + b
}

/// A length-prefixed string: the length-prefixed array of its UTF-8 bytes.
pub open spec fn string_bytes(s: Seq<char>) -> Seq<u8> {
    byte_array_bytes(encode_utf8(s))
}

/// Whether the UTF-8 form of `s` is short enough for a var-int length.
pub open spec fn string_fits(s: Seq<char>) -> bool {
    encode_utf8(s).len() <= i32::MAX
}

/// Reading back the big-endian encoding of a `u64` gives the value.
pub proof fn lemma_u64_round_trip(v: u64, rest: Seq<u8>)
    ensures
        parse_u64(u64_bytes(v) + rest) == Some((v, rest)),
{
    let s = u64_bytes(v) + rest;
    let b0: u64 = v / 0x100_0000_0000_0000;
    let b1: u64 = v / 0x1_0000_0000_0000 % 0x100;
    let b2: u64 = v / 0x100_0000_0000 % 0x100;
    let b3: u64 = v / 0x1_0000_0000 % 0x100;
    let b4: u64 = v / 0x100_0000 % 0x100;
    let b5: u64 = v / 0x1_0000 % 0x100;
    let b6: u64 = v / 0x100 % 0x100;
    let b7: u64 = v % 0x100;
    assert(b0 * 0x100_0000_0000_0000 + b1 * 0x1_0000_0000_0000 + b2 * 0x100_0000_0000 + b3
        * 0x1_0000_0000 + b4 * 0x100_0000 + b5 * 0x1_0000 + b6 * 0x100 + b7 == v) by (bit_vector)
        requires
            b0 == v / 0x100_0000_0000_0000,
            b1 == v / 0x1_0000_0000_0000 % 0x100,
            b2 == v / 0x100_0000_0000 % 0x100,
            b3 == v / 0x1_0000_0000 % 0x100,
            b4 == v / 0x100_0000 % 0x100,
            b5 == v / 0x1_0000 % 0x100,
            b6 == v / 0x100 % 0x100,
            b7 == v % 0x100,
    ;
    assert(b0 < 0x100) by (bit_vector)
        requires
            b0 == v / 0x100_0000_0000_0000,
    ;
    assert(s[0] == b0 && s[1] == b1 && s[2] == b2 && s[3] == b3);
    assert(s[4] == b4 && s[5] == b5 && s[6] == b6 && s[7] == b7);
    assert(s.skip(8) =~= rest);
}

/// Reading back the big-endian encoding of a `u16` gives the value.
pub proof fn lemma_u16_round_trip(v: u16, rest: Seq<u8>)
    ensures
        parse_u16(u16_bytes(v) + rest) == Some((v, rest)),
{
    let s = u16_bytes(v) + rest;
    assert(s[0] == (v / 0x100) as u8 && s[1] == (v % 0x100) as u8);
    assert(s.skip(2) =~= rest);
}

/// Reading back a length-prefixed string, whatever follows it, gives the
/// string and leaves what follows.
pub proof fn lemma_string_round_trip(t: Seq<char>, rest: Seq<u8>)
    requires
        string_fits(t),
    ensures
        parse_string(string_bytes(t) + rest) == Some((t, rest)),
{
    broadcast use vstd::utf8::encode_utf8_valid_utf8, vstd::utf8::encode_utf8_decode_utf8;

    let e = encode_utf8(t);
    let n = e.len() as i32;
    lemma_var_int_round_trip(n, e + rest);
    assert(string_bytes(t) + rest =~= var_int_bytes(n) + (e + rest));
    assert((e + rest).take(n as int) =~= e);
    assert((e + rest).skip(n as int) =~= rest);
}

pub open spec fn parse_u8(s: Seq<u8>) -> Option<(u8, Seq<u8>)> {
    if s.len() >= 1 {
        Some((s[0], s.skip(1)))
    } else {
        None
    }
}

pub open spec fn parse_u16(s: Seq<u8>) -> Option<(u16, Seq<u8>)> {
    if s.len() >= 2 {
        Some(((s[0] * 0x100 + s[1]) as u16, s.skip(2)))
    } else {
        None
    }
}

pub open spec fn parse_u64(s: Seq<u8>) -> Option<(u64, Seq<u8>)> {
    if s.len() >= 8 {
        Some(
            ((s[0] * 0x100_0000_0000_0000 + s[1] * 0x1_0000_0000_0000 + s[2] * 0x100_0000_0000
                + s[3] * 0x1_0000_0000 + s[4] * 0x100_0000 + s[5] * 0x1_0000 + s[6] * 0x100
                + s[7]) as u64, s.skip(8)),
        )
    } else {
        None
    }
}

/// A length-prefixed byte array at the front of `s`.
pub open spec fn parse_byte_array(s: Seq<u8>) -> Option<(Seq<u8>, Seq<u8>)> {
    match parse_var_int(s) {
        Some((n, t)) => if 0 <= n <= t.len() {
            Some((t.take(n as int), t.skip(n as int)))
        } else {
            None
        },
        None => None,
    }
}

/// A length-prefixed UTF-8 string at the front of `s`.
pub open spec fn parse_string(s: Seq<u8>) -> Option<(Seq<char>, Seq<u8>)> {
    match parse_byte_array(s) {
        Some((b, t)) => if valid_utf8(b) {
            Some((decode_utf8(b), t))
        } else {
            None
        },
        None => None,
    }
}

/// A UUID carried as a length-prefixed string at the front of `s`.
pub open spec fn parse_uuid(s: Seq<u8>) -> Option<(u128, Seq<u8>)> {
    match parse_string(s) {
        Some((t, rest)) => match uuid_from_text(t) {
            Some(u) => Some((u, rest)),
            None => None,
        },
        None => None,
    }
}

/// What a read did: where `parsed` found a value with `rest` after it, the
/// read returned that value and left `rest` unread; otherwise it failed.
pub open spec fn read_outcome<T>(after: Seq<u8>, parsed: Option<(T, Seq<u8>)>, r: Result<T, ()>) -> bool {
    match parsed {
        Some((v, rest)) => r == Ok::<T, ()>(v) && after == rest,
        None => r is Err,
    }
}

/// The UUID that `uuid::Uuid::parse_str` reads from a text, if any.
pub uninterp spec fn uuid_from_text(t: Seq<char>) -> Option<u128>;

/// The lower-case hexadecimal digit of `n`, below 16.
pub open spec fn hex_digit(n: nat) -> char {
    if n == 0 {
        '0'
    } else if n == 1 {
        '1'
    } else if n == 2 {
        '2'
    } else if n == 3 {
        '3'
    } else if n == 4 {
        '4'
    } else if n == 5 {
        '5'
    } else if n == 6 {
        '6'
    } else if n == 7 {
        '7'
    } else if n == 8 {
        '8'
    } else if n == 9 {
        '9'
    } else if n == 10 {
        'a'
    } else if n == 11 {
        'b'
    } else if n == 12 {
        'c'
    } else if n == 13 {
        'd'
    } else if n == 14 {
        'e'
    } else {
        'f'
    }
}

/// `16^k`.
pub open spec fn pow16(k: nat) -> nat
    decreases k,
{
    if k == 0 {
        1
    } else {
        16 * pow16((k - 1) as nat)
    }
}

/// The `j`-th of the 32 hexadecimal digits of `u`, most significant first.
pub open spec fn uuid_digit(u: u128, j: int) -> char {
    hex_digit((u as nat / pow16((31 - j) as nat)) % 16)
}

/// How many hyphens stand before position `k` of the hyphenated text.
pub open spec fn hyphens_before(k: int) -> int {
    if k < 8 {
        0
    } else if k < 13 {
        1
    } else if k < 18 {
        2
    } else if k < 23 {
        3
    } else {
        4
    }
}

/// The hyphenated text of a UUID: its 32 lower-case hexadecimal digits,
/// most significant first, with a hyphen after the 8th, 12th, 16th and
/// 20th.
pub open spec fn uuid_hyphenated(u: u128) -> Seq<char> {
    Seq::new(
        36,
        |k: int|
            if k == 8 || k == 13 || k == 18 || k == 23 {
                '-'
            } else {
                uuid_digit(u, k - hyphens_before(k))
            },
    )
}

/// The hyphenated text is 36 ASCII characters, so it always fits a
/// length prefix.
pub proof fn lemma_uuid_text_fits(u: u128)
    ensures
        is_ascii_chars(uuid_hyphenated(u)),
        encode_utf8(uuid_hyphenated(u)).len() == 36,
        string_fits(uuid_hyphenated(u)),
{
    let t = uuid_hyphenated(u);
    assert forall|i: int| 0 <= i < t.len() implies '\0' <= #[trigger] t[i] <= '\u{7f}' by {
        if !(i == 8 || i == 13 || i == 18 || i == 23) {
            let n = (u as nat / pow16((31 - (i - hyphens_before(i))) as nat)) % 16;
            assert('\0' <= hex_digit(n) <= '\u{7f}');
        }
    }
    assert(is_ascii_chars(t));
    vstd::utf8::is_ascii_chars_encode_utf8(t);
}

/// Relies on `String::from_utf8`: it succeeds exactly on valid UTF-8 and
/// then holds the characters that the bytes encode.
#[verifier::external_body]
fn string_from_utf8(bytes: Vec<u8>) -> (r: Option<String>)
    ensures
        r is Some <==> valid_utf8(bytes@),
        r is Some ==> r->0@ == decode_utf8(bytes@),
{
    String::from_utf8(bytes).ok()
}

/// Relies on `uuid::Uuid::parse_str` to read a UUID from its text.
#[verifier::external_body]
fn uuid_parse(text: &str) -> (r: Option<u128>)
    ensures
        r == uuid_from_text(text@),
{
    match uuid::Uuid::parse_str(text) {
        Ok(u) => Some(u.as_u128()),
        Err(_) => None,
    }
}

/// Relies on `uuid::fmt::Hyphenated` (its `format_hyphenated`) to write a
/// UUID as lower-case hexadecimal digits with hyphens.
#[verifier::external_body]
fn uuid_text(u: u128) -> (r: String)
    ensures
        r@ == uuid_hyphenated(u),
{
    uuid::Uuid::from_u128(u).hyphenated().to_string()
}

/// A byte sequence being read from the front.
pub struct Buffer {
    data: Vec<u8>,
    pos: usize,
}

impl Buffer {
    /// The read position lies within the bytes.
    pub closed spec fn wf(&self) -> bool {
        self.pos <= self.data@.len()
    }

    /// The bytes not read yet.
    pub closed spec fn rest(&self) -> Seq<u8> {
        self.data@.subrange(self.pos as int, self.data@.len() as int)
    }

    pub fn new(data: Vec<u8>) -> (r: Buffer)
        ensures
            r.wf(),
            r.rest() == data@,
    {
        let r = Buffer { data, pos: 0 };
        assert(r.rest() == r.data@);
        r
    }

    /// How many bytes are left to read.
    pub fn remaining(&self) -> (n: usize)
        requires
            self.wf(),
        ensures
            n == self.rest().len(),
    {
        self.data.len() - self.pos
    }

    pub fn read_u8(&mut self) -> (r: Result<u8, ()>)
        requires
            old(self).wf(),
        ensures
            final(self).wf(),
            read_outcome(final(self).rest(), parse_u8(old(self).rest()), r),
    {
        if self.pos < self.data.len() {
            let b = self.data[self.pos];
            self.pos = self.pos + 1;
            assert(self.rest() == old(self).rest().skip(1));
            Ok(b)
        } else {
            Err(())
        }
    }

    pub fn read_u16(&mut self) -> (r: Result<u16, ()>)
        requires
            old(self).wf(),
        ensures
            final(self).wf(),
            read_outcome(final(self).rest(), parse_u16(old(self).rest()), r),
    {
        if self.data.len() - self.pos >= 2 {
            let hi = self.data[self.pos] as u16;
            let lo = self.data[self.pos + 1] as u16;
            self.pos = self.pos + 2;
            assert(self.rest() == old(self).rest().skip(2));
            Ok(hi * 0x100 + lo)
        } else {
            Err(())
        }
    }

    pub fn read_u64(&mut self) -> (r: Result<u64, ()>)
        requires
            old(self).wf(),
        ensures
            final(self).wf(),
            read_outcome(final(self).rest(), parse_u64(old(self).rest()), r),
    {
        if self.data.len() - self.pos >= 8 {
            let p = self.pos;
            let v: u64 = self.data[p] as u64 * 0x100_0000_0000_0000
                + self.data[p + 1] as u64 * 0x1_0000_0000_0000
                + self.data[p + 2] as u64 * 0x100_0000_0000
                + self.data[p + 3] as u64 * 0x1_0000_0000
                + self.data[p + 4] as u64 * 0x100_0000
                + self.data[p + 5] as u64 * 0x1_0000
                + self.data[p + 6] as u64 * 0x100
                + self.data[p + 7] as u64;
            self.pos = p + 8;
            assert(self.rest() == old(self).rest().skip(8));
            Ok(v)
        } else {
            Err(())
        }
    }

    pub fn read_var_int(&mut self) -> (r: Result<i32, ()>)
        requires
            old(self).wf(),
        ensures
            final(self).wf(),
            read_outcome(final(self).rest(), parse_var_int(old(self).rest()), r),
    {
        let ghost s = self.rest();
        let rem = self.data.len() - self.pos;
        assert(s.len() == rem);
        let mut acc: u64 = 0;
        let mut weight: u64 = 1;
        let mut i: usize = 0;
        proof {
            lemma_pow128_values();
        }
        while i < 5
            invariant
                self.wf(),
                s == old(self).rest(),
                self.rest() == s,
                self.data@.len() <= usize::MAX,
                s.len() == rem,
                rem == self.data@.len() - self.pos,
                i <= 5,
                weight == pow128(i as nat),
                acc < weight,
                pow128(4) == 0x1000_0000,
                scan_leb128(s, 5, 0, 0) == scan_leb128(s, 5, i as nat, acc as nat),
            decreases 5 - i,
        {
            proof {
                assert(pow128((i + 1) as nat) == 128 * pow128(i as nat));
                lemma_pow128_monotone(i as nat, 4);
            }
            if i >= rem {
                return Err(());
            }
            let byte = self.data[self.pos + i];
            assert(byte == s[i as int]);
            let group: u64 = (byte % 128) as u64;
            assert(acc + group * weight < 128 * weight) by (nonlinear_arith)
                requires
                    acc < weight,
                    group < 128,
            ;
            acc = acc + group * weight;
            if byte < 128 {
                let raw: u32 = (acc % 0x1_0000_0000) as u32;
                let value: i32 = if raw < 0x8000_0000 {
                    raw as i32
                } else {
                    (raw as i64 - 0x1_0000_0000i64) as i32
                };
                self.pos = self.pos + i + 1;
                assert(self.rest() == s.skip(i + 1));
                return Ok(value);
            }
            weight = weight * 128;
            i = i + 1;
        }
        Err(())
    }

    pub fn read_byte_array(&mut self) -> (r: Result<Vec<u8>, ()>)
        requires
            old(self).wf(),
        ensures
            final(self).wf(),
            match parse_byte_array(old(self).rest()) {
                Some((b, rest)) => r is Ok && r->Ok_0@ == b && final(self).rest() == rest,
                None => r is Err,
            },
    {
        let n = self.read_var_int()?;
        let rem = self.data.len() - self.pos;
        if n < 0 || n as usize > rem {
            return Err(());
        }
        let n = n as usize;
        let start = self.pos;
        let ghost r1 = self.rest();
        let mut out: Vec<u8> = Vec::new();
        let mut j: usize = 0;
        while j < n
            invariant
                self.wf(),
                start == self.pos,
                self.data@.len() <= usize::MAX,
                j <= n,
                n <= rem,
                rem == self.data@.len() - start,
                r1 == self.rest(),
                out@ == r1.subrange(0, j as int),
            decreases n - j,
        {
            out.push(self.data[start + j]);
            j = j + 1;
            assert(out@ == r1.subrange(0, j as int));
        }
        self.pos = start + n;
        assert(out@ =~= r1.take(n as int));
        assert(self.rest() =~= r1.skip(n as int));
        Ok(out)
    }

    pub fn read_string(&mut self) -> (r: Result<String, ()>)
        requires
            old(self).wf(),
        ensures
            final(self).wf(),
            match parse_string(old(self).rest()) {
                Some((t, rest)) => r is Ok && r->Ok_0@ == t && final(self).rest() == rest,
                None => r is Err,
            },
    {
        let bytes = self.read_byte_array()?;
        match string_from_utf8(bytes) {
            Some(s) => Ok(s),
            None => Err(()),
        }
    }

    pub fn read_uuid(&mut self) -> (r: Result<u128, ()>)
        requires
            old(self).wf(),
        ensures
            final(self).wf(),
            match parse_uuid(old(self).rest()) {
                Some((u, rest)) => r == Ok::<u128, ()>(u) && final(self).rest() == rest,
                None => r is Err,
            },
    {
        let text = self.read_string()?;
        match uuid_parse(text.as_str()) {
            Some(u) => Ok(u),
            None => Err(()),
        }
    }

    /// Takes every byte not read yet.
    pub fn remaining_bytes(&mut self) -> (r: Vec<u8>)
        requires
            old(self).wf(),
        ensures
            final(self).wf(),
            r@ == old(self).rest(),
            final(self).rest().len() == 0,
    {
        let mut out: Vec<u8> = Vec::new();
        let start = self.pos;
        let mut j: usize = start;
        while j < self.data.len()
            invariant
                self.wf(),
                start == self.pos,
                start <= j <= self.data@.len(),
                out@ == self.data@.subrange(start as int, j as int),
            decreases self.data@.len() - j,
        {
            out.push(self.data[j]);
            j = j + 1;
            assert(out@ == self.data@.subrange(start as int, j as int));
        }
        self.pos = self.data.len();
        out
    }
}

pub proof fn lemma_pow128_monotone(i: nat, j: nat)
    requires
        i <= j,
    ensures
        pow128(i) <= pow128(j),
    decreases j - i,
{
    if i < j {
        lemma_pow128_monotone(i, (j - 1) as nat);
        lemma_pow128_positive((j - 1) as nat);
        assert(pow128(j) == 128 * pow128((j - 1) as nat));
    }
}

pub fn write_u8(buf: &mut Vec<u8>, byte: u8)
    ensures
        final(buf)@ == old(buf)@.push(byte),
{
    buf.push(byte);
}

pub fn write_u16(buf: &mut Vec<u8>, short: u16)
    ensures
        final(buf)@ == old(buf)@ + u16_bytes(short),
{
    buf.push((short / 0x100) as u8);
    buf.push((short % 0x100) as u8);
}

pub fn write_u64(buf: &mut Vec<u8>, long: u64)
    ensures
        final(buf)@ == old(buf)@ + u64_bytes(long),
{
    buf.push((long / 0x100_0000_0000_0000) as u8);
    buf.push((long / 0x1_0000_0000_0000 % 0x100) as u8);
    buf.push((long / 0x100_0000_0000 % 0x100) as u8);
    buf.push((long / 0x1_0000_0000 % 0x100) as u8);
    buf.push((long / 0x100_0000 % 0x100) as u8);
    buf.push((long / 0x1_0000 % 0x100) as u8);
    buf.push((long / 0x100 % 0x100) as u8);
    buf.push((long % 0x100) as u8);
}

/// Appends bytes without a length prefix.
pub fn write_raw_bytes(buf: &mut Vec<u8>, bytes: &[u8])
    ensures
        final(buf)@ == old(buf)@ + bytes@,
{
    let mut j: usize = 0;
    while j < bytes.len()
        invariant
            j <= bytes@.len(),
            buf@ == old(buf)@ + bytes@.subrange(0, j as int),
        decreases bytes@.len() - j,
    {
        buf.push(bytes[j]);
        j = j + 1;
        assert(buf@ == old(buf)@ + bytes@.subrange(0, j as int));
    }
    assert(bytes@.subrange(0, bytes@.len() as int) == bytes@);
}

pub fn write_byte_array(buf: &mut Vec<u8>, array: &[u8])
    requires
        array@.len() <= i32::MAX,
    ensures
        final(buf)@ == old(buf)@ + byte_array_bytes(array@),
{
    write_var_int(buf, array.len() as i32);
    write_raw_bytes(buf, array);
}

pub fn write_string(buf: &mut Vec<u8>, string: &str)
    requires
        string_fits(string@),
    ensures
        final(buf)@ == old(buf)@ + string_bytes(string@),
{
    write_byte_array(buf, string.as_bytes());
}

/// Whether `s` can be written as a length-prefixed string.
pub fn fits_length_prefix(s: &str) -> (r: bool)
    ensures
        r == string_fits(s@),
{
    s.as_bytes().len() <= 0x7fff_ffff
}

/// Writes a UUID as its hyphenated text, a length-prefixed string.
pub fn write_uuid(buf: &mut Vec<u8>, uuid: u128)
    ensures
        final(buf)@ == old(buf)@ + string_bytes(uuid_hyphenated(uuid)),
{
    let text = uuid_text(uuid);
    proof {
        lemma_uuid_text_fits(uuid);
    }
    write_string(buf, text.as_str());
}

} // verus!
