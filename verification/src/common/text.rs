//! Text helpers: the std string operations the library uses, and
//! hexadecimal encoding and decoding of byte strings.

use vstd::prelude::*;
use vstd::string::StringSliceAdditionalSpecFns;
use vstd::utf8::is_char_boundary;
use crate::common::error::{Error, Result};

verus! {

/// `String::push` from std: appends one character.
#[verifier::external_body]
pub fn string_push(s: &mut String, c: char)
    ensures
        final(s)@ == old(s)@.push(c),
{
    s.push(c);
}

/// `String::push_str` from std: appends a string slice.
#[verifier::external_body]
pub fn string_push_str(s: &mut String, t: &str)
    ensures
        final(s)@ == old(s)@ + t@,
{
    s.push_str(t);
}

/// `String::from_utf8` from std: the string the bytes encode, when they
/// are valid UTF-8.
#[verifier::external_body]
pub fn string_from_utf8(bytes: Vec<u8>) -> (r: Option<String>)
    ensures
        r is Some <==> vstd::utf8::valid_utf8(bytes@),
        r matches Some(s) ==> s@ == vstd::utf8::decode_utf8(bytes@),
{
    String::from_utf8(bytes).ok()
}

/// Whether a character is Unicode `White_Space`, as `char::is_whitespace`
/// documents it.
pub open spec fn spec_is_whitespace(c: char) -> bool {
    let n = c as u32;
    (9 <= n && n <= 13) || n == 32 || n == 0x85 || n == 0xA0 || n == 0x1680 || (0x2000 <= n && n
        <= 0x200A) || n == 0x2028 || n == 0x2029 || n == 0x202F || n == 0x205F || n == 0x3000
}

/// Whether a character is Unicode `White_Space`.
pub fn is_whitespace(c: char) -> (r: bool)
    ensures
        r == spec_is_whitespace(c),
{
    let n = c as u32;
    (9 <= n && n <= 13) || n == 32 || n == 0x85 || n == 0xA0 || n == 0x1680 || (0x2000 <= n && n
        <= 0x200A) || n == 0x2028 || n == 0x2029 || n == 0x202F || n == 0x205F || n == 0x3000
}

/// The index of the first non-whitespace character at or after `i`, or the
/// length.
pub open spec fn first_non_ws(s: Seq<char>, i: int) -> int
    decreases s.len() - i,
{
    if i >= s.len() {
        s.len() as int
    } else if !spec_is_whitespace(s[i]) {
        i
    } else {
        first_non_ws(s, i + 1)
    }
}

/// One past the last non-whitespace character before `j`, or 0.
pub open spec fn end_non_ws(s: Seq<char>, j: int) -> int
    decreases j,
{
    if j <= 0 {
        0
    } else if !spec_is_whitespace(s[j - 1]) {
        j
    } else {
        end_non_ws(s, j - 1)
    }
}

/// The string with leading and trailing whitespace removed, as `str::trim`
/// documents it.
pub open spec fn spec_trim(s: Seq<char>) -> Seq<char> {
    let a = first_non_ws(s, 0);
    let b = end_non_ws(s, s.len() as int);
    if b <= a {
        Seq::empty()
    } else {
        s.subrange(a, b)
    }
}

/// The characters of a string slice.
pub fn str_chars(s: &str) -> (v: Vec<char>)
    ensures
        v@ == s@,
{
    let mut v: Vec<char> = Vec::new();
    for c in it: s.chars()
        invariant
            it.seq() == s@,
            v@ == it.seq().take(it.index() as int),
    {
        v.push(c);
        assert(v@ =~= it.seq().take(it.index() + 1));
    }
    assert(v@ =~= s@);
    v
}

/// The string with leading and trailing whitespace removed.
pub fn trim(s: &str) -> (t: String)
    ensures
        t@ == spec_trim(s@),
{
    let chars = str_chars(s);
    let n = chars.len();
    let mut a: usize = 0;
    while a < n && is_whitespace(chars[a])
        invariant
            chars@ == s@,
            n == s@.len(),
            0 <= a <= n,
            first_non_ws(s@, 0) == first_non_ws(s@, a as int),
        decreases n - a,
    {
        a = a + 1;
    }
    let mut b: usize = n;
    while b > 0 && is_whitespace(chars[b - 1])
        invariant
            chars@ == s@,
            n == s@.len(),
            0 <= b <= n,
            end_non_ws(s@, n as int) == end_non_ws(s@, b as int),
        decreases b,
    {
        b = b - 1;
    }
    let mut t = String::new();
    if a < b {
        let mut i: usize = a;
        while i < b
            invariant
                chars@ == s@,
                a <= i <= b <= n,
                n == s@.len(),
                t@ == s@.subrange(a as int, i as int),
            decreases b - i,
        {
            string_push(&mut t, chars[i]);
            i = i + 1;
            assert(t@ =~= s@.subrange(a as int, i as int));
        }
    }
    proof {
        assert(first_non_ws(s@, a as int) == a);
        assert(end_non_ws(s@, b as int) == b);
        if a >= b {
            assert(t@ =~= Seq::<char>::empty());
        }
    }
    t
}

/// The lowercase hexadecimal digit of a nibble.
pub open spec fn hex_digit(n: int) -> char {
    if n < 10 {
        (48 + n) as char
    } else {
        (87 + n) as char
    }
}

/// Lowercase hexadecimal text of a byte string, two digits per byte.
pub open spec fn spec_hex_encode(b: Seq<u8>) -> Seq<char> {
    Seq::new(
        2 * b.len(),
        |k: int|
            if k % 2 == 0 {
                hex_digit(b[k / 2] as int / 16)
            } else {
                hex_digit(b[k / 2] as int % 16)
            },
    )
}

fn nibble_char(n: u8) -> (c: char)
    requires
        n < 16,
    ensures
        c == hex_digit(n as int),
{
    if n < 10 {
        (48u8 + n) as char
    } else {
        (87u8 + n) as char
    }
}

/// Appends the lowercase hexadecimal text of `b` to `out`.
pub fn push_hex(out: &mut String, b: &[u8])
    ensures
        final(out)@ == old(out)@ + spec_hex_encode(b@),
{
    let mut i: usize = 0;
    while i < b.len()
        invariant
            i <= b@.len(),
            out@ == old(out)@ + spec_hex_encode(b@.subrange(0, i as int)),
        decreases b@.len() - i,
    {
        let byte = b[i];
        string_push(out, nibble_char(byte / 16));
        string_push(out, nibble_char(byte % 16));
        proof {
            let prev = spec_hex_encode(b@.subrange(0, i as int));
            let next = spec_hex_encode(b@.subrange(0, i + 1));
            assert(next =~= prev.push(hex_digit(byte as int / 16)).push(hex_digit(byte as int % 16))) by {
                assert forall|k: int| 0 <= k < next.len() implies next[k] == prev.push(
                    hex_digit(byte as int / 16),
                ).push(hex_digit(byte as int % 16))[k] by {
                    if k < 2 * i {
                        assert(b@.subrange(0, i + 1)[k / 2] == b@.subrange(0, i as int)[k / 2]);
                    }
                }
            }
        }
        i = i + 1;
    }
    assert(b@.subrange(0, b@.len() as int) =~= b@);
}

/// Lowercase hexadecimal text of a byte string.
pub fn hex_encode(b: &[u8]) -> (s: String)
    ensures
        s@ == spec_hex_encode(b@),
{
    let mut s = String::new();
    push_hex(&mut s, b);
    s
}

/// The first (up to) four bytes in hex followed by `...`, for logs.
pub open spec fn spec_hex_short(b: Seq<u8>) -> Seq<char> {
    let n = if b.len() < 4 { b.len() } else { 4 };
    spec_hex_encode(b.subrange(0, n as int)) + seq!['.', '.', '.']
}

/// The first (up to) four bytes in hex followed by `...`, for logs.
pub fn hex_short(b: &[u8]) -> (s: String)
    ensures
        s@ == spec_hex_short(b@),
{
    let n = if b.len() < 4 { b.len() } else { 4 };
    let mut s = hex_encode(vstd::slice::slice_subrange(b, 0, n));
    string_push(&mut s, '.');
    string_push(&mut s, '.');
    string_push(&mut s, '.');
    assert(s@ =~= spec_hex_short(b@));
    s
}

/// The value of one hexadecimal digit byte (either case).
pub open spec fn hex_value(c: u8) -> Option<u8> {
    if 48 <= c <= 57 {
        Some((c - 48) as u8)
    } else if 97 <= c <= 102 {
        Some((c - 87) as u8)
    } else if 65 <= c <= 70 {
        Some((c - 55) as u8)
    } else {
        None
    }
}

/// The byte that a two-byte chunk denotes: two hexadecimal digits, high
/// digit first.
pub open spec fn hex_pair(c0: u8, c1: u8) -> Option<u8> {
    match (hex_value(c0), hex_value(c1)) {
        (Some(h), Some(l)) => Some((h * 16 + l) as u8),
        _ => None,
    }
}

/// Whether the chunk starting at byte `i` denotes a byte.
pub open spec fn hex_chunk_ok(b: Seq<u8>, i: int) -> bool {
    hex_pair(b[i], b[i + 1]) is Some
}

/// The bytes a hexadecimal text denotes, or `None` when it has odd length or
/// a chunk that is not a byte.
pub open spec fn spec_hex_decode(b: Seq<u8>) -> Option<Seq<u8>> {
    if b.len() % 2 != 0 {
        None
    } else if forall|i: int| 0 <= i < b.len() && i % 2 == 0 ==> #[trigger] hex_chunk_ok(b, i) {
        Some(Seq::new(b.len() / 2, |k: int| hex_pair(b[2 * k], b[2 * k + 1]).unwrap()))
    } else {
        None
    }
}

/// Decoding slices the text into two-byte chunks and stops at the first bad
/// chunk; slicing at a byte offset that is not a character boundary would
/// panic, so every chunk reached must start and end on one.
pub open spec fn hex_chunks_sliceable(b: Seq<u8>) -> bool {
    b.len() % 2 == 0 ==> forall|i: int|
        #![trigger is_char_boundary(b, i)]
        #![trigger is_char_boundary(b, i + 2)]
        0 <= i < b.len() && i % 2 == 0 && hex_chunks_ok_before(b, i) ==> is_char_boundary(b, i)
            && is_char_boundary(b, i + 2)
}

/// Whether every two-byte chunk starting before byte `i` denotes a byte.
pub open spec fn hex_chunks_ok_before(b: Seq<u8>, i: int) -> bool {
    forall|j: int| 0 <= j < i && j % 2 == 0 ==> #[trigger] hex_chunk_ok(b, j)
}

fn hex_value_exec(c: u8) -> (v: Option<u8>)
    ensures
        v == hex_value(c),
{
    if 48 <= c && c <= 57 {
        Some(c - 48)
    } else if 97 <= c && c <= 102 {
        Some(c - 87)
    } else if 65 <= c && c <= 70 {
        Some(c - 55)
    } else {
        None
    }
}

fn hex_pair_exec(c0: u8, c1: u8) -> (v: Option<u8>)
    ensures
        v == hex_pair(c0, c1),
{
    match (hex_value_exec(c0), hex_value_exec(c1)) {
        (Some(h), Some(l)) => Some(h * 16 + l),
        _ => None,
    }
}

/// Decode a hexadecimal string into bytes.
pub fn hex_decode(hex: &str) -> (r: Result<Vec<u8>>)
    requires
        hex_chunks_sliceable(hex.spec_bytes()),
    ensures
        r is Ok <==> spec_hex_decode(hex.spec_bytes()) is Some,
        r matches Ok(v) ==> spec_hex_decode(hex.spec_bytes()) == Some(v@),
        r is Err ==> r->Err_0 is Protocol,
        hex.spec_bytes().len() % 2 != 0 ==> r is Err && r->Err_0->Protocol_0@ == "odd-length hex string"@,
        hex.spec_bytes().len() % 2 == 0 && r is Err ==> exists|k: int|
            #![trigger hex_chunk_ok(hex.spec_bytes(), k)]
            0 <= k < hex.spec_bytes().len() && k % 2 == 0 && hex_chunks_ok_before(hex.spec_bytes(), k)
                && !hex_chunk_ok(hex.spec_bytes(), k) && r->Err_0->Protocol_0@ == "invalid hex at offset "@
                + spec_decimal(k as nat),
{
    let b = hex.as_bytes();
    let ghost bs = hex.spec_bytes();
    if b.len() % 2 != 0 {
        return Err(Error::Protocol("odd-length hex string".to_string()));
    }
    let mut out: Vec<u8> = Vec::new();
    let mut i: usize = 0;
    while i < b.len()
        invariant
            b@ == bs,
            bs == hex.spec_bytes(),
            bs.len() % 2 == 0,
            i <= bs.len(),
            i % 2 == 0,
            out@.len() == i / 2,
            forall|j: int| 0 <= j < i && j % 2 == 0 ==> #[trigger] hex_chunk_ok(bs, j),
            forall|k: int| 0 <= k < i / 2 ==> out@[k] == hex_pair(bs[2 * k], bs[2 * k + 1]).unwrap(),
        decreases bs.len() - i,
    {
        match hex_pair_exec(b[i], b[i + 1]) {
            Some(v) => {
                out.push(v);
            },
            None => {
                assert(!hex_chunk_ok(bs, i as int));
                assert(hex_chunks_ok_before(bs, i as int));
                let mut msg = "invalid hex at offset ".to_string();
                push_decimal(&mut msg, i as u64);
                return Err(Error::Protocol(msg));
            },
        }
        i = i + 2;
    }
    proof {
        let expected = Seq::new(bs.len() / 2, |k: int| hex_pair(bs[2 * k], bs[2 * k + 1]).unwrap());
        assert(out@ =~= expected);
    }
    Ok(out)
}

/// Decoding the hexadecimal text of any bytes gives them back, and
/// `hex_decode` may be called on that text.
pub proof fn lemma_hex_roundtrip(s: &str, b: Seq<u8>)
    requires
        s@ == spec_hex_encode(b),
    ensures
        spec_hex_decode(s.spec_bytes()) == Some(b),
        hex_chunks_sliceable(s.spec_bytes()),
{
    lemma_hex_encoded_sliceable(s, b);
    broadcast use vstd::string::is_ascii_spec_bytes;
    assert forall|k: int| 0 <= k < s@.len() implies (#[trigger] s@[k]) as u32 <= 127 by {
        let n = if k % 2 == 0 { b[k / 2] as int / 16 } else { b[k / 2] as int % 16 };
        assert(0 <= n < 16);
    }
    assert(vstd::string::is_ascii(s));
    let e = s.spec_bytes();
    assert(e =~= Seq::new(s@.len(), |i| s@.index(i) as u8));
    assert forall|k: int| 0 <= k < e.len() implies hex_value(#[trigger] e[k]) is Some by {
        let n = if k % 2 == 0 { b[k / 2] as int / 16 } else { b[k / 2] as int % 16 };
        assert(0 <= n < 16);
    }
    assert forall|i: int| 0 <= i < e.len() && i % 2 == 0 implies #[trigger] hex_chunk_ok(e, i) by {
        assert(hex_value(e[i]) is Some);
        assert(hex_value(e[i + 1]) is Some);
    }
    let d = Seq::new(e.len() / 2, |k: int| hex_pair(e[2 * k], e[2 * k + 1]).unwrap());
    assert forall|k: int| 0 <= k < b.len() implies d[k] == b[k] by {
        let hi = b[k] as int / 16;
        let lo = b[k] as int % 16;
        assert(e[2 * k] == hex_digit(hi) as u8);
        assert(e[2 * k + 1] == hex_digit(lo) as u8);
        assert(hex_value(e[2 * k]) == Some(hi as u8));
        assert(hex_value(e[2 * k + 1]) == Some(lo as u8));
    }
    assert(d =~= b);
}


/// Hexadecimal text of some bytes can be decoded without slicing inside a
/// character: it is all ASCII, so every byte offset is a character boundary.
pub proof fn lemma_hex_encoded_sliceable(s: &str, b: Seq<u8>)
    requires
        s@ == spec_hex_encode(b),
    ensures
        hex_chunks_sliceable(s.spec_bytes()),
{
    broadcast use vstd::string::is_ascii_spec_bytes;
    assert forall|k: int| 0 <= k < s@.len() implies (#[trigger] s@[k]) as u32 <= 127 by {
        let n = if k % 2 == 0 { b[k / 2] as int / 16 } else { b[k / 2] as int % 16 };
        assert(0 <= n < 16);
    }
    assert(vstd::string::is_ascii(s));
    let e = s.spec_bytes();
    assert(e =~= Seq::new(s@.len(), |i| s@.index(i) as u8));
    vstd::utf8::encode_utf8_valid_utf8(s@);
    vstd::utf8::is_char_boundary_start_end_of_seq(e);
    assert forall|i: int| 0 <= i <= e.len() implies is_char_boundary(e, i) by {
        if i < e.len() {
            vstd::utf8::is_char_boundary_iff_is_leading_byte(e, i);
            assert(vstd::utf8::is_leading_byte_width_1(e[i]));
        }
    }
}


/// The decimal digits of a number, without leading zeros.
pub open spec fn spec_decimal(n: nat) -> Seq<char>
    decreases n,
{
    if n < 10 {
        seq![(48 + n) as char]
    } else {
        spec_decimal(n / 10).push((48 + n % 10) as char)
    }
}

/// Appends the decimal digits of `n`, as `{}` formatting writes them.
pub fn push_decimal(s: &mut String, n: u64)
    ensures
        final(s)@ == old(s)@ + spec_decimal(n as nat),
    decreases n,
{
    if n >= 10 {
        push_decimal(s, n / 10);
    }
    let d: u8 = (n % 10) as u8;
    let c = (48u8 + d) as char;
    string_push(s, c);
    assert(s@ =~= old(s)@ + spec_decimal(n as nat));
}


/// Whether `hex_decode` may decode a text: each two-byte chunk it reaches
/// (up to the first that is not a byte) starts and ends on a character
/// boundary.
pub fn hex_text_sliceable(hex: &str) -> (r: bool)
    ensures
        r == hex_chunks_sliceable(hex.spec_bytes()),
{
    let b = hex.as_bytes();
    let ghost bs = hex.spec_bytes();
    proof {
        vstd::utf8::encode_utf8_valid_utf8(hex@);
    }
    if b.len() % 2 != 0 {
        return true;
    }
    let mut i: usize = 0;
    while i < b.len()
        invariant
            b@ == bs,
            bs == hex.spec_bytes(),
            bs.len() % 2 == 0,
            vstd::utf8::valid_utf8(bs),
            i <= bs.len(),
            i % 2 == 0,
            forall|j: int| 0 <= j < i && j % 2 == 0 ==> #[trigger] hex_chunk_ok(bs, j),
            forall|j: int|
                #![trigger is_char_boundary(bs, j)]
                #![trigger is_char_boundary(bs, j + 2)]
                0 <= j < i && j % 2 == 0 ==> is_char_boundary(bs, j) && is_char_boundary(bs, j + 2),
        decreases bs.len() - i,
    {
        let ok_start = hex.is_char_boundary(i);
        let ok_end = hex.is_char_boundary(i + 2);
        if !ok_start || !ok_end {
            proof {
                if hex_chunks_sliceable(bs) {
                    assert(is_char_boundary(bs, i + 2));
                }
            }
            return false;
        }
        if hex_pair_exec(b[i], b[i + 1]).is_none() {
            assert(!hex_chunk_ok(bs, i as int));
            assert forall|k: int|
                #![trigger is_char_boundary(bs, k)]
                #![trigger is_char_boundary(bs, k + 2)]
                0 <= k < bs.len() && k % 2 == 0 && hex_chunks_ok_before(bs, k) implies is_char_boundary(bs, k)
                && is_char_boundary(bs, k + 2) by {
                if k > i {
                    assert(hex_chunk_ok(bs, i as int));
                } else if k < i {
                    assert(is_char_boundary(bs, k + 2));
                }
            }
            assert(hex_chunks_sliceable(bs));
            return true;
        }
        assert forall|j: int|
            #![trigger is_char_boundary(bs, j)]
            #![trigger is_char_boundary(bs, j + 2)]
            0 <= j < i + 2 && j % 2 == 0 implies is_char_boundary(bs, j) && is_char_boundary(bs, j + 2) by {
            if j < i {
                assert(is_char_boundary(bs, j + 2));
            } else {
                assert(j == i);
            }
        }
        i = i + 2;
    }
    assert forall|k: int|
        #![trigger is_char_boundary(bs, k)]
        #![trigger is_char_boundary(bs, k + 2)]
        0 <= k < bs.len() && k % 2 == 0 && hex_chunks_ok_before(bs, k) implies is_char_boundary(bs, k)
        && is_char_boundary(bs, k + 2) by {
        assert(is_char_boundary(bs, k + 2));
    }
    true
}


} // verus!
