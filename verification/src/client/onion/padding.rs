//! Bucket padding of onion payloads: `[u16 LE length][plaintext][zeros]`,
//! padded up to the smallest of a few fixed sizes.

use vstd::prelude::*;
use vstd::bytes::{spec_u16_to_le_bytes, spec_u16_from_le_bytes, u16_to_le_bytes, u16_from_le_bytes, lemma_auto_spec_u16_to_from_le_bytes};
use crate::common::error::{Error, Result};
use crate::common::text::{push_decimal, spec_decimal, string_push_str};

verus! {

/// The padded sizes, smallest first.
pub const PADDING_BUCKETS: [usize; 5] = [512, 1024, 2048, 4096, 8192];

/// Largest plaintext that can be padded: the last bucket less the prefix.
pub const MAX_PADDED_PLAINTEXT: usize = 8190;

/// The smallest bucket holding `needed` bytes, if any.
pub open spec fn spec_bucket_for(needed: int) -> Option<int> {
    if needed <= 512 {
        Some(512)
    } else if needed <= 1024 {
        Some(1024)
    } else if needed <= 2048 {
        Some(2048)
    } else if needed <= 4096 {
        Some(4096)
    } else if needed <= 8192 {
        Some(8192)
    } else {
        None
    }
}

/// Whether `n` is one of the bucket sizes.
pub open spec fn is_bucket(n: int) -> bool {
    n == 512 || n == 1024 || n == 2048 || n == 4096 || n == 8192
}

/// The padded form of a plaintext that fits a bucket.
pub open spec fn spec_pad(pt: Seq<u8>) -> Seq<u8> {
    let bucket = spec_bucket_for(pt.len() + 2int).unwrap();
    spec_u16_to_le_bytes(pt.len() as u16) + pt + Seq::new((bucket - 2 - pt.len()) as nat, |i: int| 0u8)
}

/// What `unpad` recovers: the bytes after the prefix, as many as it says.
pub open spec fn spec_unpad(padded: Seq<u8>) -> Option<Seq<u8>> {
    if padded.len() < 2 {
        None
    } else {
        let len = spec_u16_from_le_bytes(padded.subrange(0, 2)) as int;
        if 2 + len > padded.len() {
            None
        } else {
            Some(padded.subrange(2, 2 + len))
        }
    }
}

/// Pads `plaintext` to the next bucket size. Plaintexts over 8190 bytes are
/// a protocol error.
pub fn pad(plaintext: &[u8]) -> (r: Result<Vec<u8>>)
    ensures
        r is Ok <==> plaintext@.len() <= MAX_PADDED_PLAINTEXT,
        r is Ok ==> r->Ok_0@ == spec_pad(plaintext@),
        r is Err ==> r->Err_0 is Protocol && r->Err_0->Protocol_0@ == "plaintext too large for padding: "@
            + spec_decimal(plaintext@.len()) + " bytes (max 8190)"@,
{
    let mut k: usize = 0;
    let mut bucket: usize = 0;
    let mut found = false;
    while k < 5
        invariant
            0 <= k <= 5,
            found ==> bucket as int == spec_bucket_for(plaintext@.len() + 2int).unwrap() && spec_bucket_for(plaintext@.len() + 2int) is Some,
            !found ==> forall|j: int| 0 <= j < k ==> PADDING_BUCKETS@[j] < plaintext@.len() + 2,
        decreases 5 - k,
    {
        if !found && PADDING_BUCKETS[k] - 2 >= plaintext.len() {
            bucket = PADDING_BUCKETS[k];
            found = true;
        }
        k = k + 1;
    }
    if !found {
        let mut msg = "plaintext too large for padding: ".to_string();
        push_decimal(&mut msg, plaintext.len() as u64);
        string_push_str(&mut msg, " bytes (max 8190)");
        return Err(Error::Protocol(msg));
    }
    proof {
        lemma_auto_spec_u16_to_from_le_bytes();
    }
    let mut buf = u16_to_le_bytes(plaintext.len() as u16);
    buf.extend_from_slice(plaintext);
    let mut i: usize = plaintext.len() + 2;
    while i < bucket
        invariant
            plaintext@.len() + 2 <= i <= bucket,
            buf@ == spec_u16_to_le_bytes(plaintext@.len() as u16) + plaintext@ + Seq::new(
                (i - 2 - plaintext@.len()) as nat,
                |j: int| 0u8,
            ),
        decreases bucket - i,
    {
        buf.push(0u8);
        i = i + 1;
        assert(buf@ =~= spec_u16_to_le_bytes(plaintext@.len() as u16) + plaintext@ + Seq::new(
            (i - 2 - plaintext@.len()) as nat,
            |j: int| 0u8,
        ));
    }
    Ok(buf)
}

/// Removes the padding: the plaintext the length prefix announces. A
/// buffer without a whole prefix, or whose prefix exceeds it, is a protocol
/// error.
pub fn unpad(padded: &[u8]) -> (r: Result<&[u8]>)
    ensures
        r is Ok <==> spec_unpad(padded@) is Some,
        r is Ok ==> spec_unpad(padded@) == Some(r->Ok_0@),
        r is Err ==> r->Err_0 is Protocol,
        padded@.len() < 2 ==> r is Err && r->Err_0->Protocol_0@ == "padded payload too short"@,
        padded@.len() >= 2 && r is Err ==> r->Err_0->Protocol_0@ == "padding length prefix "@ + spec_decimal(
            spec_u16_from_le_bytes(padded@.subrange(0, 2)) as nat,
        ) + " exceeds payload size "@ + spec_decimal((padded@.len() - 2) as nat),
{
    if padded.len() < 2 {
        return Err(Error::Protocol("padded payload too short".to_string()));
    }
    let len = u16_from_le_bytes(vstd::slice::slice_subrange(padded, 0, 2)) as usize;
    if 2 + len > padded.len() {
        let mut msg = "padding length prefix ".to_string();
        push_decimal(&mut msg, len as u64);
        string_push_str(&mut msg, " exceeds payload size ");
        push_decimal(&mut msg, (padded.len() - 2) as u64);
        return Err(Error::Protocol(msg));
    }
    Ok(vstd::slice::slice_subrange(padded, 2, 2 + len))
}

/// Padding is undone by `unpad`, and the padded size is the smallest bucket
/// that holds the plaintext and its two-byte prefix.
pub proof fn lemma_pad_roundtrip(pt: Seq<u8>)
    requires
        pt.len() <= MAX_PADDED_PLAINTEXT,
    ensures
        spec_unpad(spec_pad(pt)) == Some(pt),
        is_bucket(spec_pad(pt).len() as int),
        spec_pad(pt).len() >= pt.len() + 2,
        forall|b: int| is_bucket(b) && b >= pt.len() + 2 ==> spec_pad(pt).len() <= b,
{
    lemma_auto_spec_u16_to_from_le_bytes();
    let p = spec_pad(pt);
    let pre = spec_u16_to_le_bytes(pt.len() as u16);
    assert(p.subrange(0, 2) =~= pre);
    assert(p.subrange(2, 2 + pt.len() as int) =~= pt);
}

} // verus!
