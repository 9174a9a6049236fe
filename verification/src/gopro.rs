//! Clip identifiers stored beside the telemetry: the media and global
//! unique identifier records, and a digest of the first raw chunk used to
//! match high- and low-resolution clips of the same recording.

use vstd::prelude::*;

use crate::bytes::le32;
use crate::bytes::le_u32;
use crate::errors::GpmfError;

verus! {

/// The digest of the given bytes; what it is depends on the bytes alone.
pub uninterp spec fn blake3_of(data: Seq<u8>) -> Seq<u8>;

/// Relies on `blake3::hash`: a 32-byte digest that depends on the input
/// bytes alone.
#[verifier::external_body]
fn blake3_digest(data: &[u8]) -> (r: Vec<u8>)
    ensures
        r@ == blake3_of(data@),
        r@.len() == 32,
{
    blake3::hash(data).as_bytes().to_vec()
}

/// Bytes with the ASCII capitals folded to lower case.
pub open spec fn ascii_lower_bytes(bs: Seq<u8>) -> Seq<u8> {
    bs.map_values(
        |b: u8|
            if 65 <= b <= 90 {
                (b + 32) as u8
            } else {
                b
            },
    )
}

/// The fingerprint of one raw chunk: the digest of its bytes, capitals
/// folded. High- and low-resolution clips of one recording carry the same
/// raw telemetry, so this matches them without touching either container.
pub fn fingerprint(raw: &[u8]) -> (r: Vec<u8>)
    ensures
        r@ == ascii_lower_bytes(blake3_of(raw@)),
        r@.len() == 32,
{
    let digest = blake3_digest(raw);
    let mut out: Vec<u8> = Vec::new();
    let m = digest.len();
    let mut i: usize = 0;
    while i < m
        invariant
            m == digest@.len(),
            digest@ == blake3_of(raw@),
            i <= m,
            out@.len() == i,
            forall|j: int| 0 <= j < i ==> out@[j] == ascii_lower_bytes(digest@)[j],
        decreases m - i,
    {
        let bv = digest[i];
        if bv >= 65 && bv <= 90 {
            out.push(bv + 32);
        } else {
            out.push(bv);
        }
        i = i + 1;
    }
    proof {
        assert(out@ =~= ascii_lower_bytes(digest@));
    }
    out
}

/// The little-endian words of a media unique identifier record.
pub open spec fn le_words(data: Seq<u8>) -> Seq<u32> {
    Seq::new(data.len() / 4, |i: int| le32(data, 4 * i) as u32)
}

/// The words of a media unique identifier record's payload. A payload
/// whose length is not a multiple of four is a recoverable error, not a
/// fatal one.
pub fn muid_from_bytes(data: &[u8]) -> (r: Result<Vec<u32>, GpmfError>)
    ensures
        data@.len() % 4 == 0 ==> (r matches Ok(ws) && ws@ == le_words(data@)),
        data@.len() % 4 != 0 ==> r == Err::<Vec<u32>, GpmfError>(
            GpmfError::MisalignedLength { len: data@.len() as u64 },
        ),
{
    let n = data.len();
    if n % 4 != 0 {
        return Err(GpmfError::MisalignedLength { len: n as u64 });
    }
    let count = n / 4;
    let mut out: Vec<u32> = Vec::new();
    let mut i: usize = 0;
    while i < count
        invariant
            n == data@.len(),
            n % 4 == 0,
            count == n / 4,
            i <= count,
            out@.len() == i,
            forall|j: int| 0 <= j < i ==> out@[j] == le_words(data@)[j],
        decreases count - i,
    {
        out.push(le_u32(data, 4 * i));
        i = i + 1;
    }
    proof {
        assert(out@ =~= le_words(data@));
    }
    Ok(out)
}

/// The lower-case hexadecimal digit for a value below sixteen.
pub open spec fn hex_digit(n: int) -> char {
    if n < 10 {
        (48 + n) as char
    } else {
        (87 + n) as char
    }
}

/// Two lower-case hexadecimal digits per byte, in order.
pub open spec fn hex_chars(bs: Seq<u8>) -> Seq<char>
    decreases bs.len(),
{
    if bs.len() == 0 {
        Seq::empty()
    } else {
        hex_chars(bs.drop_last()) + seq![
            hex_digit(bs.last() as int / 16),
            hex_digit(bs.last() as int % 16),
        ]
    }
}

fn hex_digit_char(n: u8) -> (r: char)
    requires
        n < 16,
    ensures
        r == hex_digit(n as int),
{
    if n < 10 {
        (48 + n) as char
    } else {
        (87 + n) as char
    }
}

/// A digest rendered as lower-case hexadecimal, two digits per byte.
pub fn fingerprint_hex(digest: &Vec<u8>) -> (r: String)
    ensures
        r@ == hex_chars(digest@),
{
    let mut out = String::new();
    let m = digest.len();
    let mut i: usize = 0;
    while i < m
        invariant
            m == digest@.len(),
            i <= m,
            out@ == hex_chars(digest@.take(i as int)),
        decreases m - i,
    {
        proof {
            assert(digest@.take(i as int + 1).drop_last() =~= digest@.take(i as int));
            assert(digest@.take(i as int + 1).last() == digest@[i as int]);
        }
        let b = digest[i];
        let ghost pre = out@;
        crate::chars::push_char(&mut out, hex_digit_char(b / 16));
        crate::chars::push_char(&mut out, hex_digit_char(b % 16));
        proof {
            assert(out@ =~= pre + seq![
                hex_digit(digest@[i as int] as int / 16),
                hex_digit(digest@[i as int] as int % 16),
            ]);
        }
        i = i + 1;
    }
    proof {
        assert(digest@.take(m as int) =~= digest@);
    }
    out
}

} // verus!
