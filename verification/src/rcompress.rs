//! The codec for compressed basket payloads. A payload is a run of blocks,
//! each framed by a 9-byte header: a two-byte algorithm tag, one method
//! byte, then the compressed and uncompressed lengths as 3-byte
//! little-endian integers. Blocks are inflated in order until the declared
//! total is produced.

use vstd::prelude::*;

use crate::error::{Error, Result};
use crate::rbuffer::be8;

verus! {

/// What zlib inflation yields on a byte sequence, when it succeeds.
pub uninterp spec fn zlib_inflate(s: Seq<u8>) -> Option<Seq<u8>>;

/// What LZ4 block decompression into an `n`-byte buffer yields, when the
/// whole buffer is filled.
pub uninterp spec fn lz4_inflate(s: Seq<u8>, n: int) -> Option<Seq<u8>>;

/// What zstd decompression yields on a byte sequence, when it succeeds.
pub uninterp spec fn zstd_inflate(s: Seq<u8>) -> Option<Seq<u8>>;

/// What xz decompression yields on a byte sequence, when it succeeds.
pub uninterp spec fn xz_inflate(s: Seq<u8>) -> Option<Seq<u8>>;

/// The 64-bit xxhash of a byte sequence, with seed zero.
pub uninterp spec fn xxh64_of(s: Seq<u8>) -> u64;

/// Relies on `flate2::bufread::ZlibDecoder`: inflates a complete zlib stream,
/// a function of the input bytes alone.
#[verifier::external_body]
fn inflate_zlib(data: &[u8]) -> (r: Option<Vec<u8>>)
    ensures
        r matches Some(v) ==> zlib_inflate(data@) == Some(v@),
        r is None ==> zlib_inflate(data@) is None,
{
    let mut out: Vec<u8> = Vec::new();
    let mut dec = flate2::bufread::ZlibDecoder::new(data);
    match std::io::Read::read_to_end(&mut dec, &mut out) {
        Ok(_) => Some(out),
        Err(_) => None,
    }
}

/// Relies on `lz4_flex::block::decompress_into`: fills a buffer of exactly
/// `n` bytes from an LZ4 block, a function of the input bytes and `n`.
#[verifier::external_body]
fn inflate_lz4(data: &[u8], n: usize) -> (r: Option<Vec<u8>>)
    ensures
        r matches Some(v) ==> lz4_inflate(data@, n as int) == Some(v@) && v@.len() == n as int,
        r is None ==> lz4_inflate(data@, n as int) is None,
{
    let mut out: Vec<u8> = vec![0u8; n];
    match lz4_flex::block::decompress_into(data, out.as_mut_slice()) {
        Ok(m) if m == n => Some(out),
        _ => None,
    }
}

/// Relies on `zstd::bulk::decompress`: inflates one zstd frame of at most
/// `cap` bytes, a function of the input bytes alone.
#[verifier::external_body]
fn inflate_zstd(data: &[u8], cap: usize) -> (r: Option<Vec<u8>>)
    ensures
        r matches Some(v) ==> zstd_inflate(data@) == Some(v@) && v@.len() <= cap as int,
        r is None ==> !(zstd_inflate(data@) matches Some(v) && v.len() <= cap as int),
{
    zstd::bulk::decompress(data, cap).ok()
}

/// Relies on `xz2::bufread::XzDecoder`: inflates a complete xz stream, a
/// function of the input bytes alone.
#[verifier::external_body]
fn inflate_xz(data: &[u8]) -> (r: Option<Vec<u8>>)
    ensures
        r matches Some(v) ==> xz_inflate(data@) == Some(v@),
        r is None ==> xz_inflate(data@) is None,
{
    let mut out: Vec<u8> = Vec::new();
    let mut dec = xz2::bufread::XzDecoder::new(data);
    match std::io::Read::read_to_end(&mut dec, &mut out) {
        Ok(_) => Some(out),
        Err(_) => None,
    }
}

/// Relies on `xxhash_rust::xxh64::xxh64` with seed zero: a function of the
/// input bytes alone.
#[verifier::external_body]
fn xxh64_sum(data: &[u8]) -> (r: u64)
    ensures
        r == xxh64_of(data@),
{
    xxhash_rust::xxh64::xxh64(data, 0)
}

/// Little-endian value of the three bytes of `s` starting at `i`.
pub open spec fn le3(s: Seq<u8>, i: int) -> int {
    (s[i] as int) + 0x100 * (s[i + 1] as int) + 0x1_0000 * (s[i + 2] as int)
}

/// True when the bytes start with a well-formed block header: a recognized
/// two-byte algorithm tag and room for the 9 header bytes.
pub open spec fn has_block_magic(s: Seq<u8>) -> bool {
    s.len() >= 9 && ((s[0] == 0x5a && s[1] == 0x4c)  // ZL
     || (s[0] == 0x58 && s[1] == 0x5a)  // XZ
     || (s[0] == 0x4c && s[1] == 0x34)  // L4
     || (s[0] == 0x5a && s[1] == 0x53)  // ZS
     || (s[0] == 0x43 && s[1] == 0x53))  // CS

}

/// Whether a basket's trailing payload is compressed, decided by the block
/// header magic.
pub fn is_compressed(payload: &[u8]) -> (r: bool)
    ensures
        r == has_block_magic(payload@),
{
    if payload.len() < 9 {
        return false;
    }
    let a: u8 = *vstd::slice::slice_index_get(payload, 0);
    let b: u8 = *vstd::slice::slice_index_get(payload, 1);
    (a == 0x5a && b == 0x4c) || (a == 0x58 && b == 0x5a) || (a == 0x4c && b == 0x34) || (a == 0x5a
        && b == 0x53) || (a == 0x43 && b == 0x53)
}

/// What one block body of the tagged algorithm inflates to when it must
/// yield exactly `want` bytes; `None` for a body the algorithm rejects, a
/// wrong produced length, a bad checksum, or an unsupported tag.
pub open spec fn block_inflation(a: u8, b: u8, body: Seq<u8>, want: int) -> Option<Seq<u8>> {
    if a == 0x5a && b == 0x4c {
        match zlib_inflate(body) {
            Some(v) => if v.len() == want {
                Some(v)
            } else {
                Option::None
            },
            Option::None => Option::None,
        }
    } else if a == 0x4c && b == 0x34 {
        if body.len() < 8 {
            Option::None
        } else if be8(body, 0) != xxh64_of(body.skip(8)) as int {
            Option::None
        } else {
            lz4_inflate(body.skip(8), want)
        }
    } else if a == 0x5a && b == 0x53 {
        match zstd_inflate(body) {
            Some(v) => if v.len() == want {
                Some(v)
            } else {
                Option::None
            },
            Option::None => Option::None,
        }
    } else if a == 0x58 && b == 0x5a {
        match xz_inflate(body) {
            Some(v) => if v.len() == want {
                Some(v)
            } else {
                Option::None
            },
            Option::None => Option::None,
        }
    } else {
        Option::None
    }
}

/// Whether the block is an LZ4 body whose stored leading checksum differs
/// from the hash of what follows it.
pub open spec fn l4_bad_checksum(a: u8, b: u8, body: Seq<u8>) -> bool {
    a == 0x4c && b == 0x34 && body.len() >= 8 && be8(body, 0) != xxh64_of(body.skip(8)) as int
}

/// Inflates one block body of a known algorithm to exactly `want` bytes. An
/// LZ4 body carries its 64-bit checksum first; a mismatch fails with
/// `ChecksumMismatch` before anything is inflated.
fn decompress_block(a: u8, b: u8, body: &[u8], want: usize) -> (r: Result<Vec<u8>>)
    ensures
        r matches Ok(v) ==> block_inflation(a, b, body@, want as int) == Some(v@) && v@.len()
            == want as int,
        r is Ok <==> block_inflation(a, b, body@, want as int) is Some,
        r == Result::<Vec<u8>>::Err(Error::ChecksumMismatch) <==> l4_bad_checksum(a, b, body@),
{
    if a == 0x5a && b == 0x4c {
        match inflate_zlib(body) {
            Some(v) => {
                if v.len() == want {
                    Ok(v)
                } else {
                    Err(Error::Decompression(String::from_str("ZL"), String::from_str("inflate failed or wrong length")))
                }
            },
            None => Err(Error::Decompression(String::from_str("ZL"), String::from_str("inflate failed or wrong length"))),
        }
    } else if a == 0x4c && b == 0x34 {
        if body.len() < 8 {
            return Err(Error::Decompression(String::from_str("L4"), String::from_str("block shorter than its checksum")));
        }
        let b0: u8 = *vstd::slice::slice_index_get(body, 0);
        let b1: u8 = *vstd::slice::slice_index_get(body, 1);
        let b2: u8 = *vstd::slice::slice_index_get(body, 2);
        let b3: u8 = *vstd::slice::slice_index_get(body, 3);
        let b4: u8 = *vstd::slice::slice_index_get(body, 4);
        let b5: u8 = *vstd::slice::slice_index_get(body, 5);
        let b6: u8 = *vstd::slice::slice_index_get(body, 6);
        let b7: u8 = *vstd::slice::slice_index_get(body, 7);
        let stored: u64 = (b0 as u64) * 0x100_0000_0000_0000 + (b1 as u64) * 0x1_0000_0000_0000 + (
        b2 as u64) * 0x100_0000_0000 + (b3 as u64) * 0x1_0000_0000 + (b4 as u64) * 0x100_0000 + (
        b5 as u64) * 0x1_0000 + (b6 as u64) * 0x100 + (b7 as u64);
        assert(stored as int == be8(body@, 0));
        let block: &[u8] = vstd::slice::slice_subrange(body, 8, body.len());
        proof {
            assert(block@ =~= body@.skip(8));
        }
        let computed: u64 = xxh64_sum(block);
        if stored != computed {
            return Err(Error::ChecksumMismatch);
        }
        match inflate_lz4(block, want) {
            Some(v) => Ok(v),
            None => Err(Error::Decompression(String::from_str("L4"), String::from_str("inflate failed or wrong length"))),
        }
    } else if a == 0x5a && b == 0x53 {
        match inflate_zstd(body, want) {
            Some(v) => {
                if v.len() == want {
                    Ok(v)
                } else {
                    Err(Error::Decompression(String::from_str("ZS"), String::from_str("inflate failed or wrong length")))
                }
            },
            None => Err(Error::Decompression(String::from_str("ZS"), String::from_str("inflate failed or wrong length"))),
        }
    } else if a == 0x58 && b == 0x5a {
        match inflate_xz(body) {
            Some(v) => {
                if v.len() == want {
                    Ok(v)
                } else {
                    Err(Error::Decompression(String::from_str("XZ"), String::from_str("inflate failed or wrong length")))
                }
            },
            None => Err(Error::Decompression(String::from_str("XZ"), String::from_str("inflate failed or wrong length"))),
        }
    } else {
        Err(Error::Decompression(String::from_str("CS"), String::from_str("unsupported algorithm tag")))
    }
}

/// What a whole compressed payload inflates to when exactly `target` bytes
/// must come out: the concatenation of its blocks' inflations, walked in
/// order; `None` on a short or corrupt run of blocks.
pub open spec fn payload_inflation(src: Seq<u8>, target: int) -> Option<Seq<u8>>
    decreases src.len(),
{
    if target <= 0 {
        if target == 0 {
            Some(Seq::<u8>::empty())
        } else {
            Option::None
        }
    } else if src.len() < 9 {
        Option::None
    } else {
        let c = le3(src, 3);
        let u = le3(src, 6);
        if c == 0 || u > target || c > src.len() - 9 {
            Option::None
        } else {
            match block_inflation(src[0], src[1], src.subrange(9, 9 + c), u) {
                Some(v) => match payload_inflation(src.skip(9 + c), target - u) {
                    Some(rest) => Some(v + rest),
                    Option::None => Option::None,
                },
                Option::None => Option::None,
            }
        }
    }
}

/// Whether the first fault met while walking the blocks is an LZ4 checksum
/// mismatch.
pub open spec fn payload_checksum_fault(src: Seq<u8>, target: int) -> bool
    decreases src.len(),
{
    if target <= 0 {
        false
    } else if src.len() < 9 {
        false
    } else {
        let c = le3(src, 3);
        let u = le3(src, 6);
        if c == 0 || u > target || c > src.len() - 9 {
            false
        } else if l4_bad_checksum(src[0], src[1], src.subrange(9, 9 + c)) {
            true
        } else {
            match block_inflation(src[0], src[1], src.subrange(9, 9 + c), u) {
                Some(_) => payload_checksum_fault(src.skip(9 + c), target - u),
                Option::None => false,
            }
        }
    }
}

/// Inflates a whole compressed payload, block by block, until exactly
/// `target` bytes are produced: exactly the payload's inflation, which
/// exists if and only if this succeeds. A checksum fault is reported as
/// `ChecksumMismatch`; every other corruption is `Decompression` or
/// `Truncated`.
pub fn decompress_payload(src: &[u8], target: usize) -> (r: Result<Vec<u8>>)
    ensures
        r matches Ok(v) ==> payload_inflation(src@, target as int) == Some(v@) && v@.len()
            == target as int,
        r is Ok <==> payload_inflation(src@, target as int) is Some,
        r == Result::<Vec<u8>>::Err(Error::ChecksumMismatch) <==> payload_checksum_fault(
            src@,
            target as int,
        ),
{
    let mut out: Vec<u8> = Vec::new();
    let mut p: usize = 0;
    proof {
        assert(src@.skip(0) =~= src@);
        let w = payload_inflation(src@, target as int);
        if w is Some {
            assert(Seq::<u8>::empty() + w->Some_0 =~= w->Some_0);
        }
    }
    while out.len() < target
        invariant
            p <= src@.len(),
            out@.len() <= target,
            payload_inflation(src@, target as int) == (match payload_inflation(
                src@.skip(p as int),
                target - out@.len(),
            ) {
                Some(rest) => Some(out@ + rest),
                Option::None => Option::<Seq<u8>>::None,
            }),
            payload_checksum_fault(src@, target as int) == payload_checksum_fault(
                src@.skip(p as int),
                target - out@.len(),
            ),
        decreases src@.len() - p,
    {
        let ghost rem = target - out@.len();
        let ghost tail = src@.skip(p as int);
        if src.len() - p < 9 {
            return Err(Error::Truncated);
        }
        let a: u8 = *vstd::slice::slice_index_get(src, p);
        let b: u8 = *vstd::slice::slice_index_get(src, p + 1);
        let c0: u8 = *vstd::slice::slice_index_get(src, p + 3);
        let c1: u8 = *vstd::slice::slice_index_get(src, p + 4);
        let c2: u8 = *vstd::slice::slice_index_get(src, p + 5);
        let u0: u8 = *vstd::slice::slice_index_get(src, p + 6);
        let u1: u8 = *vstd::slice::slice_index_get(src, p + 7);
        let u2: u8 = *vstd::slice::slice_index_get(src, p + 8);
        let c: usize = c0 as usize + 0x100 * c1 as usize + 0x1_0000 * c2 as usize;
        let u: usize = u0 as usize + 0x100 * u1 as usize + 0x1_0000 * u2 as usize;
        proof {
            assert(tail.len() == src@.len() - p);
            assert(tail[0] == src@[p as int] && tail[1] == src@[p as int + 1]);
            assert(c as int == le3(tail, 3) && u as int == le3(tail, 6));
        }
        if c == 0 {
            return Err(Error::Decompression(String::from_str("??"), String::from_str("empty block")));
        }
        if u > target - out.len() {
            return Err(Error::Decompression(String::from_str("??"), String::from_str("block overruns the declared total")));
        }
        if c > src.len() - p - 9 {
            return Err(Error::Truncated);
        }
        let body: &[u8] = vstd::slice::slice_subrange(src, p + 9, p + 9 + c);
        proof {
            assert(body@ =~= tail.subrange(9, 9 + c));
        }
        let mut block: Vec<u8> = match decompress_block(a, b, body, u) {
            Ok(v) => v,
            Err(e) => {
                return Err(e);
            },
        };
        let ghost pre = out@;
        out.append(&mut block);
        p = p + 9 + c;
        proof {
            assert(src@.skip(p as int) =~= tail.skip(9 + c));
        }
    }
    proof {
        assert(payload_inflation(src@.skip(p as int), 0) == Some(Seq::<u8>::empty()));
        assert(out@ + Seq::<u8>::empty() =~= out@);
    }
    Ok(out)
}

} // verus!
