//! One compressed chunk of a column's values: the unit of random access. A
//! basket record is its framing header, its key, the entry bookkeeping, an
//! optional per-entry byte-offset table, and the trailing payload, which may
//! be compressed as a whole.

use vstd::prelude::*;

use crate::error::{Error, Result};
use crate::rcompress::{decompress_payload, has_block_magic, is_compressed};
use crate::rbuffer::{hdr_count, hdr_has_count, hdr_vers, sbe4, RBuffer};
use crate::rkey::{key_record_end, key_record_fits, Key};
use crate::rvers;

verus! {

/// A decoded basket payload. Fixed-stride payloads carry their entry count;
/// variable-stride payloads also carry the byte-offset table that delimits
/// each record.
#[derive(Debug)]
pub enum BasketData {
    TrustNEntries(i32, Vec<u8>),
    UnTrustNEntries(i32, Vec<u8>, Vec<i32>),
}

#[derive(Debug)]
pub struct Basket {
    pub key: Key,
    /// Number of entries stored in this basket.
    pub nev_buf: i32,
    /// Offset just past the stored data, from the start of the key.
    pub last: i32,
    pub header8: i8,
    pub iobits: u8,
    pub byte_offsets: Option<Vec<i32>>,
    /// The trailing payload as stored, possibly compressed.
    pub buffer: Vec<u8>,
}

impl Basket {
    /// Decodes a basket record. The owning branch decides whether an IO-bits
    /// byte is present and whether a byte-offset table was written; the
    /// trailing payload runs to the end of the record's frame.
    pub fn unmarshal(r: &mut RBuffer, has_iobits: bool, has_offsets: bool) -> (res: Result<Basket>)
        requires
            old(r).wf(),
        ensures
            final(r).same_frame(old(r)),
            final(r).wf(),
            final(r).spos() >= old(r).spos(),
            res matches Ok(b) ==> (b.byte_offsets matches Some(t) ==> t@.len() == b.nev_buf + 1
                && b.nev_buf > 0),
            res matches Ok(b) ==> (b.byte_offsets is Some <==> (has_offsets && b.nev_buf > 0)),
            res matches Ok(b) ==> ({
                let s = old(r).sdata();
                let p = old(r).spos();
                let e2 = key_record_end(s, p + 6);
                let ofs0 = e2 + 9 + (if has_iobits {
                    1int
                } else {
                    0int
                });
                let q2 = ofs0 + (if b.byte_offsets is Some {
                    4 * (b.nev_buf + 1)
                } else {
                    0int
                });
                &&& b.nev_buf as int == sbe4(s, e2)
                &&& b.last as int == sbe4(s, e2 + 4)
                &&& (b.byte_offsets matches Some(t) ==> forall|k: int|
                    0 <= k < t@.len() ==> #[trigger] t@[k] as int == sbe4(s, ofs0 + 4 * k))
                &&& (hdr_has_count(s, p) ==> b.buffer@ == s.subrange(q2, p + hdr_count(s, p) + 4))
            }),
            res is Ok && hdr_has_count(old(r).sdata(), old(r).spos()) ==> final(r).spos() == old(
                r,
            ).spos() + hdr_count(old(r).sdata(), old(r).spos()) + 4,
            ({
                let s = old(r).sdata();
                let p = old(r).spos();
                (p + 6 <= s.len() && hdr_has_count(s, p) && old(r).sbase() + p + hdr_count(s, p)
                    + 4 <= u64::MAX && hdr_vers(s, p + 4) > rvers::BASKET as int) ==> (res matches
                Err(e) && (e matches Error::UnsupportedVersion { class: c, vers: v, max: m } && c@
                    == "TBasket"@ && v as int == hdr_vers(s, p + 4) && m == rvers::BASKET))
            }),
            ({
                let s = old(r).sdata();
                let p = old(r).spos();
                let e2 = key_record_end(s, p + 6);
                let nev = sbe4(s, e2);
                let ofs0 = e2 + 9 + (if has_iobits {
                    1int
                } else {
                    0int
                });
                let q2 = ofs0 + (if has_offsets && nev > 0 {
                    4 * (nev + 1)
                } else {
                    0int
                });
                (p + 6 <= s.len() && hdr_has_count(s, p) && old(r).sbase() + p + hdr_count(s, p)
                    + 4 <= u64::MAX) ==> (res is Ok <==> (hdr_vers(s, p + 4)
                    <= rvers::BASKET as int && key_record_fits(s, p + 6) && ofs0 <= s.len() && (
                has_offsets && nev > 0 ==> nev <= 0x3FFF_FFFE && ofs0 + 4 * (nev + 1) <= s.len())
                    && q2 <= p + hdr_count(s, p) + 4 && p + hdr_count(s, p) + 4 <= s.len()))
            }),
    {
        let hdr = match r.read_header() {
            Ok(h) => h,
            Err(e) => {
                return Err(e);
            },
        };
        match crate::rbuffer::ensure_maximum_supported_version(hdr.vers, rvers::BASKET, "TBasket") {
            Ok(_) => (),
            Err(e) => {
                return Err(e);
            },
        }
        let key = match Key::unmarshal(r) {
            Ok(v) => v,
            Err(e) => {
                return Err(e);
            },
        };
        let nev_buf: i32 = match r.read_i32() {
            Ok(v) => v,
            Err(e) => {
                return Err(e);
            },
        };
        let last: i32 = match r.read_i32() {
            Ok(v) => v,
            Err(e) => {
                return Err(e);
            },
        };
        let header8: i8 = match r.read_i8() {
            Ok(v) => v,
            Err(e) => {
                return Err(e);
            },
        };
        let iobits: u8 = if has_iobits {
            match r.read_u8() {
                Ok(v) => v,
                Err(e) => {
                    return Err(e);
                },
            }
        } else {
            0
        };
        let byte_offsets: Option<Vec<i32>> = if has_offsets && nev_buf > 0 {
            if nev_buf as u32 > 0x3FFF_FFFE {
                return Err(Error::MalformedBranch);
            }
            let count: usize = nev_buf as usize + 1;
            match r.read_array_i32(count) {
                Ok(v) => Some(v),
                Err(e) => {
                    return Err(e);
                },
            }
        } else {
            None
        };
        // The payload runs to the end of the frame, or of the buffer for a
        // frame read by reference.
        let payload_len: usize = if hdr.has_count {
            let d: u64 = match u64_sub(hdr.end, r) {
                Ok(v) => v,
                Err(e) => {
                    return Err(e);
                },
            };
            if d > r.remaining() as u64 {
                return Err(Error::Truncated);
            }
            d as usize
        } else {
            r.remaining()
        };
        let buffer: Vec<u8> = match r.read_bytes(payload_len) {
            Ok(v) => v,
            Err(e) => {
                return Err(e);
            },
        };
        match r.check_header(&hdr) {
            Ok(_) => (),
            Err(e) => {
                return Err(e);
            },
        }
        Ok(Basket { key, nev_buf, last, header8, iobits, byte_offsets, buffer })
    }

    /// The byte span one record of this basket occupies: the stated data end
    /// minus the key's length.
    pub fn entry_size(&self) -> (r: i64)
        ensures
            r == self.last as int - self.key.key_len as int,
    {
        self.last as i64 - self.key.key_len as i64
    }

    /// What this basket's payload decodes to: the stored bytes as they are,
    /// or, when the block-header magic announces compression, their
    /// inflation to the object size stated by the key.
    pub open spec fn payload_bytes(&self) -> Option<Seq<u8>> {
        let want = self.key.obj_bytes as int - self.key.key_len as int;
        if !has_block_magic(self.buffer@) {
            Some(self.buffer@)
        } else if want < 0 {
            Option::None
        } else {
            crate::rcompress::payload_inflation(self.buffer@, want)
        }
    }

    /// The basket's payload, inflated when the block-header magic announces
    /// compression, split into the fixed-stride or variable-stride shape
    /// according to whether an offset table was stored. Succeeds exactly
    /// when the payload decodes; a checksum fault in a compressed payload is
    /// `ChecksumMismatch`.
    pub fn raw_data(&self) -> (r: Result<BasketData>)
        ensures
            r is Ok <==> self.payload_bytes() is Some,
            r matches Ok(d) ==> match d {
                BasketData::TrustNEntries(n, v) => n == self.nev_buf && self.byte_offsets is None
                    && Some(v@) == self.payload_bytes(),
                BasketData::UnTrustNEntries(n, v, t) => n == self.nev_buf && (self.byte_offsets
                    matches Some(bo) && t@ == bo@) && Some(v@) == self.payload_bytes(),
            },
            r == Result::<BasketData>::Err(Error::ChecksumMismatch) <==> (has_block_magic(
                self.buffer@,
            ) && self.key.obj_bytes as int - self.key.key_len as int >= 0
                && crate::rcompress::payload_checksum_fault(
                self.buffer@,
                self.key.obj_bytes as int - self.key.key_len as int,
            )),
    {
        let payload: Vec<u8> = if is_compressed(self.buffer.as_slice()) {
            let want_i64: i64 = self.key.obj_bytes as i64 - self.key.key_len as i64;
            if want_i64 < 0 {
                return Err(Error::MalformedBranch);
            }
            // The object size is a 32-bit field, so the target fits a usize.
            proof {
                assert(want_i64 <= 0x8000_7fffi64);
            }
            let want: usize = want_i64 as usize;
            match decompress_payload(self.buffer.as_slice(), want) {
                Ok(v) => v,
                Err(e) => {
                    return Err(e);
                },
            }
        } else {
            self.buffer.clone()
        };
        match &self.byte_offsets {
            None => Ok(BasketData::TrustNEntries(self.nev_buf, payload)),
            Some(t) => Ok(BasketData::UnTrustNEntries(self.nev_buf, payload, t.clone())),
        }
    }
}

/// The distance from the buffer's current absolute position to `target`.
fn u64_sub(target: u64, r: &RBuffer) -> (res: Result<u64>)
    requires
        r.wf(),
    ensures
        res matches Ok(v) ==> v as int == target - (r.sbase() + r.spos()),
        res is Ok <==> target >= r.sbase() + r.spos(),
        res is Err ==> res == Result::<u64>::Err(Error::Truncated),
{
    let here: u64 = {
        let b: u64 = r_base(r);
        b + r.pos() as u64
    };
    if target >= here {
        Ok(target - here)
    } else {
        Err(Error::Truncated)
    }
}

/// The buffer's base offset, as a value.
fn r_base(r: &RBuffer) -> (b: u64)
    requires
        r.wf(),
    ensures
        b as int == r.sbase(),
{
    r.base_offset()
}

} // verus!
