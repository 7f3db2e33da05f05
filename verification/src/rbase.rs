//! The base-object layer shared by every persisted class: the id/bits pair
//! at the root of the class hierarchy, the name/title pair, and the
//! attribute records that are framed but carry nothing this reader uses.

use vstd::prelude::*;
use vstd::string::StringSliceAdditionalSpecFns;

use crate::error::{Error, Result};
use crate::rbuffer::{
    be2, be4, hdr_count, hdr_has_count, str_end, str_prefix_len, utf8_lossy, RBuffer,
};

verus! {

/// Bit marking an object as heap-allocated.
pub const K_IS_ON_HEAP: u32 = 0x0100_0000;

/// Bit marking an object as referenced through the buffer's tag table; such
/// an object carries a 16-bit process id after its bits.
pub const K_IS_REFERENCED: u32 = 0x10;

/// The id/bits pair every persisted object starts with.
#[derive(Debug)]
pub struct Object {
    pub id: u32,
    pub bits: u32,
}

impl Object {
    /// True when any of the given bits is set.
    pub fn test_bits(&self, bits: u32) -> (r: bool)
        ensures
            r == (self.bits & bits != 0),
    {
        self.bits & bits != 0
    }

    /// Decodes the version word, id and bits; a referenced object carries
    /// two extra bytes. Freshly read objects are always marked on-heap.
    pub fn unmarshal(r: &mut RBuffer) -> (res: Result<Object>)
        requires
            old(r).wf(),
        ensures
            final(r).same_frame(old(r)),
            final(r).wf(),
            final(r).spos() >= old(r).spos(),
            res matches Ok(o) ==> o.bits & K_IS_ON_HEAP != 0,
            res matches Ok(o) ==> ({
                let s = old(r).sdata();
                let p = old(r).spos();
                let w = if be2(s, p) % 0x8000 >= 0x4000 {
                    6int
                } else {
                    2int
                };
                &&& o.id as int == be4(s, p + w)
                &&& o.bits == ((be4(s, p + w + 4) as u32) | K_IS_ON_HEAP)
                &&& final(r).spos() == p + w + 8 + (if (be4(s, p + w + 4) as u32) & 0x10 != 0 {
                    2int
                } else {
                    0int
                })
            }),
            res is Ok <==> ({
                let s = old(r).sdata();
                let p = old(r).spos();
                let w = if be2(s, p) % 0x8000 >= 0x4000 {
                    6int
                } else {
                    2int
                };
                p + w + 8 + (if (be4(s, p + w + 4) as u32) & 0x10 != 0 {
                    2int
                } else {
                    0int
                }) <= s.len()
            }),
    {
        match r.skip_version() {
            Ok(_) => (),
            Err(e) => {
                return Err(e);
            },
        }
        let id: u32 = match r.read_u32() {
            Ok(v) => v,
            Err(e) => {
                return Err(e);
            },
        };
        let raw_bits: u32 = match r.read_u32() {
            Ok(v) => v,
            Err(e) => {
                return Err(e);
            },
        };
        let bits: u32 = raw_bits | K_IS_ON_HEAP;
        let obj = Object { id, bits };
        proof {
            assert(bits & K_IS_REFERENCED == raw_bits & K_IS_REFERENCED) by (bit_vector)
                requires
                    bits == raw_bits | 0x0100_0000u32,
            ;
        }
        if obj.test_bits(K_IS_REFERENCED) {
            match r.read_u16() {
                Ok(_) => (),
                Err(e) => {
                    return Err(e);
                },
            }
        }
        proof {
            assert(bits & 0x0100_0000u32 != 0) by (bit_vector)
                requires
                    bits == raw_bits | 0x0100_0000u32,
            ;
        }
        Ok(obj)
    }
}

impl Default for Object {
    fn default() -> (r: Self)
        ensures
            r.id == 0,
            r.bits == 0x0300_0000u32,
    {
        Object { id: 0, bits: 0x0300_0000 }
    }
}

/// A name/title pair, the identity of every named persisted object.
#[derive(Debug)]
pub struct Named {
    pub name: String,
    pub title: String,
}

/// Offset of the name string inside a framed name/title record at `p`: past
/// the frame words and the base object, whose width follows its version
/// word and referenced bit.
pub open spec fn named_name_at(s: Seq<u8>, p: int) -> int {
    let q = p + 6;
    let w = if be2(s, q) % 0x8000 >= 0x4000 {
        6int
    } else {
        2int
    };
    q + w + 8 + (if (be4(s, q + w + 4) as u32) & 0x10 != 0 {
        2int
    } else {
        0int
    })
}

impl Named {
    pub fn new(name: String, title: String) -> (r: Named)
        ensures
            r.name@ == name@,
            r.title@ == title@,
    {
        Named { name, title }
    }

    /// Decodes a framed name/title record: base object, then the two
    /// length-prefixed strings, then any trailing bytes of newer versions.
    /// Succeeds exactly when the record lies inside its frame and buffer.
    pub fn unmarshal(r: &mut RBuffer) -> (res: Result<Named>)
        requires
            old(r).wf(),
        ensures
            final(r).same_frame(old(r)),
            final(r).wf(),
            final(r).spos() >= old(r).spos(),
            res matches Ok(nm) ==> ({
                let s = old(r).sdata();
                let p = old(r).spos();
                let n0 = named_name_at(s, p);
                let n1 = str_end(s, n0);
                let n2 = str_end(s, n1);
                &&& nm.name@ == utf8_lossy(s.subrange(n0 + str_prefix_len(s, n0), n1))
                &&& nm.title@ == utf8_lossy(s.subrange(n1 + str_prefix_len(s, n1), n2))
                &&& (hdr_has_count(s, p) ==> final(r).spos() == p + hdr_count(s, p) + 4)
            }),
            ({
                let s = old(r).sdata();
                let p = old(r).spos();
                let n0 = named_name_at(s, p);
                let n1 = str_end(s, n0);
                let n2 = str_end(s, n1);
                (p + 6 <= s.len() && hdr_has_count(s, p) && old(r).sbase() + p + hdr_count(s, p)
                    + 4 <= u64::MAX) ==> (res is Ok <==> (n0 <= s.len() && n0 + 1 <= s.len() && n1
                    + 1 <= s.len() && n2 <= p + hdr_count(s, p) + 4 && p + hdr_count(s, p) + 4
                    <= s.len()))
            }),
    {
        let hdr = match r.read_header() {
            Ok(h) => h,
            Err(e) => {
                return Err(e);
            },
        };
        match Object::unmarshal(r) {
            Ok(_) => (),
            Err(e) => {
                return Err(e);
            },
        }
        let name: String = match r.read_string() {
            Ok(v) => v,
            Err(e) => {
                return Err(e);
            },
        };
        let title: String = match r.read_string() {
            Ok(v) => v,
            Err(e) => {
                return Err(e);
            },
        };
        match r.check_header(&hdr) {
            Ok(_) => (),
            Err(e) => {
                return Err(e);
            },
        }
        Ok(Named { name, title })
    }
}

impl Default for Named {
    fn default() -> (r: Self)
        ensures
            r.name@ == Seq::<char>::empty(),
            r.title@ == Seq::<char>::empty(),
    {
        Named { name: String::new(), title: String::new() }
    }
}

/// Byte-for-byte string comparison; equal bytes mean equal text because
/// UTF-8 encoding is invertible.
pub fn str_eq(a: &str, b: &str) -> (r: bool)
    ensures
        r == (a@ == b@),
{
    proof {
        broadcast use vstd::utf8::encode_utf8_decode_utf8;

    }
    let ab: &[u8] = a.as_bytes();
    let bb: &[u8] = b.as_bytes();
    if ab.len() != bb.len() {
        return false;
    }
    let n: usize = ab.len();
    let mut i: usize = 0;
    while i < n
        invariant
            n == ab@.len() == bb@.len(),
            i <= n,
            ab@ == a.spec_bytes(),
            bb@ == b.spec_bytes(),
            forall|k: int| 0 <= k < i ==> ab@[k] == bb@[k],
        decreases n - i,
    {
        if ab[i] != bb[i] {
            return false;
        }
        i = i + 1;
    }
    proof {
        assert(a.spec_bytes() =~= b.spec_bytes());
        assert(vstd::utf8::decode_utf8(vstd::utf8::encode_utf8(a@)) == a@);
        assert(vstd::utf8::decode_utf8(vstd::utf8::encode_utf8(b@)) == b@);
    }
    true
}

/// Consumes one framed object whose payload this reader does not use (the
/// line, fill and marker attribute records).
pub fn skip_object_frame(r: &mut RBuffer) -> (res: Result<()>)
    requires
        old(r).wf(),
    ensures
        final(r).same_frame(old(r)),
        final(r).wf(),
        final(r).spos() >= old(r).spos(),
{
    let hdr = match r.read_header() {
        Ok(h) => h,
        Err(e) => {
            return Err(e);
        },
    };
    match r.check_header(&hdr) {
        Ok(_) => (),
        Err(e) => {
            return Err(e);
        },
    }
    Ok(())
}

} // verus!
