//! The directory entry locating a named object within a file. A key's
//! payload starts at `seek_key + key_len`; `obj_bytes` is its uncompressed
//! size and `total_bytes` the span of key plus stored payload.

use vstd::prelude::*;

use crate::error::{Error, Result};
use crate::rbuffer::{
    be4, sbe2, sbe4, sbe8, str_end, str_prefix_len, utf8_lossy, RBuffer,
};

verus! {

#[derive(Debug)]
pub struct Key {
    pub total_bytes: i32,
    pub version: i16,
    pub obj_bytes: i32,
    pub datetime: u32,
    pub key_len: i16,
    pub cycle: i16,
    pub seek_key: i64,
    pub seek_pdir: i64,
    pub class_name: String,
    pub obj_name: String,
    pub title: String,
}

/// The width the two seek fields of the key at `p` occupy together.
pub open spec fn key_seek_width(s: Seq<u8>, p: int) -> int {
    if sbe2(s, p + 4) > 1000 {
        16
    } else {
        8
    }
}

/// Offset just past the key record at `p`: the fixed fields, then the three
/// length-prefixed strings back to back.
pub open spec fn key_record_end(s: Seq<u8>, p: int) -> int {
    str_end(s, str_end(s, str_end(s, p + 18 + key_seek_width(s, p))))
}

/// Whether a whole key record lies inside the bytes at `p`: the fixed
/// fields, then the three length-prefixed strings back to back.
pub open spec fn key_record_fits(s: Seq<u8>, p: int) -> bool {
    let q0 = p + 18 + key_seek_width(s, p);
    let e0 = str_end(s, q0);
    let e1 = str_end(s, e0);
    let e2 = str_end(s, e1);
    &&& p >= 0
    &&& q0 + 1 <= s.len()
    &&& e0 + 1 <= s.len()
    &&& e1 + 1 <= s.len()
    &&& e2 <= s.len()
}

impl Key {
    /// Decodes a key record. The two seek fields are 64-bit when the key
    /// version is above 1000 and 32-bit otherwise. Succeeds exactly when
    /// the whole record lies in the buffer.
    pub fn unmarshal(r: &mut RBuffer) -> (res: Result<Key>)
        requires
            old(r).wf(),
        ensures
            final(r).same_frame(old(r)),
            final(r).wf(),
            final(r).spos() >= old(r).spos(),
            res is Ok <==> key_record_fits(old(r).sdata(), old(r).spos()),
            res matches Ok(k) ==> {
                let s = old(r).sdata();
                let p = old(r).spos();
                let q0 = p + 18 + key_seek_width(s, p);
                let e0 = str_end(s, q0);
                let e1 = str_end(s, e0);
                let e2 = str_end(s, e1);
                &&& k.total_bytes as int == sbe4(s, p)
                &&& k.version as int == sbe2(s, p + 4)
                &&& k.obj_bytes as int == sbe4(s, p + 6)
                &&& k.datetime as int == be4(s, p + 10)
                &&& k.key_len as int == sbe2(s, p + 14)
                &&& k.cycle as int == sbe2(s, p + 16)
                &&& (sbe2(s, p + 4) > 1000 ==> k.seek_key as int == sbe8(s, p + 18)
                    && k.seek_pdir as int == sbe8(s, p + 26))
                &&& (sbe2(s, p + 4) <= 1000 ==> k.seek_key as int == sbe4(s, p + 18)
                    && k.seek_pdir as int == sbe4(s, p + 22))
                &&& k.class_name@ == utf8_lossy(s.subrange(q0 + str_prefix_len(s, q0), e0))
                &&& k.obj_name@ == utf8_lossy(s.subrange(e0 + str_prefix_len(s, e0), e1))
                &&& k.title@ == utf8_lossy(s.subrange(e1 + str_prefix_len(s, e1), e2))
                &&& final(r).spos() == e2
            },
    {
        let total_bytes: i32 = match r.read_i32() {
            Ok(v) => v,
            Err(e) => {
                return Err(e);
            },
        };
        let version: i16 = match r.read_i16() {
            Ok(v) => v,
            Err(e) => {
                return Err(e);
            },
        };
        let obj_bytes: i32 = match r.read_i32() {
            Ok(v) => v,
            Err(e) => {
                return Err(e);
            },
        };
        let datetime: u32 = match r.read_u32() {
            Ok(v) => v,
            Err(e) => {
                return Err(e);
            },
        };
        let key_len: i16 = match r.read_i16() {
            Ok(v) => v,
            Err(e) => {
                return Err(e);
            },
        };
        let cycle: i16 = match r.read_i16() {
            Ok(v) => v,
            Err(e) => {
                return Err(e);
            },
        };
        let seek_key: i64;
        let seek_pdir: i64;
        if version > 1000 {
            seek_key = match r.read_i64() {
                Ok(v) => v,
                Err(e) => {
                    return Err(e);
                },
            };
            seek_pdir = match r.read_i64() {
                Ok(v) => v,
                Err(e) => {
                    return Err(e);
                },
            };
        } else {
            seek_key = match r.read_i32() {
                Ok(v) => v as i64,
                Err(e) => {
                    return Err(e);
                },
            };
            seek_pdir = match r.read_i32() {
                Ok(v) => v as i64,
                Err(e) => {
                    return Err(e);
                },
            };
        }
        let class_name: String = match r.read_string() {
            Ok(v) => v,
            Err(e) => {
                return Err(e);
            },
        };
        let obj_name: String = match r.read_string() {
            Ok(v) => v,
            Err(e) => {
                return Err(e);
            },
        };
        let title: String = match r.read_string() {
            Ok(v) => v,
            Err(e) => {
                return Err(e);
            },
        };
        Ok(
            Key {
                total_bytes,
                version,
                obj_bytes,
                datetime,
                key_len,
                cycle,
                seek_key,
                seek_pdir,
                class_name,
                obj_name,
                title,
            },
        )
    }
}

} // verus!
