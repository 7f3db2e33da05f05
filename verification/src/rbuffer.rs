//! Endianness-correct primitive reads over a byte slice, the versioned
//! object-header protocol that frames every persisted object, and the
//! per-buffer object tag table that resolves references to earlier objects.
//!
//! All multi-byte integers on disk are big-endian two's complement. Every
//! read fails with [`Error::Truncated`] when too few bytes remain, and a
//! failed read leaves the cursor where it was.

use vstd::prelude::*;

use crate::error::{Error, Result};

verus! {

/// Big-endian value of the two bytes of `s` starting at `i`.
pub open spec fn be2(s: Seq<u8>, i: int) -> int {
    0x100 * (s[i] as int) + (s[i + 1] as int)
}

/// Big-endian value of the four bytes of `s` starting at `i`.
pub open spec fn be4(s: Seq<u8>, i: int) -> int {
    0x100_0000 * (s[i] as int) + 0x1_0000 * (s[i + 1] as int) + 0x100 * (s[i + 2] as int) + (s[i
        + 3] as int)
}

/// Big-endian value of the eight bytes of `s` starting at `i`.
pub open spec fn be8(s: Seq<u8>, i: int) -> int {
    0x100_0000_0000_0000 * (s[i] as int) + 0x1_0000_0000_0000 * (s[i + 1] as int)
        + 0x100_0000_0000 * (s[i + 2] as int) + 0x1_0000_0000 * (s[i + 3] as int) + 0x100_0000 * (
    s[i + 4] as int) + 0x1_0000 * (s[i + 5] as int) + 0x100 * (s[i + 6] as int) + (s[i + 7] as int)
}

/// Two's-complement reading of the 16-bit big-endian value at `i`.
pub open spec fn sbe2(s: Seq<u8>, i: int) -> int {
    if be2(s, i) >= 0x8000 {
        be2(s, i) - 0x1_0000
    } else {
        be2(s, i)
    }
}

/// Two's-complement reading of the 32-bit big-endian value at `i`.
pub open spec fn sbe4(s: Seq<u8>, i: int) -> int {
    if be4(s, i) >= 0x8000_0000 {
        be4(s, i) - 0x1_0000_0000
    } else {
        be4(s, i)
    }
}

/// Two's-complement reading of the 64-bit big-endian value at `i`.
pub open spec fn sbe8(s: Seq<u8>, i: int) -> int {
    if be8(s, i) >= 0x8000_0000_0000_0000 {
        be8(s, i) - 0x1_0000_0000_0000_0000
    } else {
        be8(s, i)
    }
}

/// What `String::from_utf8_lossy` turns a byte sequence into.
pub uninterp spec fn utf8_lossy(bytes: Seq<u8>) -> Seq<char>;

/// Relies on `String::from_utf8_lossy`: the result is a function of the bytes
/// alone, and valid UTF-8 input comes back unchanged.
#[verifier::external_body]
pub(crate) fn lossy_string(bytes: &[u8]) -> (r: String)
    ensures
        r@ == utf8_lossy(bytes@),
        vstd::utf8::valid_utf8(bytes@) ==> r@ == vstd::utf8::decode_utf8(bytes@),
{
    String::from_utf8_lossy(bytes).into_owned()
}

/// Number of bytes the length prefix of the string at `i` occupies: one
/// count byte, or five when the count byte is 255 and a 32-bit length
/// follows.
pub open spec fn str_prefix_len(s: Seq<u8>, i: int) -> int {
    if s[i] == 255 {
        5
    } else {
        1
    }
}

/// Offset just past the length-prefixed string at `i`.
pub open spec fn str_end(s: Seq<u8>, i: int) -> int {
    i + str_prefix_len(s, i) + str_payload_len(s, i)
}

/// Number of payload bytes of the length-prefixed string at `i`.
pub open spec fn str_payload_len(s: Seq<u8>, i: int) -> int {
    if s[i] == 255 {
        be4(s, i + 1)
    } else {
        s[i] as int
    }
}

/// The decoded frame of a versioned object header: `byte_count` excludes its
/// own four bytes, so the object's payload runs to `end == start + byte_count
/// + 4` (absolute positions). A header read by reference to an earlier
/// object carries no byte count of its own.
pub struct ObjectHeader {
    pub vers: i16,
    pub byte_count: u32,
    pub start: u64,
    pub end: u64,
    pub has_count: bool,
}

/// High bit of the leading 32-bit word: set when the word carries a byte
/// count rather than a reference.
pub const K_BYTE_COUNT_MASK: u32 = 0x4000_0000;

/// Tag value announcing a class name spelled out in place.
pub const K_NEW_CLASS_TAG: u32 = 0xFFFF_FFFF;

/// High bit of an object tag: set when the tag refers to a class, clear when
/// it refers to an already-decoded object.
pub const K_CLASS_MASK: u32 = 0x8000_0000;

/// Displacement added to a tag's buffer offset when it is recorded in the
/// tag table.
pub const K_MAP_OFFSET: u64 = 2;

/// A buffer cursor over one contiguous byte image. `base` is the absolute
/// file offset of byte 0, so `base + pos` is the absolute position used as
/// an object-reference key.
pub struct RBuffer {
    data: Vec<u8>,
    pos: usize,
    base: u64,
    class_tags: Vec<(u64, String)>,
    obj_offsets: Vec<u64>,
}

impl RBuffer {
    /// The bytes this buffer reads from.
    pub closed spec fn sdata(&self) -> Seq<u8> {
        self.data@
    }

    /// The cursor, as an offset into the bytes.
    pub closed spec fn spos(&self) -> int {
        self.pos as int
    }

    /// The absolute file offset of byte 0.
    pub closed spec fn sbase(&self) -> int {
        self.base as int
    }

    pub open spec fn wf(&self) -> bool {
        0 <= self.spos() <= self.sdata().len() && self.sbase() + self.sdata().len() <= u64::MAX
    }

    /// Everything a successful or failed read leaves untouched.
    pub open spec fn same_frame(&self, other: &Self) -> bool {
        self.sdata() == other.sdata() && self.sbase() == other.sbase()
    }

    pub fn new(data: Vec<u8>, base: u64) -> (r: RBuffer)
        requires
            base + data@.len() <= u64::MAX,
        ensures
            r.wf(),
            r.sdata() == data@,
            r.spos() == 0,
            r.sbase() == base as int,
    {
        RBuffer { data, pos: 0, base, class_tags: Vec::new(), obj_offsets: Vec::new() }
    }

    pub fn pos(&self) -> (r: usize)
        ensures
            r as int == self.spos(),
    {
        self.pos
    }

    /// The absolute file offset of byte 0, as a value.
    pub fn base_offset(&self) -> (r: u64)
        ensures
            r as int == self.sbase(),
    {
        self.base
    }

    pub fn len(&self) -> (r: usize)
        ensures
            r as int == self.sdata().len(),
    {
        self.data.len()
    }

    /// Bytes left between the cursor and the end of the buffer.
    pub fn remaining(&self) -> (r: usize)
        requires
            self.wf(),
        ensures
            r as int == self.sdata().len() - self.spos(),
    {
        self.data.len() - self.pos
    }

    /// Moves the cursor to `p`.
    pub fn set_pos(&mut self, p: usize) -> (r: Result<()>)
        requires
            old(self).wf(),
        ensures
            final(self).same_frame(old(self)),
            final(self).wf(),
            r is Ok <==> p as int <= old(self).sdata().len(),
            r is Ok ==> final(self).spos() == p as int,
            r is Err ==> r == Result::<()>::Err(Error::Truncated) && final(self).spos() == old(
                self,
            ).spos(),
    {
        if p <= self.data.len() {
            self.pos = p;
            Ok(())
        } else {
            Err(Error::Truncated)
        }
    }

    /// Advances the cursor over `n` bytes without decoding them.
    pub fn skip(&mut self, n: usize) -> (r: Result<()>)
        requires
            old(self).wf(),
        ensures
            final(self).same_frame(old(self)),
            final(self).wf(),
            r is Ok <==> old(self).spos() + n <= old(self).sdata().len(),
            r is Ok ==> final(self).spos() == old(self).spos() + n,
            r is Err ==> r == Result::<()>::Err(Error::Truncated) && final(self).spos() == old(
                self,
            ).spos(),
    {
        if n <= self.data.len() - self.pos {
            self.pos = self.pos + n;
            Ok(())
        } else {
            Err(Error::Truncated)
        }
    }

    pub fn read_u8(&mut self) -> (r: Result<u8>)
        requires
            old(self).wf(),
        ensures
            final(self).same_frame(old(self)),
            final(self).wf(),
            r is Ok <==> old(self).spos() + 1 <= old(self).sdata().len(),
            r matches Ok(v) ==> final(self).spos() == old(self).spos() + 1 && v == old(
                self,
            ).sdata()[old(self).spos()],
            r is Err ==> r == Result::<u8>::Err(Error::Truncated) && final(self).spos() == old(
                self,
            ).spos(),
    {
        if self.pos < self.data.len() {
            let b: u8 = self.data[self.pos];
            self.pos = self.pos + 1;
            Ok(b)
        } else {
            Err(Error::Truncated)
        }
    }

    pub fn read_i8(&mut self) -> (r: Result<i8>)
        requires
            old(self).wf(),
        ensures
            final(self).same_frame(old(self)),
            final(self).wf(),
            r is Ok <==> old(self).spos() + 1 <= old(self).sdata().len(),
            r matches Ok(v) ==> final(self).spos() == old(self).spos() + 1 && v as int == (if old(
                self,
            ).sdata()[old(self).spos()] >= 0x80 {
                old(self).sdata()[old(self).spos()] - 0x100
            } else {
                old(self).sdata()[old(self).spos()] as int
            }),
            r is Err ==> r == Result::<i8>::Err(Error::Truncated) && final(self).spos() == old(
                self,
            ).spos(),
    {
        if self.pos < self.data.len() {
            let b: u8 = self.data[self.pos];
            self.pos = self.pos + 1;
            let v: i8 = if b >= 0x80 {
                -((0xffu8 - b) as i8) - 1
            } else {
                b as i8
            };
            Ok(v)
        } else {
            Err(Error::Truncated)
        }
    }

    pub fn read_u16(&mut self) -> (r: Result<u16>)
        requires
            old(self).wf(),
        ensures
            final(self).same_frame(old(self)),
            final(self).wf(),
            r is Ok <==> old(self).spos() + 2 <= old(self).sdata().len(),
            r matches Ok(v) ==> final(self).spos() == old(self).spos() + 2 && v as int == be2(
                old(self).sdata(),
                old(self).spos(),
            ),
            r is Err ==> r == Result::<u16>::Err(Error::Truncated) && final(self).spos() == old(
                self,
            ).spos(),
    {
        if 2 <= self.data.len() - self.pos {
            let b0: u8 = self.data[self.pos];
            let b1: u8 = self.data[self.pos + 1];
            self.pos = self.pos + 2;
            Ok((b0 as u16) * 0x100 + (b1 as u16))
        } else {
            Err(Error::Truncated)
        }
    }

    pub fn read_i16(&mut self) -> (r: Result<i16>)
        requires
            old(self).wf(),
        ensures
            final(self).same_frame(old(self)),
            final(self).wf(),
            r is Ok <==> old(self).spos() + 2 <= old(self).sdata().len(),
            r matches Ok(v) ==> final(self).spos() == old(self).spos() + 2 && v as int == sbe2(
                old(self).sdata(),
                old(self).spos(),
            ),
            r is Err ==> r == Result::<i16>::Err(Error::Truncated) && final(self).spos() == old(
                self,
            ).spos(),
    {
        let u: u16 = self.read_u16()?;
        let v: i16 = if u >= 0x8000 {
            -((0xffffu16 - u) as i16) - 1
        } else {
            u as i16
        };
        Ok(v)
    }

    pub fn read_u32(&mut self) -> (r: Result<u32>)
        requires
            old(self).wf(),
        ensures
            final(self).same_frame(old(self)),
            final(self).wf(),
            r is Ok <==> old(self).spos() + 4 <= old(self).sdata().len(),
            r matches Ok(v) ==> final(self).spos() == old(self).spos() + 4 && v as int == be4(
                old(self).sdata(),
                old(self).spos(),
            ),
            r is Err ==> r == Result::<u32>::Err(Error::Truncated) && final(self).spos() == old(
                self,
            ).spos(),
    {
        if 4 <= self.data.len() - self.pos {
            let b0: u8 = self.data[self.pos];
            let b1: u8 = self.data[self.pos + 1];
            let b2: u8 = self.data[self.pos + 2];
            let b3: u8 = self.data[self.pos + 3];
            self.pos = self.pos + 4;
            Ok(
                (b0 as u32) * 0x100_0000 + (b1 as u32) * 0x1_0000 + (b2 as u32) * 0x100 + (
                b3 as u32),
            )
        } else {
            Err(Error::Truncated)
        }
    }

    pub fn read_i32(&mut self) -> (r: Result<i32>)
        requires
            old(self).wf(),
        ensures
            final(self).same_frame(old(self)),
            final(self).wf(),
            r is Ok <==> old(self).spos() + 4 <= old(self).sdata().len(),
            r matches Ok(v) ==> final(self).spos() == old(self).spos() + 4 && v as int == sbe4(
                old(self).sdata(),
                old(self).spos(),
            ),
            r is Err ==> r == Result::<i32>::Err(Error::Truncated) && final(self).spos() == old(
                self,
            ).spos(),
    {
        let u: u32 = self.read_u32()?;
        let v: i32 = if u >= 0x8000_0000 {
            -((0xffff_ffffu32 - u) as i32) - 1
        } else {
            u as i32
        };
        Ok(v)
    }

    pub fn read_u64(&mut self) -> (r: Result<u64>)
        requires
            old(self).wf(),
        ensures
            final(self).same_frame(old(self)),
            final(self).wf(),
            r is Ok <==> old(self).spos() + 8 <= old(self).sdata().len(),
            r matches Ok(v) ==> final(self).spos() == old(self).spos() + 8 && v as int == be8(
                old(self).sdata(),
                old(self).spos(),
            ),
            r is Err ==> r == Result::<u64>::Err(Error::Truncated) && final(self).spos() == old(
                self,
            ).spos(),
    {
        if 8 <= self.data.len() - self.pos {
            let b0: u8 = self.data[self.pos];
            let b1: u8 = self.data[self.pos + 1];
            let b2: u8 = self.data[self.pos + 2];
            let b3: u8 = self.data[self.pos + 3];
            let b4: u8 = self.data[self.pos + 4];
            let b5: u8 = self.data[self.pos + 5];
            let b6: u8 = self.data[self.pos + 6];
            let b7: u8 = self.data[self.pos + 7];
            self.pos = self.pos + 8;
            Ok(
                (b0 as u64) * 0x100_0000_0000_0000 + (b1 as u64) * 0x1_0000_0000_0000 + (
                b2 as u64) * 0x100_0000_0000 + (b3 as u64) * 0x1_0000_0000 + (b4 as u64)
                    * 0x100_0000 + (b5 as u64) * 0x1_0000 + (b6 as u64) * 0x100 + (b7 as u64),
            )
        } else {
            Err(Error::Truncated)
        }
    }

    pub fn read_i64(&mut self) -> (r: Result<i64>)
        requires
            old(self).wf(),
        ensures
            final(self).same_frame(old(self)),
            final(self).wf(),
            r is Ok <==> old(self).spos() + 8 <= old(self).sdata().len(),
            r matches Ok(v) ==> final(self).spos() == old(self).spos() + 8 && v as int == sbe8(
                old(self).sdata(),
                old(self).spos(),
            ),
            r is Err ==> r == Result::<i64>::Err(Error::Truncated) && final(self).spos() == old(
                self,
            ).spos(),
    {
        let u: u64 = self.read_u64()?;
        let v: i64 = if u >= 0x8000_0000_0000_0000 {
            -((0xffff_ffff_ffff_ffffu64 - u) as i64) - 1
        } else {
            u as i64
        };
        Ok(v)
    }

    /// Copies the next `n` bytes out of the buffer.
    pub fn read_bytes(&mut self, n: usize) -> (r: Result<Vec<u8>>)
        requires
            old(self).wf(),
        ensures
            final(self).same_frame(old(self)),
            final(self).wf(),
            r is Ok <==> old(self).spos() + n <= old(self).sdata().len(),
            r matches Ok(v) ==> final(self).spos() == old(self).spos() + n && v@ == old(
                self,
            ).sdata().subrange(old(self).spos(), old(self).spos() + n),
            r is Err ==> r == Result::<Vec<u8>>::Err(Error::Truncated) && final(self).spos()
                == old(self).spos(),
    {
        if n <= self.data.len() - self.pos {
            let mut out: Vec<u8> = Vec::new();
            let mut i: usize = 0;
            while i < n
                invariant
                    self == old(self),
                    self.wf(),
                    i <= n,
                    n <= self.sdata().len() - self.spos(),
                    out@ == self.sdata().subrange(self.spos(), self.spos() + i),
                decreases n - i,
            {
                let dlen: usize = self.data.len();
                assert(self.spos() + i < dlen as int);
                out.push(self.data[self.pos + i]);
                i = i + 1;
                proof {
                    assert(out@ =~= self.sdata().subrange(self.spos(), self.spos() + i));
                }
            }
            self.pos = self.pos + n;
            Ok(out)
        } else {
            Err(Error::Truncated)
        }
    }

    /// Reads `n` consecutive big-endian 32-bit values.
    pub fn read_array_i32(&mut self, n: usize) -> (r: Result<Vec<i32>>)
        requires
            old(self).wf(),
            n <= usize::MAX / 4,
        ensures
            final(self).same_frame(old(self)),
            final(self).wf(),
            r is Ok <==> old(self).spos() + 4 * n <= old(self).sdata().len(),
            r matches Ok(v) ==> final(self).spos() == old(self).spos() + 4 * n && v@.len() == n
                && (forall|k: int|
                0 <= k < n ==> #[trigger] v@[k] as int == sbe4(
                    old(self).sdata(),
                    old(self).spos() + 4 * k,
                )),
            r is Err ==> r == Result::<Vec<i32>>::Err(Error::Truncated) && final(self).spos()
                == old(self).spos(),
    {
        if 4 * n <= self.data.len() - self.pos {
            let ghost start: int = self.spos();
            let mut out: Vec<i32> = Vec::new();
            let mut i: usize = 0;
            while i < n
                invariant
                    self.same_frame(old(self)),
                    self.wf(),
                    i <= n,
                    self.spos() == start + 4 * i,
                    start + 4 * n <= self.sdata().len(),
                    out@.len() == i,
                    forall|k: int|
                        0 <= k < i ==> #[trigger] out@[k] as int == sbe4(self.sdata(), start + 4
                            * k),
                decreases n - i,
            {
                let v: i32 = match self.read_i32() {
                    Ok(v) => v,
                    Err(e) => {
                        return Err(e);
                    },
                };
                out.push(v);
                i = i + 1;
            }
            Ok(out)
        } else {
            Err(Error::Truncated)
        }
    }

    /// Reads `n` consecutive big-endian 64-bit values.
    pub fn read_array_i64(&mut self, n: usize) -> (r: Result<Vec<i64>>)
        requires
            old(self).wf(),
            n <= usize::MAX / 8,
        ensures
            final(self).same_frame(old(self)),
            final(self).wf(),
            r is Ok <==> old(self).spos() + 8 * n <= old(self).sdata().len(),
            r matches Ok(v) ==> final(self).spos() == old(self).spos() + 8 * n && v@.len() == n
                && (forall|k: int|
                0 <= k < n ==> #[trigger] v@[k] as int == sbe8(
                    old(self).sdata(),
                    old(self).spos() + 8 * k,
                )),
            r is Err ==> r == Result::<Vec<i64>>::Err(Error::Truncated) && final(self).spos()
                == old(self).spos(),
    {
        if 8 * n <= self.data.len() - self.pos {
            let ghost start: int = self.spos();
            let mut out: Vec<i64> = Vec::new();
            let mut i: usize = 0;
            while i < n
                invariant
                    self.same_frame(old(self)),
                    self.wf(),
                    i <= n,
                    self.spos() == start + 8 * i,
                    start + 8 * n <= self.sdata().len(),
                    out@.len() == i,
                    forall|k: int|
                        0 <= k < i ==> #[trigger] out@[k] as int == sbe8(self.sdata(), start + 8
                            * k),
                decreases n - i,
            {
                let v: i64 = match self.read_i64() {
                    Ok(v) => v,
                    Err(e) => {
                        return Err(e);
                    },
                };
                out.push(v);
                i = i + 1;
            }
            Ok(out)
        } else {
            Err(Error::Truncated)
        }
    }

    /// Reads a length-prefixed string: one count byte, with 255 announcing a
    /// 32-bit big-endian length instead. The payload bytes are decoded as
    /// UTF-8, replacing invalid sequences.
    pub fn read_string(&mut self) -> (r: Result<String>)
        requires
            old(self).wf(),
        ensures
            final(self).same_frame(old(self)),
            final(self).wf(),
            final(self).spos() >= old(self).spos(),
            r is Ok <==> ({
                let s = old(self).sdata();
                let i = old(self).spos();
                i + 1 <= s.len() && i + str_prefix_len(s, i) + str_payload_len(s, i) <= s.len()
            }),
            r matches Ok(v) ==> {
                let s = old(self).sdata();
                let i = old(self).spos();
                &&& final(self).spos() == i + str_prefix_len(s, i) + str_payload_len(s, i)
                &&& v@ == utf8_lossy(
                    s.subrange(i + str_prefix_len(s, i), i + str_prefix_len(s, i)
                        + str_payload_len(s, i)),
                )
            },
            r is Err ==> r == Result::<String>::Err(Error::Truncated),
    {
        let n0: u8 = self.read_u8()?;
        let n: usize = if n0 == 255 {
            let long: u32 = self.read_u32()?;
            long as usize
        } else {
            n0 as usize
        };
        let payload: Vec<u8> = self.read_bytes(n)?;
        Ok(lossy_string(payload.as_slice()))
    }

    /// Offset just before the terminating NUL of the C string at `i`, or the
    /// end of the bytes when no NUL follows.
    pub open spec fn cstr_end(s: Seq<u8>, i: int) -> int
        decreases s.len() - i,
    {
        if i < 0 || i >= s.len() {
            i
        } else if s[i] == 0 {
            i
        } else {
            Self::cstr_end(s, i + 1)
        }
    }

    /// Reads a NUL-terminated string, consuming the terminator.
    pub fn read_cstring(&mut self) -> (r: Result<String>)
        requires
            old(self).wf(),
        ensures
            final(self).same_frame(old(self)),
            final(self).wf(),
            final(self).spos() >= old(self).spos(),
            ({
                let s = old(self).sdata();
                let p = old(self).spos();
                let e = Self::cstr_end(s, p);
                &&& (r is Ok <==> e < s.len())
                &&& (r matches Ok(v) ==> final(self).spos() == e + 1 && v@ == utf8_lossy(
                    s.subrange(p, e),
                ))
                &&& (r is Err ==> r == Result::<String>::Err(Error::Truncated))
            }),
    {
        let ghost s = self.sdata();
        let ghost p0 = self.spos();
        let start: usize = self.pos;
        let mut i: usize = self.pos;
        loop
            invariant
                self.wf(),
                start as int == p0,
                p0 <= i as int <= s.len(),
                self.sdata() == s,
                self.spos() == p0,
                Self::cstr_end(s, p0) == Self::cstr_end(s, i as int),
            ensures
                p0 <= i as int && (i as int) < s.len(),
                s[i as int] == 0,
                Self::cstr_end(s, p0) == Self::cstr_end(s, i as int),
            decreases s.len() - i,
        {
            let dlen: usize = self.data.len();
            if i >= dlen {
                return Err(Error::Truncated);
            }
            if self.data[i] == 0 {
                break ;
            }
            proof {
                assert(Self::cstr_end(s, i as int) == Self::cstr_end(s, i as int + 1));
            }
            i = i + 1;
        }
        assert(Self::cstr_end(s, p0) == i as int);
        let payload: Vec<u8> = match self.read_bytes(i - start) {
            Ok(v) => v,
            Err(e) => {
                return Err(e);
            },
        };
        match self.skip(1) {
            Ok(_) => (),
            Err(e) => {
                return Err(e);
            },
        }
        Ok(lossy_string(payload.as_slice()))
    }

    /// The class names recorded so far, each keyed by the absolute offset
    /// its tag was seen at.
    pub closed spec fn stags(&self) -> Seq<(u64, String)> {
        self.class_tags@
    }

    /// The absolute start offsets of the object headers read so far.
    pub closed spec fn soffs(&self) -> Seq<u64> {
        self.obj_offsets@
    }

    fn find_class_tag(&self, off: u64) -> (r: Option<String>)
        ensures
            r matches Some(name) ==> exists|j: int|
                0 <= j < self.stags().len() && (#[trigger] self.stags()[j]).0 == off
                    && self.stags()[j].1@ == name@,
            r is None ==> forall|j: int|
                0 <= j < self.stags().len() ==> (#[trigger] self.stags()[j]).0 != off,
    {
        let mut j: usize = 0;
        while j < self.class_tags.len()
            invariant
                j <= self.stags().len(),
                forall|k: int| 0 <= k < j ==> (#[trigger] self.stags()[k]).0 != off,
            decreases self.stags().len() - j,
        {
            if self.class_tags[j].0 == off {
                let name: String = self.class_tags[j].1.clone();
                return Some(name);
            }
            j = j + 1;
        }
        None
    }

    fn knows_obj_offset(&self, off: u64) -> (r: bool)
        ensures
            r == self.soffs().contains(off),
    {
        let mut j: usize = 0;
        while j < self.obj_offsets.len()
            invariant
                j <= self.soffs().len(),
                forall|k: int| 0 <= k < j ==> self.soffs()[k] != off,
            decreases self.soffs().len() - j,
        {
            if self.obj_offsets[j] == off {
                assert(self.soffs().contains(off));
                return true;
            }
            j = j + 1;
        }
        assert(!self.soffs().contains(off));
        false
    }
}

/// True when the leading 32-bit word at `i` carries a byte count (its high
/// bit is set) rather than a reference to an earlier object.
pub open spec fn hdr_has_count(s: Seq<u8>, i: int) -> bool {
    be4(s, i) >= 0x8000_0000
}

/// The byte count carried by the header word at `i`: its low 31 bits.
pub open spec fn hdr_count(s: Seq<u8>, i: int) -> int {
    be4(s, i) - 0x8000_0000
}

/// The version carried by the 16-bit word at `i`: its low 15 bits.
pub open spec fn hdr_vers(s: Seq<u8>, i: int) -> int {
    if be2(s, i) >= 0x8000 {
        be2(s, i) - 0x8000
    } else {
        be2(s, i)
    }
}

impl RBuffer {
    /// Reads the byte-count + version prefix that frames every persisted
    /// object. A set high bit on the leading word announces the byte count
    /// of the rest of the object; a clear one makes the word a reference to
    /// an earlier object, resolved against the offsets recorded by previous
    /// header reads. The start of every successfully framed object is
    /// recorded for later references.
    pub fn read_header(&mut self) -> (r: Result<ObjectHeader>)
        requires
            old(self).wf(),
        ensures
            final(self).same_frame(old(self)),
            final(self).wf(),
            final(self).spos() >= old(self).spos(),
            ({
                let s = old(self).sdata();
                let p = old(self).spos();
                &&& (r matches Ok(h) ==> final(self).spos() == p + 6 && h.vers as int == hdr_vers(
                    s,
                    p + 4,
                ) && (hdr_has_count(s, p) ==> h.has_count && h.byte_count as int == hdr_count(s, p)
                    && h.start as int == old(self).sbase() + p && h.end as int == old(self).sbase()
                    + p + hdr_count(s, p) + 4) && (!hdr_has_count(s, p) ==> !h.has_count
                    && h.start as int == be4(s, p)))
                &&& (p + 6 <= s.len() && hdr_has_count(s, p) && old(self).sbase() + p + hdr_count(
                    s,
                    p,
                ) + 4 <= u64::MAX ==> r is Ok)
            }),
    {
        let ghost s = self.sdata();
        let ghost p = self.spos();
        let start_rel: usize = self.pos;
        let w: u32 = match self.read_u32() {
            Ok(v) => v,
            Err(e) => {
                return Err(e);
            },
        };
        let vraw: u16 = match self.read_u16() {
            Ok(v) => v,
            Err(e) => {
                return Err(e);
            },
        };
        let vers_u: u16 = if vraw >= 0x8000 {
            vraw - 0x8000
        } else {
            vraw
        };
        let vers: i16 = vers_u as i16;
        if w >= 0x8000_0000 {
            let bc: u32 = w - 0x8000_0000;
            let start: u64 = self.base + start_rel as u64;
            if bc as u64 + 4 > u64::MAX - start {
                return Err(Error::Truncated);
            }
            let end: u64 = start + bc as u64 + 4;
            self.obj_offsets.push(start);
            Ok(ObjectHeader { vers, byte_count: bc, start, end, has_count: true })
        } else {
            // A reference to an object framed earlier in this buffer.
            let target: u64 = w as u64;
            if self.knows_obj_offset(target) {
                let here: u64 = self.base + self.pos as u64;
                Ok(ObjectHeader { vers, byte_count: 0, start: target, end: here, has_count: false })
            } else {
                Err(Error::Truncated)
            }
        }
    }

    /// Enforces that the whole framed object was consumed, silently skipping
    /// trailing bytes written by newer class versions. Fails when the cursor
    /// overran the frame or the frame overruns the buffer.
    pub fn check_header(&mut self, hdr: &ObjectHeader) -> (r: Result<()>)
        requires
            old(self).wf(),
        ensures
            final(self).same_frame(old(self)),
            final(self).wf(),
            hdr.has_count ==> {
                let e = hdr.end as int - old(self).sbase();
                &&& (r is Ok <==> old(self).spos() <= e <= old(self).sdata().len())
                &&& (r is Ok ==> final(self).spos() == e)
                &&& (r is Err ==> r == Result::<()>::Err(Error::Truncated))
            },
            !hdr.has_count ==> r is Ok && *final(self) == *old(self),
            final(self).spos() >= old(self).spos(),
    {
        if !hdr.has_count {
            return Ok(());
        }
        if hdr.end < self.base {
            return Err(Error::Truncated);
        }
        let e64: u64 = hdr.end - self.base;
        let dlen: usize = self.data.len();
        if e64 > dlen as u64 {
            return Err(Error::Truncated);
        }
        let e: usize = e64 as usize;
        if self.pos > e {
            return Err(Error::Truncated);
        }
        self.pos = e;
        Ok(())
    }

    /// Skips a bare 16-bit version word, together with the 4 extra bytes
    /// present when the word carries the byte-count flag.
    pub fn skip_version(&mut self) -> (r: Result<()>)
        requires
            old(self).wf(),
        ensures
            final(self).same_frame(old(self)),
            final(self).wf(),
            final(self).spos() >= old(self).spos(),
            ({
                let s = old(self).sdata();
                let p = old(self).spos();
                let wide = be2(s, p) % 0x8000 >= 0x4000;
                &&& (r is Ok <==> p + (if wide {
                    6int
                } else {
                    2int
                }) <= s.len())
                &&& (r is Ok ==> final(self).spos() == p + (if wide {
                    6int
                } else {
                    2int
                }))
                &&& (r is Err ==> r == Result::<()>::Err(Error::Truncated))
            }),
    {
        let v: u16 = match self.read_u16() {
            Ok(v) => v,
            Err(e) => {
                return Err(e);
            },
        };
        if v % 0x8000 >= 0x4000 {
            match self.skip(4) {
                Ok(_) => (),
                Err(e) => {
                    return Err(e);
                },
            }
        }
        Ok(())
    }
}

pub open spec fn pow2(n: nat) -> nat
    decreases n,
{
    if n == 0 {
        1
    } else {
        2 * pow2((n - 1) as nat)
    }
}

pub proof fn pow2_monotone(a: nat, b: nat)
    requires
        a <= b,
    ensures
        pow2(a) <= pow2(b),
    decreases b,
{
    if a < b {
        pow2_monotone(a, (b - 1) as nat);
    }
}

/// What truncating a 64-bit float with the given bit pattern to a 64-bit
/// signed integer yields: the value is cut toward zero and saturates at the
/// integer range; anything below one in magnitude, including every
/// subnormal, and any not-a-number pattern give zero.
pub open spec fn f64_bits_trunc(bits: u64) -> int {
    let sign = bits / 0x8000_0000_0000_0000;
    let exp = (bits / 0x10_0000_0000_0000) % 0x800;
    let frac = bits % 0x10_0000_0000_0000;
    if exp == 0x7FF {
        if frac != 0 {
            0
        } else if sign == 0 {
            0x7fff_ffff_ffff_ffff
        } else {
            -0x8000_0000_0000_0000
        }
    } else if exp < 1023 {
        0
    } else {
        let e = exp - 1023;
        let mag = if e >= 52 {
            (0x10_0000_0000_0000 + frac) * pow2((e - 52) as nat)
        } else {
            (0x10_0000_0000_0000 + frac) as int / pow2((52 - e) as nat) as int
        };
        let v = if sign == 0 {
            mag
        } else {
            -mag
        };
        if v > 0x7fff_ffff_ffff_ffff {
            0x7fff_ffff_ffff_ffff
        } else if v < -0x8000_0000_0000_0000 {
            -0x8000_0000_0000_0000
        } else {
            v
        }
    }
}

/// Truncates the 64-bit float stored in `bits` to a signed integer, in pure
/// integer arithmetic on the sign, exponent and fraction fields. Legacy
/// records store entry and byte counts this way.
pub fn f64_bits_to_i64(bits: u64) -> (r: i64)
    ensures
        r as int == f64_bits_trunc(bits),
{
    let sign: u64 = bits / 0x8000_0000_0000_0000;
    let exp: u64 = (bits / 0x10_0000_0000_0000) % 0x800;
    let frac: u64 = bits % 0x10_0000_0000_0000;
    if exp == 0x7FF {
        if frac != 0 {
            0
        } else if sign == 0 {
            i64::MAX
        } else {
            i64::MIN
        }
    } else if exp < 1023 {
        0
    } else {
        let e: u64 = exp - 1023;
        if e > 63 {
            // The magnitude is at least two to the sixty-third and the
            // fraction can only push it higher, so the cast saturates.
            proof {
                let m = 0x10_0000_0000_0000 + frac as int;
                if e >= 52 {
                    pow2_monotone(12, (e - 52) as nat);
                    assert(pow2(12) == 4096) by {
                        reveal_with_fuel(pow2, 13);
                    }
                    assert(m * pow2((e - 52) as nat) >= m * 4096) by (nonlinear_arith)
                        requires
                            m >= 0x10_0000_0000_0000,
                            pow2((e - 52) as nat) >= 4096,
                    ;
                }
            }
            if sign == 0 {
                i64::MAX
            } else {
                i64::MIN
            }
        } else {
            let m: u64 = 0x10_0000_0000_0000 + frac;
            let mag: u64 = if e >= 52 {
                let shift: u64 = e - 52;
                let mut k: u64 = 0;
                let mut acc: u64 = m;
                proof {
                    assert(pow2(0) == 1) by {
                        reveal_with_fuel(pow2, 1);
                    }
                }
                while k < shift
                    invariant
                        shift <= 11,
                        k <= shift,
                        m < 0x20_0000_0000_0000,
                        acc == m * pow2(k as nat),
                        acc < 0x20_0000_0000_0000u64 * 0x800,
                    decreases shift - k,
                {
                    proof {
                        pow2_monotone(k as nat, 10);
                        assert(pow2(10) == 1024) by {
                            reveal_with_fuel(pow2, 11);
                        }
                        assert(acc * 2 == m * (2 * pow2(k as nat))) by (nonlinear_arith)
                            requires
                                acc == m * pow2(k as nat),
                        ;
                        assert(m * pow2(k as nat) <= m * 1024) by (nonlinear_arith)
                            requires
                                m >= 0,
                                pow2(k as nat) <= 1024,
                        ;
                    }
                    acc = acc * 2;
                    k = k + 1;
                }
                acc
            } else {
                let shift: u64 = 52 - e;
                let mut k: u64 = 0;
                let mut d: u64 = 1;
                proof {
                    assert(pow2(0) == 1) by {
                        reveal_with_fuel(pow2, 1);
                    }
                }
                while k < shift
                    invariant
                        shift <= 52,
                        k <= shift,
                        d >= 1,
                        d == pow2(k as nat),
                    decreases shift - k,
                {
                    proof {
                        pow2_monotone(k as nat, 51);
                        assert(pow2(51) == 0x8_0000_0000_0000) by {
                            reveal_with_fuel(pow2, 52);
                        }
                    }
                    d = d * 2;
                    k = k + 1;
                }
                m / d
            };
            if sign == 0 {
                if mag > 0x7fff_ffff_ffff_ffff {
                    i64::MAX
                } else {
                    mag as i64
                }
            } else {
                if mag >= 0x8000_0000_0000_0000 {
                    i64::MIN
                } else {
                    -(mag as i64)
                }
            }
        }
    }
}

impl RBuffer {
    /// Reads a stored 64-bit float and truncates it to a signed integer.
    pub fn read_f64_as_i64(&mut self) -> (r: Result<i64>)
        requires
            old(self).wf(),
        ensures
            final(self).same_frame(old(self)),
            final(self).wf(),
            r is Ok <==> old(self).spos() + 8 <= old(self).sdata().len(),
            r matches Ok(v) ==> final(self).spos() == old(self).spos() + 8 && v as int
                == f64_bits_trunc((be8(old(self).sdata(), old(self).spos())) as u64),
            r is Err ==> r == Result::<i64>::Err(Error::Truncated) && final(self).spos() == old(
                self,
            ).spos(),
    {
        let u: u64 = match self.read_u64() {
            Ok(v) => v,
            Err(e) => {
                return Err(e);
            },
        };
        Ok(f64_bits_to_i64(u))
    }
}

/// Fails with [`Error::UnsupportedVersion`] when an on-disk class version
/// exceeds the newest one this reader was built for.
pub fn ensure_maximum_supported_version(vers: i16, max: i16, class: &str) -> (r: Result<()>)
    ensures
        r is Ok <==> vers <= max,
        r matches Err(e) ==> e matches Error::UnsupportedVersion { class: c, vers: v, max: m }
            && c@ == class@ && v == vers && m == max,
{
    if vers <= max {
        Ok(())
    } else {
        Err(Error::UnsupportedVersion { class: String::from_str(class), vers, max })
    }
}

/// How one element of an object list is announced: absent, a class named in
/// place (an inline object of that class follows), a class referred to by an
/// earlier tag (an inline object follows), or a reference to an
/// already-decoded object at the given absolute offset.
pub enum ObjTag {
    Absent,
    Fresh(String),
    Seen(String),
    Backref(u64),
}

impl RBuffer {
    /// Reads the leading tag of one polymorphic object. New class names are
    /// recorded in the tag table, keyed by the absolute offset of the tag
    /// plus the fixed displacement, so later tags can refer back to them.
    pub fn read_object_tag(&mut self) -> (r: Result<ObjTag>)
        requires
            old(self).wf(),
        ensures
            final(self).same_frame(old(self)),
            final(self).wf(),
            final(self).spos() >= old(self).spos(),
            r is Ok ==> final(self).spos() >= old(self).spos() + 4,
    {
        let tag_start: u64 = self.base + self.pos as u64;
        let w: u32 = match self.read_u32() {
            Ok(v) => v,
            Err(e) => {
                return Err(e);
            },
        };
        // Low 30 bits hold the tag when no byte count precedes it.
        let has_count: bool = (w / 0x4000_0000) % 2 == 1 && w != K_NEW_CLASS_TAG;
        let tag: u32 = if has_count {
            match self.read_u32() {
                Ok(v) => v,
                Err(e) => {
                    return Err(e);
                },
            }
        } else {
            w
        };
        if tag == K_NEW_CLASS_TAG {
            let cname: String = match self.read_cstring() {
                Ok(v) => v,
                Err(e) => {
                    return Err(e);
                },
            };
            if tag_start > u64::MAX - K_MAP_OFFSET {
                return Err(Error::Truncated);
            }
            self.class_tags.push((tag_start + K_MAP_OFFSET, cname.clone()));
            Ok(ObjTag::Fresh(cname))
        } else if tag < K_CLASS_MASK {
            if tag == 0 {
                Ok(ObjTag::Absent)
            } else {
                Ok(ObjTag::Backref(tag as u64))
            }
        } else {
            let off: u64 = (tag - K_CLASS_MASK) as u64;
            match self.find_class_tag(off) {
                Some(name) => Ok(ObjTag::Seen(name)),
                None => Err(Error::UnknownClass(String::new())),
            }
        }
    }
}

} // verus!
