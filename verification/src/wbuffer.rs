//! The write side symmetric to reading: big-endian encoders whose output the
//! buffer layer decodes back, and the byte builders for the records the
//! branch marshaller emits.

use vstd::prelude::*;
use vstd::string::StringSliceAdditionalSpecFns;

use crate::leaf::Leaf;
use crate::rbase::Named;
use crate::tree::TioFeatures;

verus! {

/// The two big-endian bytes of a 16-bit value.
pub open spec fn enc2(v: u16) -> Seq<u8> {
    seq![(v as int / 0x100) as u8, (v as int % 0x100) as u8]
}

/// The four big-endian bytes of a 32-bit value.
pub open spec fn enc4(v: u32) -> Seq<u8> {
    seq![
        (v as int / 0x100_0000) as u8,
        (v as int / 0x1_0000 % 0x100) as u8,
        (v as int / 0x100 % 0x100) as u8,
        (v as int % 0x100) as u8,
    ]
}

/// The eight big-endian bytes of a 64-bit value.
pub open spec fn enc8(v: u64) -> Seq<u8> {
    seq![
        (v as int / 0x100_0000_0000_0000) as u8,
        (v as int / 0x1_0000_0000_0000 % 0x100) as u8,
        (v as int / 0x100_0000_0000 % 0x100) as u8,
        (v as int / 0x1_0000_0000 % 0x100) as u8,
        (v as int / 0x100_0000 % 0x100) as u8,
        (v as int / 0x1_0000 % 0x100) as u8,
        (v as int / 0x100 % 0x100) as u8,
        (v as int % 0x100) as u8,
    ]
}

/// The unsigned bit pattern of a signed 32-bit value.
pub open spec fn u32_of_i32(v: i32) -> u32 {
    if v >= 0 {
        v as u32
    } else {
        (v + 0x1_0000_0000) as u32
    }
}

/// The unsigned bit pattern of a signed 64-bit value.
pub open spec fn u64_of_i64(v: i64) -> u64 {
    if v >= 0 {
        v as u64
    } else {
        (v + 0x1_0000_0000_0000_0000) as u64
    }
}

/// A length-prefixed string: one count byte, or five when the text is 255
/// bytes or longer.
pub open spec fn enc_str(s: Seq<char>) -> Seq<u8> {
    let b = vstd::utf8::encode_utf8(s);
    if b.len() < 255 {
        seq![b.len() as u8] + b
    } else {
        seq![255u8] + enc4(b.len() as u32) + b
    }
}

/// An append-only byte sink; `sdata` is everything written so far.
pub struct WBuffer {
    data: Vec<u8>,
}

impl WBuffer {
    pub closed spec fn sdata(&self) -> Seq<u8> {
        self.data@
    }

    pub fn new() -> (r: WBuffer)
        ensures
            r.sdata() == Seq::<u8>::empty(),
    {
        WBuffer { data: Vec::new() }
    }

    pub fn len(&self) -> (r: usize)
        ensures
            r as int == self.sdata().len(),
    {
        self.data.len()
    }

    /// Hands the written bytes over.
    pub fn into_vec(self) -> (r: Vec<u8>)
        ensures
            r@ == self.sdata(),
    {
        self.data
    }

    pub fn write_u8(&mut self, v: u8)
        ensures
            final(self).sdata() == old(self).sdata().push(v),
    {
        self.data.push(v);
    }

    pub fn write_u16(&mut self, v: u16)
        ensures
            final(self).sdata() == old(self).sdata() + enc2(v),
    {
        let ghost pre = self.data@;
        self.data.push((v / 0x100) as u8);
        self.data.push((v % 0x100) as u8);
        proof {
            assert(self.data@ =~= pre + enc2(v));
        }
    }

    pub fn write_u32(&mut self, v: u32)
        ensures
            final(self).sdata() == old(self).sdata() + enc4(v),
    {
        let ghost pre = self.data@;
        self.data.push((v / 0x100_0000) as u8);
        self.data.push((v / 0x1_0000 % 0x100) as u8);
        self.data.push((v / 0x100 % 0x100) as u8);
        self.data.push((v % 0x100) as u8);
        proof {
            assert(self.data@ =~= pre + enc4(v));
        }
    }

    pub fn write_u64(&mut self, v: u64)
        ensures
            final(self).sdata() == old(self).sdata() + enc8(v),
    {
        let ghost pre = self.data@;
        self.data.push((v / 0x100_0000_0000_0000) as u8);
        self.data.push((v / 0x1_0000_0000_0000 % 0x100) as u8);
        self.data.push((v / 0x100_0000_0000 % 0x100) as u8);
        self.data.push((v / 0x1_0000_0000 % 0x100) as u8);
        self.data.push((v / 0x100_0000 % 0x100) as u8);
        self.data.push((v / 0x1_0000 % 0x100) as u8);
        self.data.push((v / 0x100 % 0x100) as u8);
        self.data.push((v % 0x100) as u8);
        proof {
            assert(self.data@ =~= pre + enc8(v));
        }
    }

    pub fn write_i16(&mut self, v: i16)
        ensures
            final(self).sdata() == old(self).sdata() + enc2(
                (if v >= 0 {
                    v as int
                } else {
                    v + 0x1_0000
                }) as u16,
            ),
    {
        let u: u16 = if v >= 0 {
            v as u16
        } else {
            0xffffu16 - ((-(v + 1)) as u16)
        };
        self.write_u16(u);
    }

    pub fn write_i32(&mut self, v: i32)
        ensures
            final(self).sdata() == old(self).sdata() + enc4(u32_of_i32(v)),
    {
        let u: u32 = if v >= 0 {
            v as u32
        } else {
            0xffff_ffffu32 - ((-(v + 1)) as u32)
        };
        self.write_u32(u);
    }

    pub fn write_i64(&mut self, v: i64)
        ensures
            final(self).sdata() == old(self).sdata() + enc8(u64_of_i64(v)),
    {
        let u: u64 = if v >= 0 {
            v as u64
        } else {
            0xffff_ffff_ffff_ffffu64 - ((-(v + 1)) as u64)
        };
        self.write_u64(u);
    }

    pub fn write_bytes(&mut self, bytes: &[u8])
        ensures
            final(self).sdata() == old(self).sdata() + bytes@,
    {
        self.data.extend_from_slice(bytes);
    }

    /// Writes a length-prefixed string; the machine cannot frame a text
    /// whose length needs more than 32 bits.
    pub fn write_string(&mut self, s: &str)
        requires
            s.spec_bytes().len() <= u32::MAX,
        ensures
            final(self).sdata() == old(self).sdata() + enc_str(s@),
    {
        let ghost pre = self.data@;
        let b: &[u8] = s.as_bytes();
        if b.len() < 255 {
            self.data.push(b.len() as u8);
            self.data.extend_from_slice(b);
            proof {
                assert(self.data@ =~= pre + enc_str(s@));
            }
        } else {
            self.data.push(255);
            self.write_u32(b.len() as u32);
            self.data.extend_from_slice(b);
            proof {
                assert(self.data@ =~= pre + enc_str(s@));
            }
        }
    }
}

/// A frame: the byte count of everything after the count word, with the high
/// bit set, then the version word, then the body.
pub open spec fn frame_bytes(vers: u16, body: Seq<u8>) -> Seq<u8> {
    enc4((0x8000_0000 + body.len() + 2) as u32) + enc2(vers) + body
}

/// The default base object: a bare version word, a zero id, and the on-heap
/// bits.
pub open spec fn obj_bytes() -> Seq<u8> {
    enc2(1) + enc4(0) + enc4(0x0300_0000)
}

pub open spec fn named_bytes(n: &Named) -> Seq<u8> {
    frame_bytes(1, obj_bytes() + enc_str(n.name@) + enc_str(n.title@))
}

pub open spec fn tio_bytes(t: TioFeatures) -> Seq<u8> {
    if t.0 == 0 {
        frame_bytes(1, seq![0u8])
    } else {
        frame_bytes(1, seq![1u8, 0u8, 0u8, 0u8, t.0])
    }
}

/// The on-disk class name of a leaf.
pub open spec fn leaf_class(l: &Leaf) -> Seq<char> {
    match l {
        Leaf::B(_) => "TLeafB"@,
        Leaf::S(_) => "TLeafS"@,
        Leaf::I(_) => "TLeafI"@,
        Leaf::L(_) => "TLeafL"@,
        Leaf::F(_) => "TLeafF"@,
        Leaf::D(_) => "TLeafD"@,
        Leaf::C(_) => "TLeafC"@,
        Leaf::O(_) => "TLeafO"@,
        Leaf::Element(_) => "TLeafElement"@,
    }
}

/// The typed range fields each leaf class stores after the common part. The
/// reader consumes ranges without keeping them, so they are re-emitted as
/// zeros; a composite leaf stores its id and type instead.
pub open spec fn leaf_extra_bytes(l: &Leaf) -> Seq<u8> {
    match l {
        Leaf::B(_) => Seq::new(2, |i: int| 0u8),
        Leaf::O(_) => Seq::new(2, |i: int| 0u8),
        Leaf::S(_) => Seq::new(4, |i: int| 0u8),
        Leaf::I(_) => Seq::new(8, |i: int| 0u8),
        Leaf::F(_) => Seq::new(8, |i: int| 0u8),
        Leaf::C(_) => Seq::new(8, |i: int| 0u8),
        Leaf::L(_) => Seq::new(16, |i: int| 0u8),
        Leaf::D(_) => Seq::new(16, |i: int| 0u8),
        Leaf::Element(e) => enc4(u32_of_i32(e.id)) + enc4(u32_of_i32(e.ltype)),
    }
}

/// One leaf record: the class frame around the common part's frame and the
/// class's range fields. A counter reference is always re-emitted as absent.
pub open spec fn leaf_bytes(l: &Leaf) -> Seq<u8> {
    let b = l.sbase();
    frame_bytes(
        1,
        frame_bytes(
            2,
            named_bytes(&b.named) + enc4(u32_of_i32(b.len)) + enc4(u32_of_i32(b.etype)) + enc4(
                u32_of_i32(b.offset),
            ) + seq![
                (if b.is_range {
                    1u8
                } else {
                    0u8
                }),
                (if b.is_unsigned {
                    1u8
                } else {
                    0u8
                }),
            ] + enc4(0),
        ) + leaf_extra_bytes(l),
    )
}

/// A new-class tag, the class name, and the record it announces.
pub open spec fn tagged_bytes(class: Seq<char>, rec: Seq<u8>) -> Seq<u8> {
    enc4(0xFFFF_FFFF) + vstd::utf8::encode_utf8(class) + seq![0u8] + rec
}

/// All the tagged leaf elements of a stored list, in order.
pub open spec fn leaves_bytes(ls: Seq<Leaf>) -> Seq<u8>
    decreases ls.len(),
{
    if ls.len() == 0 {
        Seq::empty()
    } else {
        leaves_bytes(ls.drop_last()) + tagged_bytes(leaf_class(&ls.last()), leaf_bytes(&ls.last()))
    }
}

/// A stored object list of `n` elements whose bytes are `elems`.
pub open spec fn objarray_bytes(n: int, elems: Seq<u8>) -> Seq<u8> {
    frame_bytes(
        3,
        obj_bytes() + enc_str(Seq::<char>::empty()) + enc4(n as u32) + enc4(0) + elems,
    )
}

/// A stored 32-bit table padded with zeros to the stated capacity.
pub open spec fn enc4_list(vs: Seq<i32>) -> Seq<u8>
    decreases vs.len(),
{
    if vs.len() == 0 {
        Seq::empty()
    } else {
        enc4_list(vs.drop_last()) + enc4(u32_of_i32(vs.last()))
    }
}

/// A stored 64-bit table.
pub open spec fn enc8_list(vs: Seq<i64>) -> Seq<u8>
    decreases vs.len(),
{
    if vs.len() == 0 {
        Seq::empty()
    } else {
        enc8_list(vs.drop_last()) + enc8(u64_of_i64(vs.last()))
    }
}

pub open spec fn zeros(n: int) -> Seq<u8> {
    Seq::new(n as nat, |i: int| 0u8)
}

proof fn lemma_enc4_list_step(vs: Seq<i32>, i: int)
    requires
        0 < i <= vs.len(),
    ensures
        enc4_list(vs.take(i)) == enc4_list(vs.take(i - 1)) + enc4(u32_of_i32(vs[i - 1])),
{
    assert(vs.take(i).drop_last() =~= vs.take(i - 1));
    assert(vs.take(i).last() == vs[i - 1]);
}

proof fn lemma_enc8_list_step(vs: Seq<i64>, i: int)
    requires
        0 < i <= vs.len(),
    ensures
        enc8_list(vs.take(i)) == enc8_list(vs.take(i - 1)) + enc8(u64_of_i64(vs[i - 1])),
{
    assert(vs.take(i).drop_last() =~= vs.take(i - 1));
    assert(vs.take(i).last() == vs[i - 1]);
}

proof fn lemma_leaves_bytes_step(ls: Seq<Leaf>, i: int)
    requires
        0 < i <= ls.len(),
    ensures
        leaves_bytes(ls.take(i)) == leaves_bytes(ls.take(i - 1)) + tagged_bytes(
            leaf_class(&ls[i - 1]),
            leaf_bytes(&ls[i - 1]),
        ),
{
    assert(ls.take(i).drop_last() =~= ls.take(i - 1));
    assert(ls.take(i).last() == ls[i - 1]);
}

impl WBuffer {
    /// Frames what was written so far into a fresh record: count word,
    /// version word, body. A body too large for the 31-bit count cannot be
    /// framed.
    pub fn into_framed(self, vers: u16) -> (r: core::result::Result<Vec<u8>, crate::error::Error>)
        ensures
            r matches Ok(v) ==> v@ == frame_bytes(vers, self.sdata()),
            r is Ok <==> self.sdata().len() <= 0x7fff_fffd,
            r is Err ==> r == core::result::Result::<Vec<u8>, crate::error::Error>::Err(
                crate::error::Error::Truncated,
            ),
    {
        let body: Vec<u8> = self.into_vec();
        if body.len() > 0x7fff_fffd {
            return Err(crate::error::Error::Truncated);
        }
        let mut w = WBuffer::new();
        w.write_u32(0x8000_0000u32 + body.len() as u32 + 2);
        w.write_u16(vers);
        w.write_bytes(body.as_slice());
        let out: Vec<u8> = w.into_vec();
        proof {
            assert(out@ =~= frame_bytes(vers, body@));
        }
        Ok(out)
    }

    /// Writes the default base object.
    pub fn write_obj(&mut self)
        ensures
            final(self).sdata() == old(self).sdata() + obj_bytes(),
    {
        let ghost pre = self.sdata();
        self.write_u16(1);
        self.write_u32(0);
        self.write_u32(0x0300_0000);
        proof {
            assert(self.sdata() =~= pre + obj_bytes());
        }
    }

    /// Whether a name/title record fits its length fields.
    pub open spec fn named_fits(n: &Named) -> bool {
        &&& vstd::utf8::encode_utf8(n.name@).len() <= u32::MAX
        &&& vstd::utf8::encode_utf8(n.title@).len() <= u32::MAX
        &&& (obj_bytes() + enc_str(n.name@) + enc_str(n.title@)).len() <= 0x7fff_fffd
    }

    /// Writes a name/title record; one that fits its length fields is
    /// always written.
    pub fn write_named(&mut self, n: &Named) -> (r: core::result::Result<
        (),
        crate::error::Error,
    >)
        ensures
            r is Ok ==> final(self).sdata() == old(self).sdata() + named_bytes(n),
            r is Err ==> final(self).sdata() == old(self).sdata(),
            Self::named_fits(n) ==> r is Ok,
    {
        if n.name.as_str().as_bytes().len() > u32::MAX as usize || n.title.as_str().as_bytes().len()
            > u32::MAX as usize {
            return Err(crate::error::Error::Truncated);
        }
        let mut bw = WBuffer::new();
        bw.write_obj();
        bw.write_string(n.name.as_str());
        bw.write_string(n.title.as_str());
        let rec: Vec<u8> = match bw.into_framed(1) {
            Ok(v) => v,
            Err(e) => {
                return Err(e);
            },
        };
        self.write_bytes(rec.as_slice());
        Ok(())
    }

    /// Writes an IO-features record.
    pub fn write_tio(&mut self, t: TioFeatures) -> (r: core::result::Result<
        (),
        crate::error::Error,
    >)
        ensures
            r is Ok ==> final(self).sdata() == old(self).sdata() + tio_bytes(t),
            r is Err ==> final(self).sdata() == old(self).sdata(),
            r is Ok,
    {
        let mut bw = WBuffer::new();
        if t.0 == 0 {
            bw.write_u8(0);
            proof {
                assert(bw.sdata() =~= seq![0u8]);
            }
        } else {
            bw.write_u8(1);
            bw.write_u8(0);
            bw.write_u8(0);
            bw.write_u8(0);
            bw.write_u8(t.0);
            proof {
                assert(bw.sdata() =~= seq![1u8, 0u8, 0u8, 0u8, t.0]);
            }
        }
        let rec: Vec<u8> = match bw.into_framed(1) {
            Ok(v) => v,
            Err(e) => {
                return Err(e);
            },
        };
        self.write_bytes(rec.as_slice());
        Ok(())
    }

    /// Writes an empty framed record, the shape of the attribute classes.
    pub fn write_empty_frame(&mut self, vers: u16) -> (r: core::result::Result<
        (),
        crate::error::Error,
    >)
        ensures
            r is Ok ==> final(self).sdata() == old(self).sdata() + frame_bytes(
                vers,
                Seq::<u8>::empty(),
            ),
            r is Err ==> final(self).sdata() == old(self).sdata(),
            r is Ok,
    {
        let bw = WBuffer::new();
        let rec: Vec<u8> = match bw.into_framed(vers) {
            Ok(v) => v,
            Err(e) => {
                return Err(e);
            },
        };
        self.write_bytes(rec.as_slice());
        Ok(())
    }

    /// Writes one leaf record with its new-class tag.
    #[verifier::rlimit(100)]
    pub fn write_tagged_leaf(&mut self, l: &Leaf) -> (r: core::result::Result<
        (),
        crate::error::Error,
    >)
        ensures
            r is Ok ==> final(self).sdata() == old(self).sdata() + tagged_bytes(
                leaf_class(l),
                leaf_bytes(l),
            ),
            r is Err ==> final(self).sdata() == old(self).sdata(),
    {
        let b = l.base();
        let mut inner = WBuffer::new();
        match inner.write_named(&b.named) {
            Ok(_) => (),
            Err(e) => {
                return Err(e);
            },
        }
        inner.write_i32(b.len);
        inner.write_i32(b.etype);
        inner.write_i32(b.offset);
        inner.write_u8(if b.is_range {
            1
        } else {
            0
        });
        inner.write_u8(if b.is_unsigned {
            1
        } else {
            0
        });
        inner.write_u32(0);
        let base_rec: Vec<u8> = match inner.into_framed(2) {
            Ok(v) => v,
            Err(e) => {
                return Err(e);
            },
        };
        let mut outer = WBuffer::new();
        outer.write_bytes(base_rec.as_slice());
        match l {
            Leaf::B(_) => outer.write_bytes(&[0, 0]),
            Leaf::O(_) => outer.write_bytes(&[0, 0]),
            Leaf::S(_) => outer.write_bytes(&[0, 0, 0, 0]),
            Leaf::I(_) => outer.write_bytes(&[0, 0, 0, 0, 0, 0, 0, 0]),
            Leaf::F(_) => outer.write_bytes(&[0, 0, 0, 0, 0, 0, 0, 0]),
            Leaf::C(_) => outer.write_bytes(&[0, 0, 0, 0, 0, 0, 0, 0]),
            Leaf::L(_) => outer.write_bytes(&[0; 16]),
            Leaf::D(_) => outer.write_bytes(&[0; 16]),
            Leaf::Element(e) => {
                outer.write_i32(e.id);
                outer.write_i32(e.ltype);
            },
        }
        proof {
            assert(leaf_extra_bytes(l) =~= outer.sdata().skip(base_rec@.len() as int));
            assert(outer.sdata() =~= base_rec@ + leaf_extra_bytes(l));
        }
        let rec: Vec<u8> = match outer.into_framed(1) {
            Ok(v) => v,
            Err(e) => {
                return Err(e);
            },
        };
        let class: &'static str = match l {
            Leaf::B(_) => "TLeafB",
            Leaf::S(_) => "TLeafS",
            Leaf::I(_) => "TLeafI",
            Leaf::L(_) => "TLeafL",
            Leaf::F(_) => "TLeafF",
            Leaf::D(_) => "TLeafD",
            Leaf::C(_) => "TLeafC",
            Leaf::O(_) => "TLeafO",
            Leaf::Element(_) => "TLeafElement",
        };
        let ghost pre = self.sdata();
        self.write_u32(0xFFFF_FFFF);
        self.write_bytes(class.as_bytes());
        self.write_u8(0);
        self.write_bytes(rec.as_slice());
        proof {
            assert(self.sdata() =~= pre + tagged_bytes(leaf_class(l), leaf_bytes(l)));
        }
        Ok(())
    }

    /// Writes a stored object list holding the given leaves.
    #[verifier::rlimit(60)]
    pub fn write_leaf_list(&mut self, ls: &Vec<Leaf>) -> (r: core::result::Result<
        (),
        crate::error::Error,
    >)
        ensures
            r is Ok ==> final(self).sdata() == old(self).sdata() + objarray_bytes(
                ls@.len() as int,
                leaves_bytes(ls@),
            ),
            r is Err ==> final(self).sdata() == old(self).sdata(),
    {
        if ls.len() as u64 > 0x7fff_ffff {
            return Err(crate::error::Error::Truncated);
        }
        let mut bw = WBuffer::new();
        bw.write_obj();
        proof {
            reveal_strlit("");
        }
        bw.write_string("");
        bw.write_u32(ls.len() as u32);
        bw.write_u32(0);
        let ghost prefix = bw.sdata();
        let mut i: usize = 0;
        while i < ls.len()
            invariant
                i <= ls@.len(),
                bw.sdata() == prefix + leaves_bytes(ls@.take(i as int)),
            decreases ls@.len() - i,
        {
            match bw.write_tagged_leaf(&ls[i]) {
                Ok(_) => (),
                Err(e) => {
                    return Err(e);
                },
            }
            i = i + 1;
            proof {
                lemma_leaves_bytes_step(ls@, i as int);
            }
        }
        proof {
            assert(ls@.take(ls@.len() as int) =~= ls@);
            assert(u32_of_i32(ls@.len() as i32) == ls@.len() as u32);
        }
        let rec: Vec<u8> = match bw.into_framed(3) {
            Ok(v) => v,
            Err(e) => {
                return Err(e);
            },
        };
        self.write_bytes(rec.as_slice());
        proof {
            assert(rec@ =~= objarray_bytes(ls@.len() as int, leaves_bytes(ls@)));
        }
        Ok(())
    }

    /// Writes an empty stored object list.
    pub fn write_empty_objarray(&mut self) -> (r: core::result::Result<(), crate::error::Error>)
        ensures
            r is Ok ==> final(self).sdata() == old(self).sdata() + objarray_bytes(
                0,
                Seq::<u8>::empty(),
            ),
            r is Err ==> final(self).sdata() == old(self).sdata(),
            r is Ok,
    {
        let mut bw = WBuffer::new();
        bw.write_obj();
        proof {
            reveal_strlit("");
        }
        bw.write_string("");
        bw.write_u32(0);
        bw.write_u32(0);
        let rec: Vec<u8> = match bw.into_framed(3) {
            Ok(v) => v,
            Err(e) => {
                return Err(e);
            },
        };
        self.write_bytes(rec.as_slice());
        proof {
            assert(rec@ =~= objarray_bytes(0, Seq::<u8>::empty()));
        }
        Ok(())
    }

    /// Writes a 32-bit table truncated from `vs`, zero-padded to `cap`
    /// entries, with its leading framing byte.
    pub fn write_i32_table(&mut self, vs: &Vec<i32>, cap: usize)
        requires
            vs@.len() <= cap,
        ensures
            final(self).sdata() == old(self).sdata() + seq![1u8] + enc4_list(vs@) + zeros(
                4 * (cap - vs@.len()),
            ),
    {
        let ghost pre = self.sdata();
        self.write_u8(1);
        let mut i: usize = 0;
        while i < vs.len()
            invariant
                i <= vs@.len(),
                self.sdata() == pre + seq![1u8] + enc4_list(vs@.take(i as int)),
            decreases vs@.len() - i,
        {
            self.write_i32(vs[i]);
            i = i + 1;
            proof {
                lemma_enc4_list_step(vs@, i as int);
            }
        }
        proof {
            assert(vs@.take(vs@.len() as int) =~= vs@);
        }
        let mut j: usize = vs.len();
        while j < cap
            invariant
                vs@.len() <= j <= cap,
                self.sdata() == pre + seq![1u8] + enc4_list(vs@) + zeros(4 * (j - vs@.len())),
            decreases cap - j,
        {
            self.write_u32(0);
            j = j + 1;
            proof {
                assert(enc4(0) =~= seq![0u8, 0u8, 0u8, 0u8]);
                assert(zeros(4 * (j - 1 - vs@.len())) + enc4(0) =~= zeros(4 * (j - vs@.len())));
                assert(self.sdata() =~= pre + seq![1u8] + enc4_list(vs@) + zeros(
                    4 * (j - vs@.len()),
                ));
            }
        }
    }

    /// Writes a 64-bit table, zero-padded to `cap` entries, with its leading
    /// framing byte.
    pub fn write_i64_table(&mut self, vs: &Vec<i64>, cap: usize)
        requires
            vs@.len() <= cap,
        ensures
            final(self).sdata() == old(self).sdata() + seq![1u8] + enc8_list(vs@) + zeros(
                8 * (cap - vs@.len()),
            ),
    {
        let ghost pre = self.sdata();
        self.write_u8(1);
        let mut i: usize = 0;
        while i < vs.len()
            invariant
                i <= vs@.len(),
                self.sdata() == pre + seq![1u8] + enc8_list(vs@.take(i as int)),
            decreases vs@.len() - i,
        {
            self.write_i64(vs[i]);
            i = i + 1;
            proof {
                lemma_enc8_list_step(vs@, i as int);
            }
        }
        proof {
            assert(vs@.take(vs@.len() as int) =~= vs@);
        }
        let mut j: usize = vs.len();
        while j < cap
            invariant
                vs@.len() <= j <= cap,
                self.sdata() == pre + seq![1u8] + enc8_list(vs@) + zeros(8 * (j - vs@.len())),
            decreases cap - j,
        {
            self.write_u64(0);
            j = j + 1;
            proof {
                assert(enc8(0) =~= seq![0u8, 0u8, 0u8, 0u8, 0u8, 0u8, 0u8, 0u8]);
                assert(zeros(8 * (j - 1 - vs@.len())) + enc8(0) =~= zeros(8 * (j - vs@.len())));
                assert(self.sdata() =~= pre + seq![1u8] + enc8_list(vs@) + zeros(
                    8 * (j - vs@.len()),
                ));
            }
        }
    }
}

} // verus!
