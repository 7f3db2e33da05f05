//! The typed layer: turns a branch's chunks into user-facing values. Chunk
//! shapes that do not fit the requested type fail with `TypeMismatch`, and a
//! chunk whose buffer is shorter than its entry count claims fails with
//! `Truncated`. Floating-point columns are exposed as their stored bit
//! patterns, which the caller reinterprets.

use vstd::prelude::*;

use crate::branch::BranchChunks;
use crate::error::{Error, Result};
use crate::rbuffer::{be4, sbe4, str_payload_len, str_prefix_len, utf8_lossy, RBuffer};

verus! {

/// The 32-bit values a fixed-stride chunk holds, when its stride is four.
pub open spec fn chunk_u32s(c: BranchChunks) -> Option<Seq<u32>> {
    match c {
        BranchChunks::RegularSized { n, stride, bytes } => {
            if stride == 4 && n >= 0 && 4 * (n as int) <= bytes@.len() {
                Some(Seq::new(n as nat, |k: int| be4(bytes@, 4 * k) as u32))
            } else {
                Option::None
            }
        },
        BranchChunks::IrregularSized { .. } => Option::None,
    }
}

/// The 32-bit values of a whole chunk sequence, in order.
pub open spec fn u32s_of(cs: Seq<BranchChunks>) -> Option<Seq<u32>>
    decreases cs.len(),
{
    if cs.len() == 0 {
        Some(Seq::empty())
    } else {
        match (u32s_of(cs.drop_last()), chunk_u32s(cs.last())) {
            (Some(a), Some(b)) => Some(a + b),
            _ => Option::None,
        }
    }
}

/// Reads every 32-bit big-endian value of a fixed-stride chunk sequence; the
/// stride of every chunk must be four.
pub fn u32_values(chunks: &Vec<BranchChunks>) -> (r: Result<Vec<u32>>)
    ensures
        r matches Ok(v) ==> u32s_of(chunks@) == Some(v@),
        r is Err <==> u32s_of(chunks@) is None,
{
    let mut out: Vec<u32> = Vec::new();
    let mut i: usize = 0;
    while i < chunks.len()
        invariant
            i <= chunks@.len(),
            u32s_of(chunks@.take(i as int)) == Some(out@),
        decreases chunks@.len() - i,
    {
        let ghost pre = out@;
        match &chunks[i] {
            BranchChunks::RegularSized { n, stride, bytes } => {
                if *stride != 4 || *n < 0 {
                    proof {
                        lemma_u32s_of_bad(chunks@, i as int);
                    }
                    return Err(
                        Error::TypeMismatch {
                            branch_type: String::from_str("record stride"),
                            requested_type: String::from_str("u32"),
                        },
                    );
                }
                let count: usize = *n as usize;
                let blen: usize = bytes.len();
                if count > blen / 4 {
                    proof {
                        assert(4 * count > blen) by (nonlinear_arith)
                            requires
                                count > blen / 4,
                        ;
                        lemma_u32s_of_bad(chunks@, i as int);
                    }
                    return Err(Error::Truncated);
                }
                proof {
                    assert(4 * count <= blen) by (nonlinear_arith)
                        requires
                            count <= blen / 4,
                    ;
                }
                let mut k: usize = 0;
                while k < count
                    invariant
                        k <= count,
                        blen == bytes@.len(),
                        4 * count <= blen,
                        out@.len() == pre.len() + k,
                        out@ =~= pre + Seq::new(k as nat, |t: int| be4(bytes@, 4 * t) as u32),
                    decreases count - k,
                {
                    let b0: u8 = bytes[4 * k];
                    let b1: u8 = bytes[4 * k + 1];
                    let b2: u8 = bytes[4 * k + 2];
                    let b3: u8 = bytes[4 * k + 3];
                    let v: u32 = (b0 as u32) * 0x100_0000 + (b1 as u32) * 0x1_0000 + (b2 as u32)
                        * 0x100 + (b3 as u32);
                    out.push(v);
                    k = k + 1;
                    proof {
                        assert(out@ =~= pre + Seq::new(
                            k as nat,
                            |t: int| be4(bytes@, 4 * t) as u32,
                        ));
                    }
                }
            },
            BranchChunks::IrregularSized { .. } => {
                proof {
                    lemma_u32s_of_bad(chunks@, i as int);
                }
                return Err(
                    Error::TypeMismatch {
                        branch_type: String::from_str("variable records"),
                        requested_type: String::from_str("u32"),
                    },
                );
            },
        }
        i = i + 1;
        proof {
            lemma_u32s_of_step(chunks@, i as int);
        }
    }
    proof {
        assert(chunks@.take(chunks@.len() as int) =~= chunks@);
    }
    Ok(out)
}

proof fn lemma_u32s_of_step(cs: Seq<BranchChunks>, i: int)
    requires
        0 < i <= cs.len(),
    ensures
        u32s_of(cs.take(i)) == (match (u32s_of(cs.take(i - 1)), chunk_u32s(cs[i - 1])) {
            (Some(a), Some(b)) => Some(a + b),
            _ => Option::<Seq<u32>>::None,
        }),
{
    assert(cs.take(i).drop_last() =~= cs.take(i - 1));
    assert(cs.take(i).last() == cs[i - 1]);
}

/// Once one chunk fails to fit, the whole sequence has no 32-bit reading.
proof fn lemma_u32s_of_bad(cs: Seq<BranchChunks>, i: int)
    requires
        0 <= i < cs.len(),
        chunk_u32s(cs[i]) is None,
    ensures
        u32s_of(cs) is None,
    decreases cs.len(),
{
    if cs.len() > 0 {
        if i == cs.len() - 1 {
            assert(cs.last() == cs[i]);
        } else {
            assert(cs.drop_last()[i] == cs[i]);
            lemma_u32s_of_bad(cs.drop_last(), i);
        }
    }
}

/// The signed reading of the same chunks.
pub open spec fn i32s_of(cs: Seq<BranchChunks>) -> Option<Seq<i32>> {
    match u32s_of(cs) {
        Some(u) => Some(u.map_values(|x: u32| x as i32)),
        Option::None => Option::None,
    }
}

/// Reads every 32-bit value as a signed integer.
pub fn i32_values(chunks: &Vec<BranchChunks>) -> (r: Result<Vec<i32>>)
    ensures
        r matches Ok(v) ==> i32s_of(chunks@) == Some(v@),
        r is Err <==> i32s_of(chunks@) is None,
{
    let us: Vec<u32> = match u32_values(chunks) {
        Ok(v) => v,
        Err(e) => {
            return Err(e);
        },
    };
    let mut out: Vec<i32> = Vec::new();
    let mut i: usize = 0;
    while i < us.len()
        invariant
            i <= us@.len(),
            out@.len() == i,
            forall|k: int| 0 <= k < i ==> #[trigger] out@[k] == us@[k] as i32,
        decreases us@.len() - i,
    {
        let u: u32 = us[i];
        let v: i32 = if u >= 0x8000_0000 {
            -((0xffff_ffffu32 - u) as i32) - 1
        } else {
            u as i32
        };
        proof {
            assert(v == u as i32) by (bit_vector)
                requires
                    v as int == (if u >= 0x8000_0000 {
                        u - 0x1_0000_0000
                    } else {
                        u as int
                    }),
            ;
        }
        out.push(v);
        i = i + 1;
    }
    proof {
        assert(out@ =~= us@.map_values(|x: u32| x as i32));
    }
    Ok(out)
}

/// The fixed arrays of `per` 32-bit values each that a chunk holds, when its
/// stride is exactly four times `per`.
pub open spec fn chunk_u32_arrays(c: BranchChunks, per: int) -> Option<Seq<Seq<u32>>> {
    match c {
        BranchChunks::RegularSized { n, stride, bytes } => {
            if stride == 4 * per && n >= 0 && stride as int * (n as int) <= bytes@.len() && per
                > 0 {
                Some(
                    Seq::new(
                        n as nat,
                        |k: int| Seq::new(per as nat, |j: int| be4(bytes@, 4 * (per * k + j)) as u32),
                    ),
                )
            } else {
                Option::None
            }
        },
        BranchChunks::IrregularSized { .. } => Option::None,
    }
}

/// The fixed arrays of a whole chunk sequence.
pub open spec fn u32_arrays_of(cs: Seq<BranchChunks>, per: int) -> Option<Seq<Seq<u32>>>
    decreases cs.len(),
{
    if cs.len() == 0 {
        Some(Seq::empty())
    } else {
        match (u32_arrays_of(cs.drop_last(), per), chunk_u32_arrays(cs.last(), per)) {
            (Some(a), Some(b)) => Some(a + b),
            _ => Option::<Seq<Seq<u32>>>::None,
        }
    }
}

proof fn lemma_u32_arrays_of_step(cs: Seq<BranchChunks>, per: int, i: int)
    requires
        0 < i <= cs.len(),
    ensures
        u32_arrays_of(cs.take(i), per) == (match (
            u32_arrays_of(cs.take(i - 1), per),
            chunk_u32_arrays(cs[i - 1], per),
        ) {
            (Some(a), Some(b)) => Some(a + b),
            _ => Option::<Seq<Seq<u32>>>::None,
        }),
{
    assert(cs.take(i).drop_last() =~= cs.take(i - 1));
    assert(cs.take(i).last() == cs[i - 1]);
}

proof fn lemma_u32_arrays_of_bad(cs: Seq<BranchChunks>, per: int, i: int)
    requires
        0 <= i < cs.len(),
        chunk_u32_arrays(cs[i], per) is None,
    ensures
        u32_arrays_of(cs, per) is None,
    decreases cs.len(),
{
    if cs.len() > 0 {
        if i == cs.len() - 1 {
            assert(cs.last() == cs[i]);
        } else {
            assert(cs.drop_last()[i] == cs[i]);
            lemma_u32_arrays_of_bad(cs.drop_last(), per, i);
        }
    }
}

/// Reads every fixed array of `per` 32-bit values from a fixed-stride chunk
/// sequence; every chunk's stride must be four times `per`.
pub fn u32_arrays(chunks: &Vec<BranchChunks>, per: usize) -> (r: Result<Vec<Vec<u32>>>)
    requires
        0 < per <= 0x1000_0000,
    ensures
        r matches Ok(v) ==> u32_arrays_of(chunks@, per as int) == Some(
            v@.map_values(|x: Vec<u32>| x@),
        ),
        r is Err <==> u32_arrays_of(chunks@, per as int) is None,
{
    let mut out: Vec<Vec<u32>> = Vec::new();
    let mut i: usize = 0;
    while i < chunks.len()
        invariant
            i <= chunks@.len(),
            0 < per <= 0x1000_0000,
            u32_arrays_of(chunks@.take(i as int), per as int) == Some(
                out@.map_values(|x: Vec<u32>| x@),
            ),
        decreases chunks@.len() - i,
    {
        let ghost pre = out@.map_values(|x: Vec<u32>| x@);
        match &chunks[i] {
            BranchChunks::RegularSized { n, stride, bytes } => {
                if *n < 0 || *stride < 0 || *stride as usize != 4 * per {
                    proof {
                        lemma_u32_arrays_of_bad(chunks@, per as int, i as int);
                    }
                    return Err(
                        Error::TypeMismatch {
                            branch_type: String::from_str("record stride"),
                            requested_type: String::from_str("u32 array"),
                        },
                    );
                }
                let count: usize = *n as usize;
                let w: usize = 4 * per;
                let ghost gblen = bytes@.len();
                if count > bytes.len() / w {
                    proof {
                        assert(w * count > gblen) by (nonlinear_arith)
                            requires
                                count > gblen as int / (w as int),
                                w > 0,
                        ;
                        lemma_u32_arrays_of_bad(chunks@, per as int, i as int);
                    }
                    return Err(Error::Truncated);
                }
                proof {
                    assert(w * count <= gblen) by (nonlinear_arith)
                        requires
                            count <= gblen as int / (w as int),
                            w > 0,
                            count >= 0,
                    ;
                }
                let blen: usize = bytes.len();
                let mut k: usize = 0;
                while k < count
                    invariant
                        k <= count,
                        w == 4 * per,
                        0 < per,
                        blen == bytes@.len(),
                        w * count <= bytes@.len(),
                        out@.map_values(|x: Vec<u32>| x@) =~~= pre + Seq::new(
                            k as nat,
                            |t: int|
                                Seq::new(
                                    per as nat,
                                    |j: int| be4(bytes@, 4 * (per as int * t + j)) as u32,
                                ),
                        ),
                    decreases count - k,
                {
                    let mut arr: Vec<u32> = Vec::new();
                    let mut j: usize = 0;
                    while j < per
                        invariant
                            j <= per,
                            k < count,
                            w == 4 * per,
                            0 < per,
                            blen == bytes@.len(),
                            w * count <= bytes@.len(),
                            arr@ =~= Seq::new(
                                j as nat,
                                |t: int| be4(bytes@, 4 * (per as int * k + t)) as u32,
                            ),
                        decreases per - j,
                    {
                        proof {
                            assert(w * k + 4 * j + 4 <= w * count) by (nonlinear_arith)
                                requires
                                    w == 4 * per,
                                    j < per,
                                    k < count,
                                    0 < per,
                            ;
                            assert(w * count <= blen);
                        }
                        let off: usize = w * k + 4 * j;
                        let b0: u8 = bytes[off];
                        let b1: u8 = bytes[off + 1];
                        let b2: u8 = bytes[off + 2];
                        let b3: u8 = bytes[off + 3];
                        let v: u32 = (b0 as u32) * 0x100_0000 + (b1 as u32) * 0x1_0000 + (b2 as u32)
                            * 0x100 + (b3 as u32);
                        arr.push(v);
                        j = j + 1;
                        proof {
                            assert(4 * (per as int * k + (j - 1)) == w * k + 4 * (j - 1))
                                by (nonlinear_arith)
                                requires
                                    w == 4 * per,
                            ;
                            assert(arr@ =~= Seq::new(
                                j as nat,
                                |t: int| be4(bytes@, 4 * (per as int * k + t)) as u32,
                            ));
                        }
                    }
                    let ghost gprev = out@;
                    out.push(arr);
                    k = k + 1;
                    proof {
                        gprev.lemma_push_map_commute(|x: Vec<u32>| x@, out@.last());
                        assert(out@.map_values(|x: Vec<u32>| x@) =~~= pre + Seq::new(
                            k as nat,
                            |t: int|
                                Seq::new(
                                    per as nat,
                                    |j: int| be4(bytes@, 4 * (per as int * t + j)) as u32,
                                ),
                        ));
                    }
                }
            },
            BranchChunks::IrregularSized { .. } => {
                proof {
                    lemma_u32_arrays_of_bad(chunks@, per as int, i as int);
                }
                return Err(
                    Error::TypeMismatch {
                        branch_type: String::from_str("variable records"),
                        requested_type: String::from_str("u32 array"),
                    },
                );
            },
        }
        i = i + 1;
        proof {
            lemma_u32_arrays_of_step(chunks@, per as int, i as int);
        }
    }
    proof {
        assert(chunks@.take(chunks@.len() as int) =~= chunks@);
    }
    Ok(out)
}

/// The variable-length 32-bit slices a chunk of delimited records holds:
/// each record is a 4-byte big-endian count followed by that many values.
pub open spec fn record_u32_slice(rec: Seq<u8>) -> Option<Seq<u32>> {
    if rec.len() >= 4 && sbe4(rec, 0) >= 0 && 4 + 4 * sbe4(rec, 0) <= rec.len() {
        Some(Seq::new(sbe4(rec, 0) as nat, |k: int| be4(rec, 4 + 4 * k) as u32))
    } else {
        Option::None
    }
}

/// The slices of one chunk's record list, when the stated count matches and
/// every record parses.
pub open spec fn irr_u32_slices(n: i32, records: Seq<Vec<u8>>) -> Option<Seq<Seq<u32>>> {
    if n >= 0 && n as int == records.len() && (forall|k: int|
        0 <= k < records.len() ==> record_u32_slice(#[trigger] records[k]@) is Some) {
        Some(Seq::new(records.len(), |k: int| record_u32_slice(records[k]@)->Some_0))
    } else {
        Option::None
    }
}

pub open spec fn chunk_u32_slices(c: BranchChunks) -> Option<Seq<Seq<u32>>> {
    match c {
        BranchChunks::RegularSized { .. } => Option::None,
        BranchChunks::IrregularSized { n, records } => irr_u32_slices(n, records@),
    }
}

/// Reads the slices of one chunk's record list.
fn slices_of_records(n: i32, records: &Vec<Vec<u8>>) -> (r: Result<Vec<Vec<u32>>>)
    ensures
        r matches Ok(v) ==> irr_u32_slices(n, records@) == Some(v@.map_values(|x: Vec<u32>| x@)),
        r is Err <==> irr_u32_slices(n, records@) is None,
{
    if n < 0 || n as usize != records.len() {
        return Err(
            Error::TypeMismatch {
                branch_type: String::from_str("record count"),
                requested_type: String::from_str("u32 slice"),
            },
        );
    }
    let mut out: Vec<Vec<u32>> = Vec::new();
    let mut k: usize = 0;
    while k < records.len()
        invariant
            n as int == records@.len(),
            k <= records@.len(),
            forall|t: int| 0 <= t < k ==> record_u32_slice(#[trigger] records@[t]@) is Some,
            out@.map_values(|x: Vec<u32>| x@) =~~= Seq::new(
                k as nat,
                |t: int| record_u32_slice(records@[t]@)->Some_0,
            ),
        decreases records@.len() - k,
    {
        let rec: &Vec<u8> = &records[k];
        let mut rb = RBuffer::new(rec.clone(), 0);
        let cnt: i32 = match rb.read_i32() {
            Ok(v) => v,
            Err(_) => {
                return Err(Error::Truncated);
            },
        };
        if cnt < 0 || cnt as usize > (rec.len() - 4) / 4 {
            return Err(Error::Truncated);
        }
        let m: usize = cnt as usize;
        let mut sl: Vec<u32> = Vec::new();
        let mut j: usize = 0;
        while j < m
            invariant
                j <= m,
                rb.wf(),
                rb.sdata() == rec@,
                rb.spos() == 4 + 4 * j,
                4 + 4 * m <= rec@.len(),
                sl@ =~= Seq::new(j as nat, |t: int| be4(rec@, 4 + 4 * t) as u32),
            decreases m - j,
        {
            let v: u32 = match rb.read_u32() {
                Ok(v) => v,
                Err(_) => {
                    return Err(Error::Truncated);
                },
            };
            sl.push(v);
            j = j + 1;
            proof {
                assert(sl@ =~= Seq::new(j as nat, |t: int| be4(rec@, 4 + 4 * t) as u32));
            }
        }
        proof {
            assert(record_u32_slice(records@[k as int]@) == Some(sl@));
        }
        let ghost gprev = out@;
        out.push(sl);
        k = k + 1;
        proof {
            gprev.lemma_push_map_commute(|x: Vec<u32>| x@, out@.last());
            assert(out@.map_values(|x: Vec<u32>| x@) =~~= Seq::new(
                k as nat,
                |t: int| record_u32_slice(records@[t]@)->Some_0,
            ));
        }
    }
    proof {
        assert(Seq::new(records@.len(), |t: int| record_u32_slice(records@[t]@)->Some_0) =~~= out@.map_values(|x: Vec<u32>| x@));
    }
    Ok(out)
}

pub open spec fn u32_slices_of(cs: Seq<BranchChunks>) -> Option<Seq<Seq<u32>>>
    decreases cs.len(),
{
    if cs.len() == 0 {
        Some(Seq::empty())
    } else {
        match (u32_slices_of(cs.drop_last()), chunk_u32_slices(cs.last())) {
            (Some(a), Some(b)) => Some(a + b),
            _ => Option::<Seq<Seq<u32>>>::None,
        }
    }
}

proof fn lemma_u32_slices_of_step(cs: Seq<BranchChunks>, i: int)
    requires
        0 < i <= cs.len(),
    ensures
        u32_slices_of(cs.take(i)) == (match (u32_slices_of(cs.take(i - 1)), chunk_u32_slices(
            cs[i - 1],
        )) {
            (Some(a), Some(b)) => Some(a + b),
            _ => Option::<Seq<Seq<u32>>>::None,
        }),
{
    assert(cs.take(i).drop_last() =~= cs.take(i - 1));
    assert(cs.take(i).last() == cs[i - 1]);
}

proof fn lemma_u32_slices_of_bad(cs: Seq<BranchChunks>, i: int)
    requires
        0 <= i < cs.len(),
        chunk_u32_slices(cs[i]) is None,
    ensures
        u32_slices_of(cs) is None,
    decreases cs.len(),
{
    if cs.len() > 0 {
        if i == cs.len() - 1 {
            assert(cs.last() == cs[i]);
        } else {
            assert(cs.drop_last()[i] == cs[i]);
            lemma_u32_slices_of_bad(cs.drop_last(), i);
        }
    }
}

/// Reads every count-prefixed slice of 32-bit values from a chunk sequence
/// of delimited records.
pub fn u32_slices(chunks: &Vec<BranchChunks>) -> (r: Result<Vec<Vec<u32>>>)
    ensures
        r matches Ok(v) ==> u32_slices_of(chunks@) == Some(v@.map_values(|x: Vec<u32>| x@)),
        r is Err <==> u32_slices_of(chunks@) is None,
{
    let mut out: Vec<Vec<u32>> = Vec::new();
    let mut i: usize = 0;
    while i < chunks.len()
        invariant
            i <= chunks@.len(),
            u32_slices_of(chunks@.take(i as int)) == Some(out@.map_values(|x: Vec<u32>| x@)),
        decreases chunks@.len() - i,
    {
        let ghost pre = out@.map_values(|x: Vec<u32>| x@);
        match &chunks[i] {
            BranchChunks::RegularSized { .. } => {
                proof {
                    lemma_u32_slices_of_bad(chunks@, i as int);
                }
                return Err(
                    Error::TypeMismatch {
                        branch_type: String::from_str("fixed records"),
                        requested_type: String::from_str("u32 slice"),
                    },
                );
            },
            BranchChunks::IrregularSized { n, records } => {
                let mut part: Vec<Vec<u32>> = match slices_of_records(*n, records) {
                    Ok(v) => v,
                    Err(e) => {
                        proof {
                            lemma_u32_slices_of_bad(chunks@, i as int);
                        }
                        return Err(e);
                    },
                };
                let ghost gpart = part@.map_values(|x: Vec<u32>| x@);
                out.append(&mut part);
                proof {
                    assert(out@.map_values(|x: Vec<u32>| x@) =~~= pre + gpart);
                }
            },
        }
        i = i + 1;
        proof {
            lemma_u32_slices_of_step(chunks@, i as int);
        }
    }
    proof {
        assert(chunks@.take(chunks@.len() as int) =~= chunks@);
    }
    Ok(out)
}

/// The `n` successive length-prefixed strings starting at `i`, when they
/// all lie inside the bytes; the shape a string branch's basket stores its
/// values in, back to back.
pub open spec fn strs_from(s: Seq<u8>, i: int, n: int) -> Option<Seq<Seq<char>>>
    decreases n,
{
    if n <= 0 {
        if n == 0 {
            Some(Seq::empty())
        } else {
            Option::None
        }
    } else if i < 0 || i + 1 > s.len() || i + str_prefix_len(s, i) + str_payload_len(s, i)
        > s.len() {
        Option::None
    } else {
        let e = i + str_prefix_len(s, i) + str_payload_len(s, i);
        match strs_from(s, e, n - 1) {
            Some(rest) => Some(
                seq![utf8_lossy(s.subrange(i + str_prefix_len(s, i), e))] + rest,
            ),
            Option::None => Option::None,
        }
    }
}

/// The text a length-prefixed string record decodes to, when the record is
/// long enough; trailing bytes after the string are ignored.
pub open spec fn record_string(rec: Seq<u8>) -> Option<Seq<char>> {
    if rec.len() >= 1 && str_prefix_len(rec, 0) + str_payload_len(rec, 0) <= rec.len() {
        Some(
            utf8_lossy(
                rec.subrange(str_prefix_len(rec, 0), str_prefix_len(rec, 0) + str_payload_len(rec, 0)),
            ),
        )
    } else {
        Option::None
    }
}

/// The strings of one chunk's record list, when the stated count matches and
/// every record parses.
pub open spec fn irr_strings(n: i32, records: Seq<Vec<u8>>) -> Option<Seq<Seq<char>>> {
    if n >= 0 && n as int == records.len() && (forall|k: int|
        0 <= k < records.len() ==> record_string(#[trigger] records[k]@) is Some) {
        Some(Seq::new(records.len(), |k: int| record_string(records[k]@)->Some_0))
    } else {
        Option::None
    }
}

pub open spec fn chunk_strings(c: BranchChunks) -> Option<Seq<Seq<char>>> {
    match c {
        BranchChunks::RegularSized { n, stride: _, bytes } => if n >= 0 {
            strs_from(bytes@, 0, n as int)
        } else {
            Option::None
        },
        BranchChunks::IrregularSized { n, records } => irr_strings(n, records@),
    }
}

/// Reads the strings of one chunk's record list.
fn strings_of_records(n: i32, records: &Vec<Vec<u8>>) -> (r: Result<Vec<String>>)
    ensures
        r matches Ok(v) ==> irr_strings(n, records@) == Some(v@.map_values(|x: String| x@)),
        r is Err <==> irr_strings(n, records@) is None,
{
    if n < 0 || n as usize != records.len() {
        return Err(
            Error::TypeMismatch {
                branch_type: String::from_str("record count"),
                requested_type: String::from_str("string"),
            },
        );
    }
    let mut out: Vec<String> = Vec::new();
    let mut k: usize = 0;
    while k < records.len()
        invariant
            n as int == records@.len(),
            k <= records@.len(),
            forall|t: int| 0 <= t < k ==> record_string(#[trigger] records@[t]@) is Some,
            out@.map_values(|x: String| x@) =~~= Seq::new(
                k as nat,
                |t: int| record_string(records@[t]@)->Some_0,
            ),
        decreases records@.len() - k,
    {
        let rec: &Vec<u8> = &records[k];
        let mut rb = RBuffer::new(rec.clone(), 0);
        let s: String = match rb.read_string() {
            Ok(v) => v,
            Err(_) => {
                return Err(Error::Truncated);
            },
        };
        proof {
            assert(record_string(records@[k as int]@) == Some(s@));
        }
        let ghost gprev = out@;
        out.push(s);
        k = k + 1;
        proof {
            gprev.lemma_push_map_commute(|x: String| x@, out@.last());
            assert(out@.map_values(|x: String| x@) =~~= Seq::new(
                k as nat,
                |t: int| record_string(records@[t]@)->Some_0,
            ));
        }
    }
    proof {
        assert(Seq::new(records@.len(), |t: int| record_string(records@[t]@)->Some_0) =~~= out@.map_values(|x: String| x@));
    }
    Ok(out)
}

pub open spec fn strings_of(cs: Seq<BranchChunks>) -> Option<Seq<Seq<char>>>
    decreases cs.len(),
{
    if cs.len() == 0 {
        Some(Seq::empty())
    } else {
        match (strings_of(cs.drop_last()), chunk_strings(cs.last())) {
            (Some(a), Some(b)) => Some(a + b),
            _ => Option::<Seq<Seq<char>>>::None,
        }
    }
}

proof fn lemma_strings_of_step(cs: Seq<BranchChunks>, i: int)
    requires
        0 < i <= cs.len(),
    ensures
        strings_of(cs.take(i)) == (match (strings_of(cs.take(i - 1)), chunk_strings(cs[i - 1])) {
            (Some(a), Some(b)) => Some(a + b),
            _ => Option::<Seq<Seq<char>>>::None,
        }),
{
    assert(cs.take(i).drop_last() =~= cs.take(i - 1));
    assert(cs.take(i).last() == cs[i - 1]);
}

proof fn lemma_strings_of_bad(cs: Seq<BranchChunks>, i: int)
    requires
        0 <= i < cs.len(),
        chunk_strings(cs[i]) is None,
    ensures
        strings_of(cs) is None,
    decreases cs.len(),
{
    if cs.len() > 0 {
        if i == cs.len() - 1 {
            assert(cs.last() == cs[i]);
        } else {
            assert(cs.drop_last()[i] == cs[i]);
            lemma_strings_of_bad(cs.drop_last(), i);
        }
    }
}

/// Reads every length-prefixed string from a chunk sequence of delimited
/// records.
pub fn string_values(chunks: &Vec<BranchChunks>) -> (r: Result<Vec<String>>)
    ensures
        r matches Ok(v) ==> strings_of(chunks@) == Some(v@.map_values(|x: String| x@)),
        r is Err <==> strings_of(chunks@) is None,
{
    let mut out: Vec<String> = Vec::new();
    let mut i: usize = 0;
    while i < chunks.len()
        invariant
            i <= chunks@.len(),
            strings_of(chunks@.take(i as int)) == Some(out@.map_values(|x: String| x@)),
        decreases chunks@.len() - i,
    {
        let ghost pre = out@.map_values(|x: String| x@);
        match &chunks[i] {
            BranchChunks::RegularSized { n, stride: _, bytes } => {
                if *n < 0 {
                    proof {
                        lemma_strings_of_bad(chunks@, i as int);
                    }
                    return Err(
                        Error::TypeMismatch {
                            branch_type: String::from_str("record count"),
                            requested_type: String::from_str("string"),
                        },
                    );
                }
                let count: usize = *n as usize;
                let ghost s0 = bytes@;
                let mut rb = RBuffer::new(bytes.clone(), 0);
                let mut part: Vec<String> = Vec::new();
                proof {
                    let w = strs_from(s0, 0, count as int);
                    if w is Some {
                        assert(Seq::<Seq<char>>::empty() + w->Some_0 =~~= w->Some_0);
                    }
                }
                proof {
                    assert(chunk_strings(chunks@[i as int]) == strs_from(s0, 0, count as int));
                }
                let mut k: usize = 0;
                while k < count
                    invariant
                        k <= count,
                        i < chunks@.len(),
                        chunk_strings(chunks@[i as int]) == strs_from(s0, 0, count as int),
                        rb.wf(),
                        rb.sdata() == s0,
                        part@.len() == k,
                        strs_from(s0, 0, count as int) == (match strs_from(
                            s0,
                            rb.spos(),
                            count - k,
                        ) {
                            Some(rest) => Some(part@.map_values(|x: String| x@) + rest),
                            Option::None => Option::<Seq<Seq<char>>>::None,
                        }),
                    decreases count - k,
                {
                    let v: String = match rb.read_string() {
                        Ok(v) => v,
                        Err(_) => {
                            proof {
                                lemma_strings_of_bad(chunks@, i as int);
                            }
                            return Err(Error::Truncated);
                        },
                    };
                    let ghost gprev = part@;
                    part.push(v);
                    k = k + 1;
                    proof {
                        gprev.lemma_push_map_commute(|x: String| x@, part@.last());
                        let w = strs_from(s0, 0, count as int);
                        if w is Some {
                            assert(part@.map_values(|x: String| x@) + strs_from(
                                s0,
                                rb.spos(),
                                count - k,
                            )->Some_0 =~~= w->Some_0);
                        }
                    }
                }
                proof {
                    assert(strs_from(s0, 0, count as int) == Some(
                        part@.map_values(|x: String| x@),
                    ));
                }
                let ghost gpart = part@.map_values(|x: String| x@);
                out.append(&mut part);
                proof {
                    assert(out@.map_values(|x: String| x@) =~~= pre + gpart);
                }
            },
            BranchChunks::IrregularSized { n, records } => {
                let mut part: Vec<String> = match strings_of_records(*n, records) {
                    Ok(v) => v,
                    Err(e) => {
                        proof {
                            lemma_strings_of_bad(chunks@, i as int);
                        }
                        return Err(e);
                    },
                };
                let ghost gpart = part@.map_values(|x: String| x@);
                out.append(&mut part);
                proof {
                    assert(out@.map_values(|x: String| x@) =~~= pre + gpart);
                }
            },
        }
        i = i + 1;
        proof {
            lemma_strings_of_step(chunks@, i as int);
        }
    }
    proof {
        assert(chunks@.take(chunks@.len() as int) =~= chunks@);
    }
    Ok(out)
}

/// Re-reading the same chunks yields the identical value sequence: every
/// reader of this layer returns exactly the reading its specification
/// assigns to the chunks, so two successful readings of one chunk sequence
/// cannot differ.
pub proof fn lemma_rereading_u32_identical(cs: Seq<BranchChunks>, v1: Seq<u32>, v2: Seq<u32>)
    requires
        u32s_of(cs) == Some(v1),
        u32s_of(cs) == Some(v2),
    ensures
        v1 == v2,
{
}

/// Re-reading the same chunks yields the identical string sequence.
pub proof fn lemma_rereading_strings_identical(
    cs: Seq<BranchChunks>,
    v1: Seq<Seq<char>>,
    v2: Seq<Seq<char>>,
)
    requires
        strings_of(cs) == Some(v1),
        strings_of(cs) == Some(v2),
    ensures
        v1 == v2,
{
}

/// The 64-bit values a fixed-stride chunk sequence holds, when every stride
/// is eight.
pub open spec fn chunk_u64s(c: BranchChunks) -> Option<Seq<u64>> {
    match c {
        BranchChunks::RegularSized { n, stride, bytes } => {
            if stride == 8 && n >= 0 && 8 * (n as int) <= bytes@.len() {
                Some(Seq::new(n as nat, |k: int| crate::rbuffer::be8(bytes@, 8 * k) as u64))
            } else {
                Option::None
            }
        },
        BranchChunks::IrregularSized { .. } => Option::None,
    }
}

pub open spec fn u64s_of(cs: Seq<BranchChunks>) -> Option<Seq<u64>>
    decreases cs.len(),
{
    if cs.len() == 0 {
        Some(Seq::empty())
    } else {
        match (u64s_of(cs.drop_last()), chunk_u64s(cs.last())) {
            (Some(a), Some(b)) => Some(a + b),
            _ => Option::<Seq<u64>>::None,
        }
    }
}

proof fn lemma_u64s_of_step(cs: Seq<BranchChunks>, i: int)
    requires
        0 < i <= cs.len(),
    ensures
        u64s_of(cs.take(i)) == (match (u64s_of(cs.take(i - 1)), chunk_u64s(cs[i - 1])) {
            (Some(a), Some(b)) => Some(a + b),
            _ => Option::<Seq<u64>>::None,
        }),
{
    assert(cs.take(i).drop_last() =~= cs.take(i - 1));
    assert(cs.take(i).last() == cs[i - 1]);
}

proof fn lemma_u64s_of_bad(cs: Seq<BranchChunks>, i: int)
    requires
        0 <= i < cs.len(),
        chunk_u64s(cs[i]) is None,
    ensures
        u64s_of(cs) is None,
    decreases cs.len(),
{
    if cs.len() > 0 {
        if i == cs.len() - 1 {
            assert(cs.last() == cs[i]);
        } else {
            assert(cs.drop_last()[i] == cs[i]);
            lemma_u64s_of_bad(cs.drop_last(), i);
        }
    }
}

/// Reads every 64-bit big-endian value of a fixed-stride chunk sequence; the
/// stride of every chunk must be eight.
pub fn u64_values(chunks: &Vec<BranchChunks>) -> (r: Result<Vec<u64>>)
    ensures
        r matches Ok(v) ==> u64s_of(chunks@) == Some(v@),
        r is Err <==> u64s_of(chunks@) is None,
{
    let mut out: Vec<u64> = Vec::new();
    let mut i: usize = 0;
    while i < chunks.len()
        invariant
            i <= chunks@.len(),
            u64s_of(chunks@.take(i as int)) == Some(out@),
        decreases chunks@.len() - i,
    {
        let ghost pre = out@;
        match &chunks[i] {
            BranchChunks::RegularSized { n, stride, bytes } => {
                if *stride != 8 || *n < 0 {
                    proof {
                        lemma_u64s_of_bad(chunks@, i as int);
                    }
                    return Err(
                        Error::TypeMismatch {
                            branch_type: String::from_str("record stride"),
                            requested_type: String::from_str("u64"),
                        },
                    );
                }
                let count: usize = *n as usize;
                if count > bytes.len() / 8 {
                    proof {
                        assert(8 * count > bytes@.len()) by (nonlinear_arith)
                            requires
                                count > bytes@.len() as int / 8,
                        ;
                        lemma_u64s_of_bad(chunks@, i as int);
                    }
                    return Err(Error::Truncated);
                }
                proof {
                    assert(8 * count <= bytes@.len()) by (nonlinear_arith)
                        requires
                            count <= bytes@.len() as int / 8,
                    ;
                }
                let mut rb = RBuffer::new(bytes.clone(), 0);
                let mut k: usize = 0;
                while k < count
                    invariant
                        k <= count,
                        rb.wf(),
                        rb.sdata() == bytes@,
                        rb.spos() == 8 * k,
                        8 * count <= bytes@.len(),
                        out@.len() == pre.len() + k,
                        out@ =~= pre + Seq::new(
                            k as nat,
                            |t: int| crate::rbuffer::be8(bytes@, 8 * t) as u64,
                        ),
                    decreases count - k,
                {
                    let v: u64 = match rb.read_u64() {
                        Ok(v) => v,
                        Err(_) => {
                            return Err(Error::Truncated);
                        },
                    };
                    out.push(v);
                    k = k + 1;
                    proof {
                        assert(out@ =~= pre + Seq::new(
                            k as nat,
                            |t: int| crate::rbuffer::be8(bytes@, 8 * t) as u64,
                        ));
                    }
                }
            },
            BranchChunks::IrregularSized { .. } => {
                proof {
                    lemma_u64s_of_bad(chunks@, i as int);
                }
                return Err(
                    Error::TypeMismatch {
                        branch_type: String::from_str("variable records"),
                        requested_type: String::from_str("u64"),
                    },
                );
            },
        }
        i = i + 1;
        proof {
            lemma_u64s_of_step(chunks@, i as int);
        }
    }
    proof {
        assert(chunks@.take(chunks@.len() as int) =~= chunks@);
    }
    Ok(out)
}

} // verus!
