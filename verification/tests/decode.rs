//! End-to-end checks of the decoding pipeline on synthetic file images, plus
//! unit checks of the buffer, codec, key, and typed layers.

use oxyroot::basket::{Basket, BasketData};
use oxyroot::branch::{BranchChunks, TBranch};
use oxyroot::error::Error;
use oxyroot::leaf::{Leaf, LeafBase};
use oxyroot::rbase::Named;
use oxyroot::rbuffer::{f64_bits_to_i64, RBuffer};
use oxyroot::rcompress::{decompress_payload, is_compressed};
use oxyroot::rfile::{RootFile, RootFileReader};
use oxyroot::rkey::Key;
use oxyroot::rmeta::Enum;
use oxyroot::tree::{Tree, TioFeatures};
use oxyroot::typed;
use oxyroot::wbuffer::WBuffer;
use std::io::Write;

// ---- byte builders mirroring the on-disk layout ----

fn w_u16(out: &mut Vec<u8>, v: u16) {
    out.extend_from_slice(&v.to_be_bytes());
}

fn w_u32(out: &mut Vec<u8>, v: u32) {
    out.extend_from_slice(&v.to_be_bytes());
}

fn w_i32(out: &mut Vec<u8>, v: i32) {
    out.extend_from_slice(&v.to_be_bytes());
}

fn w_i64(out: &mut Vec<u8>, v: i64) {
    out.extend_from_slice(&v.to_be_bytes());
}

fn w_u64(out: &mut Vec<u8>, v: u64) {
    out.extend_from_slice(&v.to_be_bytes());
}

fn w_i16(out: &mut Vec<u8>, v: i16) {
    out.extend_from_slice(&v.to_be_bytes());
}

fn w_str(out: &mut Vec<u8>, s: &str) {
    let b = s.as_bytes();
    if b.len() < 255 {
        out.push(b.len() as u8);
    } else {
        out.push(255);
        w_u32(out, b.len() as u32);
    }
    out.extend_from_slice(b);
}

/// Frames `body` with a byte-count word (high bit set) and a version word.
fn framed(vers: u16, body: &[u8]) -> Vec<u8> {
    let mut out = Vec::new();
    w_u32(&mut out, 0x8000_0000 | (body.len() as u32 + 2));
    w_u16(&mut out, vers);
    out.extend_from_slice(body);
    out
}

/// The base-object part consumed by `skip_version` + id + bits.
fn obj_part(out: &mut Vec<u8>) {
    w_u16(out, 1);
    w_u32(out, 0);
    w_u32(out, 0x0300_0000);
}

fn named_record(name: &str, title: &str) -> Vec<u8> {
    let mut body = Vec::new();
    obj_part(&mut body);
    w_str(&mut body, name);
    w_str(&mut body, title);
    framed(1, &body)
}

fn tio_record() -> Vec<u8> {
    framed(1, &[0u8])
}

/// A stored object list holding the given tagged elements.
fn objarray(elems: &[Vec<u8>]) -> Vec<u8> {
    let mut body = Vec::new();
    obj_part(&mut body);
    w_str(&mut body, "");
    w_i32(&mut body, elems.len() as i32);
    w_i32(&mut body, 0);
    for e in elems {
        body.extend_from_slice(e);
    }
    framed(3, &body)
}

/// One list element: a new-class tag, the class name, then the record.
fn tagged(class: &str, rec: &[u8]) -> Vec<u8> {
    let mut out = Vec::new();
    w_u32(&mut out, 0xFFFF_FFFF);
    out.extend_from_slice(class.as_bytes());
    out.push(0);
    out.extend_from_slice(rec);
    out
}

/// A leaf record of the given class; `extra` is the width of the class's
/// typed range fields.
fn leaf_record(class: &str, name: &str, title: &str, len: i32, etype: i32) -> Vec<u8> {
    let extra: usize = match class {
        "TLeafB" | "TLeafO" => 2,
        "TLeafS" => 4,
        "TLeafI" | "TLeafF" | "TLeafC" => 8,
        "TLeafL" | "TLeafD" => 16,
        _ => 8,
    };
    let mut base = Vec::new();
    base.extend_from_slice(&named_record(name, title));
    w_i32(&mut base, len);
    w_i32(&mut base, etype);
    w_i32(&mut base, 0);
    base.push(0);
    base.push(0);
    w_u32(&mut base, 0);
    let base_rec = framed(2, &base);
    let mut body = Vec::new();
    body.extend_from_slice(&base_rec);
    body.extend_from_slice(&vec![0u8; extra]);
    framed(1, &body)
}

struct BranchCfg<'a> {
    name: &'a str,
    vers: u16,
    entries: i64,
    write_basket: i32,
    max_baskets: i32,
    entry_offset_len: i32,
    basket_bytes: Vec<i32>,
    basket_entry: Vec<i64>,
    basket_seek: Vec<i64>,
    leaves: Vec<Vec<u8>>,
    split_level: i32,
}

fn branch_record(c: &BranchCfg) -> Vec<u8> {
    assert!(c.vers >= 13);
    let mut body = Vec::new();
    body.extend_from_slice(&named_record(c.name, c.name));
    body.extend_from_slice(&framed(2, &[])); // fill attributes
    w_i32(&mut body, 0); // compress
    w_i32(&mut body, 32000); // basket size
    w_i32(&mut body, c.entry_offset_len);
    w_i32(&mut body, c.write_basket);
    w_i64(&mut body, c.entries); // entry number
    body.extend_from_slice(&tio_record());
    w_i32(&mut body, 0); // offset
    w_i32(&mut body, c.max_baskets);
    w_i32(&mut body, c.split_level);
    w_i64(&mut body, c.entries);
    w_i64(&mut body, 0); // first entry
    w_i64(&mut body, 0); // total bytes
    w_i64(&mut body, 0); // zipped bytes
    body.extend_from_slice(&objarray(&[])); // nested branches
    let leaf_elems: Vec<Vec<u8>> = c.leaves.clone();
    body.extend_from_slice(&objarray(&leaf_elems));
    body.extend_from_slice(&objarray(&[])); // embedded baskets
    let m = c.max_baskets as usize;
    body.push(1);
    for i in 0..m {
        w_i32(&mut body, *c.basket_bytes.get(i).unwrap_or(&0));
    }
    body.push(1);
    for i in 0..m {
        w_i64(&mut body, *c.basket_entry.get(i).unwrap_or(&0));
    }
    body.push(1);
    for i in 0..m {
        w_i64(&mut body, *c.basket_seek.get(i).unwrap_or(&0));
    }
    w_str(&mut body, "");
    framed(c.vers, &body)
}

/// A key record with 32-bit seeks.
fn key_record(total: i32, objlen: i32, klen: i16, cycle: i16, seek: i32, class: &str, name: &str) -> Vec<u8> {
    let mut out = Vec::new();
    w_i32(&mut out, total);
    w_i16(&mut out, 4);
    w_i32(&mut out, objlen);
    w_u32(&mut out, 0);
    w_i16(&mut out, klen);
    w_i16(&mut out, cycle);
    w_i32(&mut out, seek);
    w_i32(&mut out, 0);
    w_str(&mut out, class);
    w_str(&mut out, name);
    w_str(&mut out, "");
    out
}

/// A standalone basket record as pread from the file.
fn basket_record(nev: i32, payload: &[u8], offsets: Option<&[i32]>, objlen: i32) -> Vec<u8> {
    let klen: i16 = 40;
    let mut body = Vec::new();
    body.extend_from_slice(&key_record(0, objlen, klen, 1, 0, "TBasket", "b"));
    w_i32(&mut body, nev);
    w_i32(&mut body, klen as i32 + payload.len() as i32); // stated data end
    body.push(0); // header byte
    if let Some(offs) = offsets {
        assert_eq!(offs.len(), nev as usize + 1);
        for o in offs {
            w_i32(&mut body, *o);
        }
    }
    body.extend_from_slice(payload);
    framed(3, &body)
}

/// A whole file image holding one tree under the given key names/cycles;
/// each cycle gets its own on-disk copy so directory entries agree with the
/// key records they point at.
fn file_image(tree_rec: &[u8], keyed: &[(&str, i16)]) -> Vec<u8> {
    let begin: usize = 100;
    let dir_key = key_record(64, 0, 64, 1, begin as i32, "TDirectory", "f");
    let nbytes_name = dir_key.len() as i32;

    // One object segment per key: its key copy then the tree payload.
    let obj0 = begin + dir_key.len() + 30; // directory record is 30 bytes
    let mut segs: Vec<Vec<u8>> = Vec::new();
    let mut seeks: Vec<usize> = Vec::new();
    let mut at = obj0;
    for (nm, cyc) in keyed {
        let obj_klen = key_record(0, 0, 0, 1, 0, "TTree", nm).len() as i16;
        let mut seg = key_record(
            obj_klen as i32 + tree_rec.len() as i32,
            tree_rec.len() as i32,
            obj_klen,
            *cyc,
            at as i32,
            "TTree",
            nm,
        );
        assert_eq!(seg.len(), obj_klen as usize);
        seg.extend_from_slice(tree_rec);
        seeks.push(at);
        at += seg.len();
        segs.push(seg);
    }

    let seek_keys = at;
    let mut keyseg = Vec::new();
    keyseg.extend_from_slice(&key_record(0, 0, 0, 1, seek_keys as i32, "TFile", "f"));
    w_i32(&mut keyseg, keyed.len() as i32);
    for (i, (nm, cyc)) in keyed.iter().enumerate() {
        let obj_klen = key_record(0, 0, 0, 1, 0, "TTree", nm).len() as i16;
        keyseg.extend_from_slice(&key_record(
            obj_klen as i32 + tree_rec.len() as i32,
            tree_rec.len() as i32,
            obj_klen,
            *cyc,
            seeks[i] as i32,
            "TTree",
            nm,
        ));
    }

    // The schema-descriptor catalog: a stored list with one descriptor
    // carrying one member element.
    let seek_info = seek_keys + keyseg.len();
    let mut elem_base = Vec::new();
    elem_base.extend_from_slice(&named_record("fX", ""));
    w_i32(&mut elem_base, 3); // member type code
    w_i32(&mut elem_base, 4); // member size
    w_i32(&mut elem_base, 0); // array length
    w_i32(&mut elem_base, 0); // array dimension
    for _ in 0..5 {
        w_i32(&mut elem_base, 0); // index bounds
    }
    w_str(&mut elem_base, "Int_t");
    let elem_rec = framed(4, &framed(4, &elem_base));
    let mut si_rec_body = Vec::new();
    si_rec_body.extend_from_slice(&named_record("TNamed", ""));
    w_u32(&mut si_rec_body, 0xDEAD_BEEF);
    w_i32(&mut si_rec_body, 1);
    si_rec_body.extend_from_slice(&tagged(
        "TObjArray",
        &objarray(&[tagged("TStreamerBasicType", &elem_rec)]),
    ));
    let si_rec = framed(9, &si_rec_body);
    let mut list_body = Vec::new();
    obj_part(&mut list_body);
    w_str(&mut list_body, "");
    w_i32(&mut list_body, 1);
    list_body.extend_from_slice(&tagged("TStreamerInfo", &si_rec));
    list_body.push(0); // element option string
    let list = framed(5, &list_body);
    let si_klen = key_record(0, 0, 0, 1, 0, "TList", "StreamerInfo").len() as i16;
    let mut si_seg = key_record(
        si_klen as i32 + list.len() as i32,
        list.len() as i32,
        si_klen,
        1,
        seek_info as i32,
        "TList",
        "StreamerInfo",
    );
    si_seg.extend_from_slice(&list);
    let nbytes_info = si_seg.len() as i32;

    let end = seek_info + si_seg.len();

    let mut img = Vec::new();
    img.extend_from_slice(b"root");
    w_i32(&mut img, 60000);
    w_i32(&mut img, begin as i32);
    w_i32(&mut img, end as i32); // end of file
    w_i32(&mut img, 0); // free-list seek
    w_i32(&mut img, 0);
    w_i32(&mut img, 0);
    w_i32(&mut img, nbytes_name);
    img.push(4); // units
    w_i32(&mut img, 0); // compression
    w_i32(&mut img, seek_info as i32);
    w_i32(&mut img, nbytes_info);
    while img.len() < begin {
        img.push(0);
    }
    img.extend_from_slice(&dir_key);
    // Directory record: version, times, key-segment length, name length,
    // self and parent seeks, key-segment seek.
    w_i16(&mut img, 5);
    w_u32(&mut img, 0);
    w_u32(&mut img, 0);
    w_i32(&mut img, keyseg.len() as i32);
    w_i32(&mut img, nbytes_name);
    w_i32(&mut img, begin as i32);
    w_i32(&mut img, 0);
    w_i32(&mut img, seek_keys as i32);
    assert_eq!(img.len(), obj0);
    for seg in &segs {
        img.extend_from_slice(seg);
    }
    assert_eq!(img.len(), seek_keys);
    img.extend_from_slice(&keyseg);
    assert_eq!(img.len(), seek_info);
    img.extend_from_slice(&si_seg);
    assert_eq!(img.len(), end);
    img
}

fn tree_record(name: &str, entries: i64, branches: &[Vec<u8>]) -> Vec<u8> {
    let mut body = Vec::new();
    body.extend_from_slice(&named_record(name, name));
    body.extend_from_slice(&framed(2, &[])); // line attributes
    body.extend_from_slice(&framed(2, &[])); // fill attributes
    body.extend_from_slice(&framed(2, &[])); // marker attributes
    w_i64(&mut body, entries);
    w_i64(&mut body, 0);
    w_i64(&mut body, 0);
    w_i64(&mut body, 0);
    w_i64(&mut body, 0); // flushed bytes
    w_u64(&mut body, 0); // weight bits
    w_i32(&mut body, 0);
    w_i32(&mut body, 25);
    w_i32(&mut body, 0);
    w_i32(&mut body, 1000); // default entry-offset length
    w_i32(&mut body, 0); // cluster count
    w_i64(&mut body, 1000000000);
    w_i64(&mut body, 0);
    w_i64(&mut body, 0);
    w_i64(&mut body, 0);
    w_i64(&mut body, 0); // auto flush
    w_i64(&mut body, 1000000);
    body.push(1); // cluster ranges
    body.push(1); // cluster sizes
    body.extend_from_slice(&tio_record());
    body.extend_from_slice(&objarray(branches));
    body.extend_from_slice(&objarray(&[])); // redundant leaf list
    for _ in 0..7 {
        w_u32(&mut body, 0); // absent trailing objects
    }
    framed(20, &body)
}

fn leaf_i(name: &str, title: &str) -> Leaf {
    Leaf::I(LeafBase {
        named: Named::new(name.to_string(), title.to_string()),
        len: 1,
        etype: 4,
        offset: 0,
        is_range: false,
        is_unsigned: false,
        has_counter: false,
    })
}

fn leaf_f(name: &str, title: &str) -> Leaf {
    Leaf::F(LeafBase {
        named: Named::new(name.to_string(), title.to_string()),
        len: 1,
        etype: 4,
        offset: 0,
        is_range: false,
        is_unsigned: false,
        has_counter: false,
    })
}

// ---- the original's own check ----

#[test]
fn it_works() {
    let result = 2 + 2;
    assert_eq!(result, 4);
}

// ---- buffer primitives ----

#[test]
fn buffer_reads_big_endian_primitives() {
    let data = vec![0x01u8, 0x02, 0x03, 0x04, 0xff, 0xfe, 0x80, 0x00];
    let mut r = RBuffer::new(data, 0);
    assert_eq!(r.read_u16().unwrap(), 0x0102);
    assert_eq!(r.read_i16().unwrap(), 0x0304);
    assert_eq!(r.read_i16().unwrap(), -2);
    assert_eq!(r.read_i16().unwrap(), -32768);
    assert!(matches!(r.read_u16(), Err(Error::Truncated)));
}

#[test]
fn buffer_reads_strings_with_both_prefixes() {
    let mut data = Vec::new();
    w_str(&mut data, "hello");
    let long: String = "x".repeat(300);
    w_str(&mut data, &long);
    let mut r = RBuffer::new(data, 0);
    assert_eq!(r.read_string().unwrap(), "hello");
    let got = r.read_string().unwrap();
    assert_eq!(got.len(), 300);
    assert_eq!(got, long);
}

#[test]
fn f64_bit_patterns_truncate_like_casts() {
    for v in [0.0f64, 1.0, 2421.0, -7.9, 7.9, 1e18, -1e18, f64::NAN, f64::INFINITY, f64::NEG_INFINITY, 0.5, -0.5] {
        assert_eq!(f64_bits_to_i64(v.to_bits()), v as i64, "pattern {v}");
    }
}

// ---- versioned headers ----

#[test]
fn header_roundtrip_and_trailing_skip() {
    let body = vec![9u8, 9, 9, 9];
    let mut rec = framed(7, &body);
    rec.extend_from_slice(&[1, 2, 3, 4]); // bytes after the frame
    let mut r = RBuffer::new(rec, 0);
    let hdr = r.read_header().unwrap();
    assert_eq!(hdr.vers, 7);
    assert_eq!(hdr.byte_count, 6);
    // Consume nothing: check_header must skip the unread body.
    r.check_header(&hdr).unwrap();
    assert_eq!(r.pos(), 10);
    assert_eq!(r.read_u16().unwrap(), 0x0102);
}

// ---- keys ----

#[test]
fn key_fields_decode_exactly() {
    let rec = key_record(1234, 999, 77, 3, 4321, "TTree", "events");
    let mut r = RBuffer::new(rec, 0);
    let k = Key::unmarshal(&mut r).unwrap();
    assert_eq!(k.total_bytes, 1234);
    assert_eq!(k.version, 4);
    assert_eq!(k.obj_bytes, 999);
    assert_eq!(k.key_len, 77);
    assert_eq!(k.cycle, 3);
    assert_eq!(k.seek_key, 4321);
    assert_eq!(k.class_name, "TTree");
    assert_eq!(k.obj_name, "events");
}

// ---- member-type codes ----

#[test]
fn member_type_codes_roundtrip() {
    assert_eq!(Enum::from_i32(3), Some(Enum::Int));
    assert_eq!(Enum::from_i32(65), Some(Enum::TString));
    assert_eq!(Enum::from_i32(21), None);
    assert_eq!(Enum::Counter.to_i32(), 6);
    assert_eq!(Enum::Missing.to_i32(), 99999);
}

// ---- compression codec ----

fn zl_block(raw: &[u8]) -> Vec<u8> {
    let mut enc = flate2::write::ZlibEncoder::new(Vec::new(), flate2::Compression::default());
    enc.write_all(raw).unwrap();
    let comp = enc.finish().unwrap();
    let mut out = Vec::new();
    out.push(b'Z');
    out.push(b'L');
    out.push(8);
    let c = comp.len() as u32;
    let u = raw.len() as u32;
    out.extend_from_slice(&[(c & 0xff) as u8, ((c >> 8) & 0xff) as u8, ((c >> 16) & 0xff) as u8]);
    out.extend_from_slice(&[(u & 0xff) as u8, ((u >> 8) & 0xff) as u8, ((u >> 16) & 0xff) as u8]);
    out.extend_from_slice(&comp);
    out
}

fn l4_block(raw: &[u8]) -> Vec<u8> {
    let comp = lz4_flex::block::compress(raw);
    let sum = xxhash_rust::xxh64::xxh64(&comp, 0);
    let mut out = Vec::new();
    out.push(b'L');
    out.push(b'4');
    out.push(1);
    let c = comp.len() as u32 + 8;
    let u = raw.len() as u32;
    out.extend_from_slice(&[(c & 0xff) as u8, ((c >> 8) & 0xff) as u8, ((c >> 16) & 0xff) as u8]);
    out.extend_from_slice(&[(u & 0xff) as u8, ((u >> 8) & 0xff) as u8, ((u >> 16) & 0xff) as u8]);
    out.extend_from_slice(&sum.to_be_bytes());
    out.extend_from_slice(&comp);
    out
}

#[test]
fn zlib_payload_inflates_to_declared_length() {
    let raw: Vec<u8> = (0u16..600).map(|x| (x % 251) as u8).collect();
    let src = zl_block(&raw);
    assert!(is_compressed(&src));
    let out = decompress_payload(&src, raw.len()).unwrap();
    assert_eq!(out.len(), raw.len());
    assert_eq!(out, raw);
}

#[test]
fn multi_block_payload_concatenates() {
    let a: Vec<u8> = vec![7u8; 100];
    let b: Vec<u8> = vec![9u8; 50];
    let mut src = zl_block(&a);
    src.extend_from_slice(&zl_block(&b));
    let out = decompress_payload(&src, 150).unwrap();
    assert_eq!(&out[..100], &a[..]);
    assert_eq!(&out[100..], &b[..]);
}

#[test]
fn short_payload_is_rejected() {
    let raw: Vec<u8> = vec![1u8; 64];
    let src = zl_block(&raw);
    // Ask for more than the blocks provide.
    assert!(decompress_payload(&src, 65).is_err());
}

#[test]
fn lz4_roundtrip_passes_checksum() {
    let raw: Vec<u8> = (0u16..400).map(|x| (x / 3) as u8).collect();
    let src = l4_block(&raw);
    let out = decompress_payload(&src, raw.len()).unwrap();
    assert_eq!(out, raw);
}

#[test]
fn lz4_flipped_checksum_fails_without_partial_values() {
    let raw: Vec<u8> = (0u16..400).map(|x| (x / 3) as u8).collect();
    let mut src = l4_block(&raw);
    src[9] ^= 0x40; // corrupt the stored checksum
    let r = decompress_payload(&src, raw.len());
    assert!(matches!(r, Err(Error::ChecksumMismatch)));
}

// ---- branch decoding ----

fn one_leaf_i32() -> Vec<Vec<u8>> {
    vec![tagged("TLeafI", &leaf_record("TLeafI", "NMuon", "NMuon", 1, 4))]
}

fn simple_branch_cfg<'a>() -> BranchCfg<'a> {
    BranchCfg {
        name: "NMuon",
        vers: 13,
        entries: 5,
        write_basket: 2,
        max_baskets: 10,
        entry_offset_len: 0,
        basket_bytes: vec![60, 60],
        basket_entry: vec![0, 3, 5],
        basket_seek: vec![1000, 2000],
        leaves: one_leaf_i32(),
        split_level: 0,
    }
}

#[test]
fn branch_decodes_and_truncates_tables() {
    let rec = branch_record(&simple_branch_cfg());
    let mut r = RBuffer::new(rec, 0);
    let b = TBranch::unmarshal(&mut r).unwrap();
    assert_eq!(b.entries, 5);
    assert_eq!(b.write_basket, 2);
    assert_eq!(b.basket_bytes, vec![60, 60]);
    assert_eq!(b.basket_entry, vec![0, 3, 5]);
    assert_eq!(b.basket_seek, vec![1000, 2000]);
    // The entry table's last slot covers every entry.
    assert_eq!(b.basket_entry[b.write_basket as usize], b.entries);
    assert_eq!(b.leaves.len(), 1);
    assert_eq!(b.name(), "NMuon");
}

#[test]
fn branch_version_above_maximum_is_unsupported() {
    let mut cfg = simple_branch_cfg();
    cfg.vers = 99;
    let rec = branch_record(&cfg);
    let mut r = RBuffer::new(rec, 0);
    let e = TBranch::unmarshal(&mut r).unwrap_err();
    match e {
        Error::UnsupportedVersion { class, vers, max } => {
            assert_eq!(class, "TBranch");
            assert_eq!(vers, 99);
            assert_eq!(max, 13);
        },
        other => panic!("wrong error: {other:?}"),
    }
}

#[test]
fn branch_entry_table_mismatch_is_malformed() {
    let mut cfg = simple_branch_cfg();
    cfg.basket_entry = vec![0, 3, 4]; // does not reach the entry count
    let rec = branch_record(&cfg);
    let mut r = RBuffer::new(rec, 0);
    assert!(matches!(TBranch::unmarshal(&mut r), Err(Error::MalformedBranch)));
}

// ---- basket engine ----

fn i32_payload(vals: &[i32]) -> Vec<u8> {
    let mut out = Vec::new();
    for v in vals {
        w_i32(&mut out, *v);
    }
    out
}

/// Lays two plain baskets into a reader image at the branch's stated seeks.
fn engine_fixture(vals1: &[i32], vals2: &[i32], compress_first: bool) -> (TBranch, RootFileReader) {
    let p1 = i32_payload(vals1);
    let stored1 = if compress_first { zl_block(&p1) } else { p1.clone() };
    let klen = 40i32;
    let b1 = basket_record(vals1.len() as i32, &stored1, None, klen + p1.len() as i32);
    let b2 = basket_record(vals2.len() as i32, &i32_payload(vals2), None, 0);
    let mut img = vec![0u8; 1000];
    img.extend_from_slice(&b1);
    while img.len() < 2000 {
        img.push(0);
    }
    img.extend_from_slice(&b2);
    let mut cfg = simple_branch_cfg();
    cfg.entries = (vals1.len() + vals2.len()) as i64;
    cfg.basket_entry = vec![0, vals1.len() as i64, cfg.entries];
    cfg.basket_bytes = vec![b1.len() as i32, b2.len() as i32];
    let rec = branch_record(&cfg);
    let mut r = RBuffer::new(rec, 0);
    let b = TBranch::unmarshal(&mut r).unwrap();
    (b, RootFileReader::new(img))
}

#[test]
fn engine_chunk_counts_cover_entries() {
    let (b, reader) = engine_fixture(&[10, 20, 30], &[40, 50], false);
    let chunks = b.get_baskets_buffer(&reader).unwrap();
    assert_eq!(chunks.len(), 2);
    let total: i64 = chunks
        .iter()
        .map(|c| match c {
            BranchChunks::RegularSized { n, .. } => *n as i64,
            BranchChunks::IrregularSized { n, .. } => *n as i64,
        })
        .sum();
    assert_eq!(total, b.entries());
    let vals = typed::i32_values(&chunks).unwrap();
    assert_eq!(vals, vec![10, 20, 30, 40, 50]);
}

#[test]
fn engine_inflates_compressed_basket() {
    let (b, reader) = engine_fixture(&[7, 8, 9], &[1, 2], true);
    let chunks = b.get_baskets_buffer(&reader).unwrap();
    let vals = typed::i32_values(&chunks).unwrap();
    assert_eq!(vals, vec![7, 8, 9, 1, 2]);
}

#[test]
fn engine_surfaces_checksum_mismatch_without_values() {
    // An LZ4-compressed basket whose stored checksum was flipped: iteration
    // fails with the checksum error and yields nothing.
    let p1 = i32_payload(&[7, 8, 9]);
    let mut stored1 = l4_block(&p1);
    stored1[9] ^= 0x40;
    let klen = 40i32;
    let b1 = basket_record(3, &stored1, None, klen + p1.len() as i32);
    let b2 = basket_record(2, &i32_payload(&[1, 2]), None, 0);
    let mut img = vec![0u8; 1000];
    img.extend_from_slice(&b1);
    while img.len() < 2000 {
        img.push(0);
    }
    img.extend_from_slice(&b2);
    let mut cfg = simple_branch_cfg();
    cfg.entries = 5;
    cfg.basket_entry = vec![0, 3, 5];
    cfg.basket_bytes = vec![b1.len() as i32, b2.len() as i32];
    let rec = branch_record(&cfg);
    let mut r = RBuffer::new(rec, 0);
    let b = TBranch::unmarshal(&mut r).unwrap();
    let reader = RootFileReader::new(img);
    assert!(matches!(b.get_baskets_buffer(&reader), Err(Error::ChecksumMismatch)));
}

#[test]
fn string_branch_decodes_through_the_typed_layer() {
    // A string branch: back-to-back length-prefixed values in one basket,
    // one of them 300 bytes long to force the wide length prefix.
    let long: String = "z".repeat(300);
    let mut payload = Vec::new();
    w_str(&mut payload, "hello");
    w_str(&mut payload, &long);
    w_str(&mut payload, "bye");
    let b1 = basket_record(3, &payload, None, 0);
    let mut img = vec![0u8; 1000];
    img.extend_from_slice(&b1);
    let mut cfg = simple_branch_cfg();
    cfg.entries = 3;
    cfg.write_basket = 1;
    cfg.basket_entry = vec![0, 3];
    cfg.basket_bytes = vec![b1.len() as i32];
    cfg.basket_seek = vec![1000];
    cfg.leaves = vec![tagged("TLeafC", &leaf_record("TLeafC", "s", "s", 1, 1))];
    let rec = branch_record(&cfg);
    let mut r = RBuffer::new(rec, 0);
    let b = TBranch::unmarshal(&mut r).unwrap();
    let reader = RootFileReader::new(img);
    let chunks = b.get_baskets_buffer(&reader).unwrap();
    // A string leaf's chunk spans the basket's stated record range.
    assert!(matches!(
        chunks[0],
        BranchChunks::RegularSized { n: 3, stride, .. } if stride == payload.len() as i32
    ));
    let vals = typed::string_values(&chunks).unwrap();
    assert_eq!(vals, vec!["hello".to_string(), long, "bye".to_string()]);
}

#[test]
fn wrong_leaf_count_is_malformed_even_without_baskets() {
    // No written basket and no embedded one, but three leaves: neither the
    // broadcast rule nor the one-to-one rule fits, so nothing is yielded.
    let mut b = TBranch::new("empty".to_string());
    b.leaves.push(leaf_i("a", "a"));
    b.leaves.push(leaf_i("b", "b"));
    b.leaves.push(leaf_i("c", "c"));
    let reader = RootFileReader::new(Vec::new());
    assert!(matches!(b.get_baskets_buffer(&reader), Err(Error::MalformedBranch)));
}

#[test]
fn engine_rerequest_yields_identical_sequence() {
    let (b, reader) = engine_fixture(&[3, 1, 4, 1, 5], &[9, 2, 6], false);
    let first = typed::i32_values(&b.get_baskets_buffer(&reader).unwrap()).unwrap();
    let second = typed::i32_values(&b.get_baskets_buffer(&reader).unwrap()).unwrap();
    assert_eq!(first, second);
}

#[test]
fn branch_without_baskets_yields_empty_sequence() {
    let mut cfg = simple_branch_cfg();
    cfg.entries = 0;
    cfg.write_basket = 0;
    cfg.basket_bytes = vec![];
    cfg.basket_entry = vec![0];
    cfg.basket_seek = vec![];
    let rec = branch_record(&cfg);
    let mut r = RBuffer::new(rec, 0);
    let b = TBranch::unmarshal(&mut r).unwrap();
    let reader = RootFileReader::new(Vec::new());
    let chunks = b.get_baskets_buffer(&reader).unwrap();
    assert!(chunks.is_empty());
}

#[test]
fn engine_mismatched_chunk_count_is_malformed() {
    // The first basket claims four entries but the table assigns it three.
    let (b, reader) = {
        let p1 = i32_payload(&[1, 2, 3, 4]);
        let b1 = basket_record(4, &p1, None, 0);
        let b2 = basket_record(2, &i32_payload(&[5, 6]), None, 0);
        let mut img = vec![0u8; 1000];
        img.extend_from_slice(&b1);
        while img.len() < 2000 {
            img.push(0);
        }
        img.extend_from_slice(&b2);
        let mut cfg = simple_branch_cfg();
        cfg.entries = 5;
        cfg.basket_entry = vec![0, 3, 5];
        cfg.basket_bytes = vec![b1.len() as i32, b2.len() as i32];
        let rec = branch_record(&cfg);
        let mut r = RBuffer::new(rec, 0);
        (TBranch::unmarshal(&mut r).unwrap(), RootFileReader::new(img))
    };
    assert!(matches!(b.get_baskets_buffer(&reader), Err(Error::MalformedBranch)));
}

// ---- the write side ----

#[test]
fn marshalled_branch_decodes_back() {
    let rec = branch_record(&simple_branch_cfg());
    let mut r = RBuffer::new(rec, 0);
    let b = TBranch::unmarshal(&mut r).unwrap();
    let mut w = WBuffer::new();
    let n = b.marshal(&mut w).unwrap();
    let bytes = w.into_vec();
    assert_eq!(n as usize, bytes.len());
    let mut r2 = RBuffer::new(bytes, 0);
    let b2 = TBranch::unmarshal(&mut r2).unwrap();
    assert_eq!(b2.name(), b.name());
    assert_eq!(b2.entries, b.entries);
    assert_eq!(b2.write_basket, b.write_basket);
    assert_eq!(b2.basket_bytes, b.basket_bytes);
    assert_eq!(b2.basket_entry, b.basket_entry);
    assert_eq!(b2.basket_seek, b.basket_seek);
    assert_eq!(b2.leaves.len(), b.leaves.len());
    assert_eq!(b2.leaves[0].etype(), b.leaves[0].etype());
    assert_eq!(b2.item_type_name(), b.item_type_name());
    // The stored capacity is normalized to the default floor.
    assert_eq!(b2.max_baskets, 10);
}

// ---- basket shapes ----

#[test]
fn basket_with_offset_table_is_variable_stride() {
    let payload = vec![1u8, 2, 3, 4, 5, 6];
    let rec = basket_record(2, &payload, Some(&[0, 2, 6]), 0);
    let mut r = RBuffer::new(rec, 0);
    let b = Basket::unmarshal(&mut r, false, true).unwrap();
    match b.raw_data().unwrap() {
        BasketData::UnTrustNEntries(n, buf, offs) => {
            assert_eq!(n, 2);
            assert_eq!(buf, payload);
            assert_eq!(offs, vec![0, 2, 6]);
        },
        other => panic!("wrong shape: {other:?}"),
    }
}

// ---- item type names ----

fn branch_with_leaf(leaf: Leaf) -> TBranch {
    let mut b = TBranch::new("arr".to_string());
    b.leaves.push(leaf);
    b
}

#[test]
fn item_type_name_attaches_numeric_dimension() {
    let b = branch_with_leaf(leaf_f("arr", "arr[5]"));
    assert_eq!(b.item_type_name(), "float[5]");
}

#[test]
fn item_type_name_without_dimension_is_plain() {
    let b = branch_with_leaf(leaf_f("x", "x"));
    assert_eq!(b.item_type_name(), "float");
    let c = branch_with_leaf(leaf_i("n", "n"));
    assert_eq!(c.item_type_name(), "int32_t");
}

#[test]
fn item_type_name_with_symbolic_dimension_is_open() {
    let b = branch_with_leaf(leaf_f("px", "px[nMuon]"));
    assert_eq!(b.item_type_name(), "float[]");
}

#[test]
fn item_type_name_complete_keeps_every_dimension() {
    let b = branch_with_leaf(leaf_f("m", "m[2][3]"));
    assert_eq!(b.item_type_name_complete(), "float[2][3]");
    assert_eq!(b.item_type_name(), "float[2]");
}

#[test]
fn item_type_name_without_single_leaf_is_unknown() {
    let b = TBranch::new("empty".to_string());
    assert_eq!(b.item_type_name(), "unknown");
}

// ---- typed layer ----

#[test]
fn fixed_arrays_decode_with_matching_stride() {
    let mut bytes = Vec::new();
    for v in [1.5f32, 2.5, 3.5, 4.5, 5.5, 6.5, 7.5, 8.5, 9.5, 10.5] {
        w_u32(&mut bytes, v.to_bits());
    }
    let chunks = vec![BranchChunks::RegularSized { n: 2, stride: 20, bytes }];
    let arrays = typed::u32_arrays(&chunks, 5).unwrap();
    assert_eq!(arrays.len(), 2);
    let first: Vec<f32> = arrays[0].iter().map(|b| f32::from_bits(*b)).collect();
    assert_eq!(first, vec![1.5, 2.5, 3.5, 4.5, 5.5]);
    let second: Vec<f32> = arrays[1].iter().map(|b| f32::from_bits(*b)).collect();
    assert_eq!(second, vec![6.5, 7.5, 8.5, 9.5, 10.5]);
}

#[test]
fn slices_decode_count_prefixed_records() {
    let mut rec1 = Vec::new();
    w_i32(&mut rec1, 2);
    w_u32(&mut rec1, 10.0f32.to_bits());
    w_u32(&mut rec1, 20.0f32.to_bits());
    let mut rec2 = Vec::new();
    w_i32(&mut rec2, 0);
    let mut rec3 = Vec::new();
    w_i32(&mut rec3, 1);
    w_u32(&mut rec3, 30.0f32.to_bits());
    let chunks = vec![BranchChunks::IrregularSized { n: 3, records: vec![rec1, rec2, rec3] }];
    let slices = typed::u32_slices(&chunks).unwrap();
    assert_eq!(slices.len(), 3);
    let total: usize = slices.iter().map(|s| s.len()).sum();
    assert_eq!(total, 3);
    assert_eq!(f32::from_bits(slices[0][1]), 20.0);
    assert_eq!(f32::from_bits(slices[2][0]), 30.0);
}

#[test]
fn strings_decode_including_long_prefix() {
    let mut rec1 = Vec::new();
    w_str(&mut rec1, "hello");
    let long: String = "y".repeat(300);
    let mut rec2 = Vec::new();
    w_str(&mut rec2, &long);
    let chunks = vec![BranchChunks::IrregularSized { n: 2, records: vec![rec1, rec2] }];
    let strs = typed::string_values(&chunks).unwrap();
    assert_eq!(strs[0], "hello");
    assert_eq!(strs[1], long);
    assert_eq!(strs[1].len(), 300);
}

#[test]
fn wrong_width_request_is_a_type_mismatch() {
    let chunks = vec![BranchChunks::RegularSized { n: 1, stride: 4, bytes: vec![0, 0, 0, 1] }];
    assert!(matches!(typed::u64_values(&chunks), Err(Error::TypeMismatch { .. })));
}

// ---- file level ----

#[test]
fn open_rejects_wrong_magic() {
    let mut img = file_image(&tree_record("t", 0, &[]), &[("t", 1)]);
    img[0] = b'x';
    assert!(matches!(RootFile::open(img), Err(Error::MagicMismatch)));
}

#[test]
fn open_checks_declared_end_against_size() {
    let mut img = file_image(&tree_record("t", 0, &[]), &[("t", 1)]);
    img.push(0); // one trailing byte the header does not declare
    assert!(RootFile::open(img).is_err());
}

#[test]
fn header_at_version_boundary_uses_wide_seeks() {
    let mut img = Vec::new();
    img.extend_from_slice(b"root");
    w_i32(&mut img, 1_000_000);
    w_i32(&mut img, 100); // begin
    w_i64(&mut img, 77); // end: read as eight bytes exactly at the boundary
    w_i64(&mut img, 0);
    w_i32(&mut img, 0);
    w_i32(&mut img, 0);
    w_i32(&mut img, 0);
    img.push(8);
    w_i32(&mut img, 0);
    w_i64(&mut img, 55); // streamer-info seek, eight bytes
    w_i32(&mut img, 0);
    let mut r = RBuffer::new(img, 0);
    let h = oxyroot::rfile::FileHeader::unmarshal(&mut r).unwrap();
    assert_eq!(h.version, 1_000_000);
    assert_eq!(h.end, 77);
    assert_eq!(h.seek_info, 55);
    assert_eq!(h.units, 8);
}

fn small_file() -> Vec<u8> {
    // A branch with no baskets keeps the tree self-contained in the image.
    let mut cfg0 = simple_branch_cfg();
    cfg0.entries = 0;
    cfg0.write_basket = 0;
    cfg0.basket_bytes = vec![];
    cfg0.basket_entry = vec![0];
    cfg0.basket_seek = vec![];
    let branch0 = branch_record(&cfg0);
    let tree = tree_record("events", 0, &[tagged("TBranch", &branch0)]);
    file_image(&tree, &[("events", 1), ("events", 2)])
}

#[test]
fn open_finds_tree_and_branch() {
    let f = RootFile::open(small_file()).unwrap();
    let t = f.get_tree("events").unwrap();
    assert_eq!(t.entries(), 0);
    assert_eq!(t.name(), "events");
    let b = t.branch("NMuon").unwrap();
    assert_eq!(b.name(), "NMuon");
    assert!(t.branch("nope").is_none());
    assert_eq!(t.branches_r().len(), 1);
}

#[test]
fn open_loads_the_streamer_catalog() {
    let f = RootFile::open(small_file()).unwrap();
    let si = f.sinfos.get("TNamed", 1).expect("catalogued descriptor");
    assert_eq!(si.class_name, "TNamed");
    assert_eq!(si.checksum, 0xDEAD_BEEF);
    assert_eq!(si.elements.len(), 1);
    assert_eq!(si.elements[0].name, "fX");
    assert_eq!(si.elements[0].type_code, 3);
    assert_eq!(Enum::from_i32(si.elements[0].type_code), Some(Enum::Int));
    assert_eq!(si.elements[0].array_dim, 0);
    assert_eq!(si.elements[0].max_index, vec![0, 0, 0, 0, 0]);
    assert_eq!(si.elements[0].type_desc, "Int_t");
    assert!(f.sinfos.get_by_checksum("TNamed", 0xDEAD_BEEF).is_some());
    assert!(f.sinfos.get("TNamed", 2).is_none());
    assert!(f.sinfos.get("TTree", 1).is_none());
    let t = f.get_tree("events").unwrap();
    assert_eq!(t.sinfos.as_ref().unwrap().infos.len(), 1);
}

#[test]
fn unsupported_branch_version_surfaces_at_tree_load() {
    let mut cfg = simple_branch_cfg();
    cfg.vers = 99;
    cfg.entries = 0;
    cfg.write_basket = 0;
    cfg.basket_bytes = vec![];
    cfg.basket_entry = vec![0];
    cfg.basket_seek = vec![];
    let branch99 = branch_record(&cfg);
    let tree = tree_record("events", 0, &[tagged("TBranch", &branch99)]);
    let img = file_image(&tree, &[("events", 1)]);
    let f = RootFile::open(img).unwrap();
    match f.get_tree("events") {
        Err(Error::UnsupportedVersion { class, vers, max }) => {
            assert_eq!(class, "TBranch");
            assert_eq!(vers, 99);
            assert_eq!(max, 13);
        },
        Err(other) => panic!("wrong error kind: {other:?}"),
        Ok(_) => panic!("a tree with an unsupported branch must not load"),
    }
}

#[test]
fn missing_cycle_is_key_not_found_not_newest() {
    let f = RootFile::open(small_file()).unwrap();
    // Cycles one and two exist; nine must not fall back to the newest.
    assert!(f.get_tree("events;2").is_ok());
    let e = f.get_object("events;9").unwrap_err();
    match e {
        Error::KeyNotFound { name, cycle } => {
            assert_eq!(name, "events");
            assert_eq!(cycle, 9);
        },
        other => panic!("wrong error: {other:?}"),
    }
    // Without a cycle the newest one is chosen.
    assert!(f.get_object("events").is_ok());
    assert!(matches!(f.get_object("nothing"), Err(Error::ObjectNotInDirectory(_))));
}

#[test]
fn directory_keys_point_at_valid_key_headers() {
    let img = small_file();
    let f = RootFile::open(img.clone()).unwrap();
    let reader = RootFileReader::new(img);
    let k = f.get_key("events").unwrap();
    // A pread of the key's span at its seek must succeed and begin with a
    // key record matching the directory entry.
    let bytes = reader
        .read_at(k.seek_key as u64, k.total_bytes as u64)
        .unwrap();
    let mut r = RBuffer::new(bytes, 0);
    let on_disk = Key::unmarshal(&mut r).unwrap();
    assert_eq!(on_disk.obj_name, k.obj_name);
    assert_eq!(on_disk.obj_bytes, k.obj_bytes);
    assert_eq!(on_disk.key_len, k.key_len);
}

#[test]
fn tree_version_above_maximum_is_unsupported() {
    let body = named_record("t", "t");
    let rec = framed(21, &body);
    let mut r = RBuffer::new(rec, 0);
    match Tree::unmarshal(&mut r) {
        Err(Error::UnsupportedVersion { class, vers, max }) => {
            assert_eq!(class, "TTree");
            assert_eq!(vers, 21);
            assert_eq!(max, 20);
        },
        Err(other) => panic!("wrong error kind: {other:?}"),
        Ok(_) => panic!("a version above the maximum must not decode"),
    }
}

#[test]
fn io_features_decode_both_shapes() {
    let mut r = RBuffer::new(framed(1, &[0u8]), 0);
    assert_eq!(TioFeatures::unmarshal(&mut r).unwrap(), TioFeatures(0));
    let mut r2 = RBuffer::new(framed(1, &[1u8, 0, 0, 0, 42]), 0);
    assert_eq!(TioFeatures::unmarshal(&mut r2).unwrap(), TioFeatures(42));
}

#[test]
fn split_level_normalizes_with_nested_branches() {
    let mut inner = simple_branch_cfg();
    inner.entries = 0;
    inner.write_basket = 0;
    inner.basket_bytes = vec![];
    inner.basket_entry = vec![0];
    inner.basket_seek = vec![];
    let inner_rec = branch_record(&inner);
    // An outer branch with a nested branch and split level zero.
    let mut body = Vec::new();
    body.extend_from_slice(&named_record("outer", "outer"));
    body.extend_from_slice(&framed(2, &[]));
    w_i32(&mut body, 0);
    w_i32(&mut body, 32000);
    w_i32(&mut body, 0);
    w_i32(&mut body, 0); // no baskets written
    w_i64(&mut body, 0);
    body.extend_from_slice(&tio_record());
    w_i32(&mut body, 0);
    w_i32(&mut body, 10);
    w_i32(&mut body, 0); // split level zero
    w_i64(&mut body, 0);
    w_i64(&mut body, 0);
    w_i64(&mut body, 0);
    w_i64(&mut body, 0);
    body.extend_from_slice(&objarray(&[tagged("TBranch", &inner_rec)]));
    body.extend_from_slice(&objarray(&[]));
    body.extend_from_slice(&objarray(&[]));
    body.push(1);
    for _ in 0..10 {
        w_i32(&mut body, 0);
    }
    body.push(1);
    for _ in 0..10 {
        w_i64(&mut body, 0);
    }
    body.push(1);
    for _ in 0..10 {
        w_i64(&mut body, 0);
    }
    w_str(&mut body, "");
    let rec = framed(13, &body);
    let mut r = RBuffer::new(rec, 0);
    let b = TBranch::unmarshal(&mut r).unwrap();
    assert_eq!(b.split_level, 1);
    assert!(b.branch("NMuon").is_some());
}
