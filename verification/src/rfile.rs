//! Random access over one file image, the 64-byte file header, the top
//! directory and its key index, and the object loader built on them.

use vstd::prelude::*;
use vstd::string::StringSliceAdditionalSpecFns;

use crate::error::{Error, Result};
use crate::rbuffer::{lossy_string, sbe2, sbe4, sbe8, utf8_lossy, RBuffer};
use crate::rcompress::{decompress_payload, payload_inflation};
use crate::rkey::{key_record_fits, Key};
use crate::rmeta::{StreamerInfo, StreamerInfoContext};
use crate::tree::Tree;

verus! {

/// A cheap position-less handle over the file's bytes: every read names its
/// absolute offset, so independently held handles cannot disturb each other.
#[derive(Debug, Clone)]
pub struct RootFileReader {
    data: Vec<u8>,
}

impl RootFileReader {
    /// The bytes this handle reads from.
    pub closed spec fn sdata(&self) -> Seq<u8> {
        self.data@
    }

    pub fn new(data: Vec<u8>) -> (r: RootFileReader)
        ensures
            r.sdata() == data@,
    {
        RootFileReader { data }
    }

    pub fn len(&self) -> (r: usize)
        ensures
            r as int == self.sdata().len(),
    {
        self.data.len()
    }

    /// Copies `n` bytes starting at absolute offset `start`.
    pub fn read_at(&self, start: u64, n: u64) -> (r: Result<Vec<u8>>)
        ensures
            r is Ok <==> start + n <= self.sdata().len(),
            r matches Ok(v) ==> v@ == self.sdata().subrange(start as int, start as int + n as int),
            r is Err ==> r == Result::<Vec<u8>>::Err(Error::Io),
    {
        let dlen: usize = self.data.len();
        if start > dlen as u64 || n > dlen as u64 - start {
            return Err(Error::Io);
        }
        let s: usize = start as usize;
        let e: usize = s + n as usize;
        let slice: &[u8] = vstd::slice::slice_subrange(self.data.as_slice(), s, e);
        let out: Vec<u8> = vstd::slice::slice_to_vec(slice);
        Ok(out)
    }
}

/// The fixed-offset file header. Seek fields are 32-bit below file version
/// one million and 64-bit from it on.
#[derive(Debug)]
pub struct FileHeader {
    pub version: i32,
    /// Offset of the top directory record.
    pub begin: i64,
    /// Offset just past the last stored byte: the file's size.
    pub end: i64,
    pub seek_free: i64,
    pub nbytes_free: i32,
    pub n_free: i32,
    /// Stored length of the top directory's name records.
    pub nbytes_name: i32,
    /// Width of the file's seek fields: four or eight.
    pub units: u8,
    pub compression: i32,
    /// Offset of the streamer-info key.
    pub seek_info: i64,
    pub nbytes_info: i32,
}

impl FileHeader {
    /// Decodes the file header: the magic, the version, and the layout
    /// bookkeeping, with seek widths picked by the version.
    pub fn unmarshal(r: &mut RBuffer) -> (res: Result<FileHeader>)
        requires
            old(r).wf(),
            old(r).spos() == 0,
        ensures
            final(r).same_frame(old(r)),
            final(r).wf(),
            res matches Ok(h) ==> {
                let s = old(r).sdata();
                &&& s.len() >= 4
                &&& s[0] == 0x72 && s[1] == 0x6f && s[2] == 0x6f && s[3] == 0x74
                &&& h.version as int == sbe4(s, 4)
                &&& h.begin as int == sbe4(s, 8)
                &&& (sbe4(s, 4) >= 1_000_000 ==> h.end as int == sbe8(s, 12)
                    && h.seek_info as int == sbe8(s, 45) && h.units as int == be_u8(s, 40))
                &&& (sbe4(s, 4) < 1_000_000 ==> h.end as int == sbe4(s, 12)
                    && h.seek_info as int == sbe4(s, 37) && h.units as int == be_u8(s, 32))
            },
            ({
                let s = old(r).sdata();
                (s.len() >= 4 && !(s[0] == 0x72 && s[1] == 0x6f && s[2] == 0x6f && s[3] == 0x74))
                    ==> (res matches Err(e) && e is MagicMismatch)
            }),
    {
        let m0: u8 = match r.read_u8() {
            Ok(v) => v,
            Err(e) => {
                return Err(e);
            },
        };
        let m1: u8 = match r.read_u8() {
            Ok(v) => v,
            Err(e) => {
                return Err(e);
            },
        };
        let m2: u8 = match r.read_u8() {
            Ok(v) => v,
            Err(e) => {
                return Err(e);
            },
        };
        let m3: u8 = match r.read_u8() {
            Ok(v) => v,
            Err(e) => {
                return Err(e);
            },
        };
        if !(m0 == 0x72 && m1 == 0x6f && m2 == 0x6f && m3 == 0x74) {
            return Err(Error::MagicMismatch);
        }
        let version: i32 = match r.read_i32() {
            Ok(v) => v,
            Err(e) => {
                return Err(e);
            },
        };
        let begin: i64 = match r.read_i32() {
            Ok(v) => v as i64,
            Err(e) => {
                return Err(e);
            },
        };
        let wide: bool = version >= 1_000_000;
        let end: i64;
        let seek_free: i64;
        if wide {
            end = match r.read_i64() {
                Ok(v) => v,
                Err(e) => {
                    return Err(e);
                },
            };
            seek_free = match r.read_i64() {
                Ok(v) => v,
                Err(e) => {
                    return Err(e);
                },
            };
        } else {
            end = match r.read_i32() {
                Ok(v) => v as i64,
                Err(e) => {
                    return Err(e);
                },
            };
            seek_free = match r.read_i32() {
                Ok(v) => v as i64,
                Err(e) => {
                    return Err(e);
                },
            };
        }
        let nbytes_free: i32 = match r.read_i32() {
            Ok(v) => v,
            Err(e) => {
                return Err(e);
            },
        };
        let n_free: i32 = match r.read_i32() {
            Ok(v) => v,
            Err(e) => {
                return Err(e);
            },
        };
        let nbytes_name: i32 = match r.read_i32() {
            Ok(v) => v,
            Err(e) => {
                return Err(e);
            },
        };
        let units: u8 = match r.read_u8() {
            Ok(v) => v,
            Err(e) => {
                return Err(e);
            },
        };
        let compression: i32 = match r.read_i32() {
            Ok(v) => v,
            Err(e) => {
                return Err(e);
            },
        };
        let seek_info: i64;
        if wide {
            seek_info = match r.read_i64() {
                Ok(v) => v,
                Err(e) => {
                    return Err(e);
                },
            };
        } else {
            seek_info = match r.read_i32() {
                Ok(v) => v as i64,
                Err(e) => {
                    return Err(e);
                },
            };
        }
        let nbytes_info: i32 = match r.read_i32() {
            Ok(v) => v,
            Err(e) => {
                return Err(e);
            },
        };
        Ok(
            FileHeader {
                version,
                begin,
                end,
                seek_free,
                nbytes_free,
                n_free,
                nbytes_name,
                units,
                compression,
                seek_info,
                nbytes_info,
            },
        )
    }
}

/// The byte of `s` at `i`, as an integer.
pub open spec fn be_u8(s: Seq<u8>, i: int) -> int {
    s[i] as int
}

/// An opened file: its header, its reader handle, the keys of the top
/// directory indexed in stored order, and the streamer-info catalog.
pub struct RootFile {
    pub reader: RootFileReader,
    pub header: FileHeader,
    pub keys: Vec<Key>,
    pub sinfos: StreamerInfoContext,
}

impl RootFile {
    /// Opens a file image: decodes the file header, requires the declared
    /// end-of-file to equal the image's size, then reads the top directory
    /// and its key list.
    #[verifier::loop_isolation(false)]
    pub fn open(data: Vec<u8>) -> (res: Result<RootFile>)
        ensures
            res matches Ok(f) ==> f.header.end as int == data@.len(),
            res matches Ok(f) ==> forall|j: int|
                0 <= j < f.keys@.len() ==> {
                    let k = #[trigger] f.keys@[j];
                    &&& k.seek_key >= 0
                    &&& k.total_bytes >= 0
                    &&& k.seek_key + k.total_bytes <= f.reader.sdata().len()
                    &&& key_record_fits(
                        f.reader.sdata().subrange(
                            k.seek_key as int,
                            k.seek_key + k.total_bytes,
                        ),
                        0,
                    )
                    &&& k.total_bytes as int == sbe4(f.reader.sdata(), k.seek_key as int)
                    &&& k.obj_bytes as int == sbe4(f.reader.sdata(), k.seek_key + 6)
                    &&& k.key_len as int == sbe2(f.reader.sdata(), k.seek_key + 14)
                    &&& k.cycle as int == sbe2(f.reader.sdata(), k.seek_key + 16)
                },
            (data@.len() >= 4 && data@.len() + 1 <= u64::MAX && !(data@[0] == 0x72 && data@[1]
                == 0x6f && data@[2] == 0x6f && data@[3] == 0x74)) ==> (res matches Err(e) && e
                is MagicMismatch),
    {
        let reader = RootFileReader::new(data);
        let flen: usize = reader.len();
        if flen as u64 > u64::MAX - 1 {
            return Err(Error::Truncated);
        }
        let head_len: u64 = if flen > 300 {
            300
        } else {
            flen as u64
        };
        let head: Vec<u8> = match reader.read_at(0, head_len) {
            Ok(v) => v,
            Err(_) => {
                return Err(Error::Truncated);
            },
        };
        let ghost ghead = head@;
        let mut hr = RBuffer::new(head, 0);
        let header = match FileHeader::unmarshal(&mut hr) {
            Ok(v) => v,
            Err(e) => {
                return Err(e);
            },
        };
        proof {
            // A decoded header vouches for the magic over the whole image.
            if reader.sdata().len() >= 4 {
                assert(ghead[0] == reader.sdata()[0]);
                assert(ghead[1] == reader.sdata()[1]);
                assert(ghead[2] == reader.sdata()[2]);
                assert(ghead[3] == reader.sdata()[3]);
            }
        }
        if header.end < 0 || header.end as u64 != flen as u64 {
            return Err(Error::Truncated);
        }
        // The top directory record sits after the directory's own key and
        // name records, `nbytes_name` bytes past `begin`.
        if header.begin < 0 || header.nbytes_name < 0 {
            return Err(Error::Truncated);
        }
        let begin: u64 = header.begin as u64;
        if begin > flen as u64 {
            return Err(Error::Truncated);
        }
        let dir_bytes: Vec<u8> = match reader.read_at(begin, flen as u64 - begin) {
            Ok(v) => v,
            Err(_) => {
                return Err(Error::Truncated);
            },
        };
        let mut dr = RBuffer::new(dir_bytes, begin);
        match Key::unmarshal(&mut dr) {
            Ok(_) => (),
            Err(e) => {
                return Err(e);
            },
        }
        match dr.set_pos(header.nbytes_name as usize) {
            Ok(_) => (),
            Err(e) => {
                return Err(e);
            },
        }
        let dir_vers: i16 = match dr.read_i16() {
            Ok(v) => v,
            Err(e) => {
                return Err(e);
            },
        };
        match dr.skip(8) {
            Ok(_) => (),
            Err(e) => {
                return Err(e);
            },
        }
        let nbytes_keys: i32 = match dr.read_i32() {
            Ok(v) => v,
            Err(e) => {
                return Err(e);
            },
        };
        match dr.read_i32() {
            Ok(_) => (),
            Err(e) => {
                return Err(e);
            },
        }
        let seek_keys: i64;
        if dir_vers > 1000 {
            match dr.skip(16) {
                Ok(_) => (),
                Err(e) => {
                    return Err(e);
                },
            }
            seek_keys = match dr.read_i64() {
                Ok(v) => v,
                Err(e) => {
                    return Err(e);
                },
            };
        } else {
            match dr.skip(8) {
                Ok(_) => (),
                Err(e) => {
                    return Err(e);
                },
            }
            seek_keys = match dr.read_i32() {
                Ok(v) => v as i64,
                Err(e) => {
                    return Err(e);
                },
            };
        }
        if seek_keys < 0 || nbytes_keys < 0 {
            return Err(Error::Truncated);
        }
        let kl_bytes: Vec<u8> = match reader.read_at(seek_keys as u64, nbytes_keys as u64) {
            Ok(v) => v,
            Err(_) => {
                return Err(Error::Truncated);
            },
        };
        let mut kr = RBuffer::new(kl_bytes, seek_keys as u64);
        match Key::unmarshal(&mut kr) {
            Ok(_) => (),
            Err(e) => {
                return Err(e);
            },
        }
        let nkeys: i32 = match kr.read_i32() {
            Ok(v) => v,
            Err(e) => {
                return Err(e);
            },
        };
        if nkeys < 0 {
            return Err(Error::Truncated);
        }
        let mut keys: Vec<Key> = Vec::new();
        let mut i: i32 = 0;
        while i < nkeys
            invariant
                kr.wf(),
            decreases nkeys - i,
        {
            let k = match Key::unmarshal(&mut kr) {
                Ok(v) => v,
                Err(e) => {
                    return Err(e);
                },
            };
            keys.push(k);
            i = i + 1;
        }
        // Every indexed key must lie in the file and agree with the key
        // record stored at its seek; a directory that disagrees with the
        // bytes it points at is corrupt.
        let mut j: usize = 0;
        while j < keys.len()
            invariant
                forall|t: int|
                    0 <= t < j ==> {
                        let k = #[trigger] keys@[t];
                        &&& k.seek_key >= 0
                        &&& k.total_bytes >= 0
                        &&& k.seek_key + k.total_bytes <= reader.sdata().len()
                        &&& key_record_fits(
                            reader.sdata().subrange(
                                k.seek_key as int,
                                k.seek_key + k.total_bytes,
                            ),
                            0,
                        )
                        &&& k.total_bytes as int == sbe4(reader.sdata(), k.seek_key as int)
                        &&& k.obj_bytes as int == sbe4(reader.sdata(), k.seek_key + 6)
                        &&& k.key_len as int == sbe2(reader.sdata(), k.seek_key + 14)
                        &&& k.cycle as int == sbe2(reader.sdata(), k.seek_key + 16)
                    },
            decreases keys@.len() - j,
        {
            let k = &keys[j];
            if k.seek_key < 0 || k.total_bytes < 0 {
                return Err(Error::Truncated);
            }
            let kb: Vec<u8> = match reader.read_at(k.seek_key as u64, k.total_bytes as u64) {
                Ok(v) => v,
                Err(_) => {
                    return Err(Error::Truncated);
                },
            };
            let mut kr = RBuffer::new(kb, 0);
            let k2 = match Key::unmarshal(&mut kr) {
                Ok(v) => v,
                Err(_) => {
                    return Err(Error::Truncated);
                },
            };
            if k2.total_bytes != k.total_bytes || k2.obj_bytes != k.obj_bytes || k2.key_len
                != k.key_len || k2.cycle != k.cycle
                || !crate::rbase::str_eq(k2.class_name.as_str(), k.class_name.as_str())
                || !crate::rbase::str_eq(k2.obj_name.as_str(), k.obj_name.as_str()) {
                return Err(Error::Truncated);
            }
            j = j + 1;
        }
        let mut file = RootFile { reader, header, keys, sinfos: StreamerInfoContext::new() };
        if file.header.seek_info > 0 && file.header.nbytes_info > 0 {
            file.sinfos = match file.load_streamer_catalog() {
                Ok(v) => v,
                Err(e) => {
                    return Err(e);
                },
            };
        }
        Ok(file)
    }

    /// Loads the schema-descriptor catalog from the key the file header
    /// points at: the key's payload is a stored list of schema descriptors,
    /// each read for its identity triple.
    fn load_streamer_catalog(&self) -> (res: Result<StreamerInfoContext>)
        requires
            self.header.seek_info > 0,
            self.header.nbytes_info > 0,
    {
        let seg: Vec<u8> = match self.reader.read_at(
            self.header.seek_info as u64,
            self.header.nbytes_info as u64,
        ) {
            Ok(v) => v,
            Err(e) => {
                return Err(e);
            },
        };
        let mut kr = RBuffer::new(seg, self.header.seek_info as u64);
        let k = match Key::unmarshal(&mut kr) {
            Ok(v) => v,
            Err(e) => {
                return Err(e);
            },
        };
        let payload: Vec<u8> = match self.load_key_payload(&k) {
            Ok(v) => v,
            Err(e) => {
                return Err(e);
            },
        };
        if k.key_len < 0 || payload.len() as u64 > u64::MAX - k.key_len as u64 {
            return Err(Error::Truncated);
        }
        let mut rb = RBuffer::new(payload, k.key_len as u64);
        let hdr = match rb.read_header() {
            Ok(h) => h,
            Err(e) => {
                return Err(e);
            },
        };
        match crate::rbase::Object::unmarshal(&mut rb) {
            Ok(_) => (),
            Err(e) => {
                return Err(e);
            },
        }
        match rb.read_string() {
            Ok(_) => (),
            Err(e) => {
                return Err(e);
            },
        }
        let n: i32 = match rb.read_i32() {
            Ok(v) => v,
            Err(e) => {
                return Err(e);
            },
        };
        if n < 0 {
            return Err(Error::Truncated);
        }
        let mut infos: Vec<StreamerInfo> = Vec::new();
        let mut i: i32 = 0;
        while i < n
            invariant
                rb.wf(),
            decreases n - i,
        {
            let tag = match rb.read_object_tag() {
                Ok(t) => t,
                Err(e) => {
                    return Err(e);
                },
            };
            match tag {
                crate::rbuffer::ObjTag::Absent => (),
                crate::rbuffer::ObjTag::Backref(_) => {
                    return Err(Error::UnknownClass(String::new()));
                },
                crate::rbuffer::ObjTag::Fresh(cname) => {
                    if !crate::rbase::str_eq(cname.as_str(), "TStreamerInfo") {
                        return Err(Error::UnknownClass(cname));
                    }
                    let si = match StreamerInfo::unmarshal(&mut rb) {
                        Ok(v) => v,
                        Err(e) => {
                            return Err(e);
                        },
                    };
                    infos.push(si);
                },
                crate::rbuffer::ObjTag::Seen(cname) => {
                    if !crate::rbase::str_eq(cname.as_str(), "TStreamerInfo") {
                        return Err(Error::UnknownClass(cname));
                    }
                    let si = match StreamerInfo::unmarshal(&mut rb) {
                        Ok(v) => v,
                        Err(e) => {
                            return Err(e);
                        },
                    };
                    infos.push(si);
                },
            }
            // Each list element carries an option string after the object.
            let optlen: u8 = match rb.read_u8() {
                Ok(v) => v,
                Err(e) => {
                    return Err(e);
                },
            };
            match rb.skip(optlen as usize) {
                Ok(_) => (),
                Err(e) => {
                    return Err(e);
                },
            }
            i = i + 1;
        }
        match rb.check_header(&hdr) {
            Ok(_) => (),
            Err(e) => {
                return Err(e);
            },
        }
        Ok(StreamerInfoContext { infos })
    }

    /// Looks up the key with the given name and exactly the given cycle. A
    /// missing cycle is `KeyNotFound`; it never falls back to another cycle.
    pub fn get_key_cycle(&self, name: &str, cycle: i16) -> (res: Result<&Key>)
        ensures
            res matches Ok(k) ==> exists|j: int|
                0 <= j < self.keys@.len() && k == &self.keys@[j] && (#[trigger] self.keys@[j]).obj_name@ == name@ && self.keys@[j].cycle == cycle,
            res is Err ==> forall|j: int|
                0 <= j < self.keys@.len() ==> !((#[trigger] self.keys@[j]).obj_name@ == name@
                    && self.keys@[j].cycle == cycle),
            res matches Err(e) ==> e matches Error::KeyNotFound { name: n, cycle: c } && n@
                == name@ && c == cycle,
    {
        let mut j: usize = 0;
        while j < self.keys.len()
            invariant
                j <= self.keys@.len(),
                forall|t: int|
                    0 <= t < j ==> !((#[trigger] self.keys@[t]).obj_name@ == name@ && self.keys@[t].cycle == cycle),
            decreases self.keys@.len() - j,
        {
            if crate::rbase::str_eq(self.keys[j].obj_name.as_str(), name) && self.keys[j].cycle
                == cycle {
                return Ok(&self.keys[j]);
            }
            j = j + 1;
        }
        Err(Error::KeyNotFound { name: String::from_str(name), cycle })
    }

    /// Looks up the key with the given name and the highest cycle.
    pub fn get_key(&self, name: &str) -> (res: Result<&Key>)
        ensures
            res matches Ok(k) ==> (exists|j: int|
                0 <= j < self.keys@.len() && k == &self.keys@[j] && (#[trigger] self.keys@[j]).obj_name@ == name@) && (forall|j: int|
                0 <= j < self.keys@.len() && (#[trigger] self.keys@[j]).obj_name@ == name@
                    ==> self.keys@[j].cycle <= k.cycle),
            res is Err ==> forall|j: int|
                0 <= j < self.keys@.len() ==> (#[trigger] self.keys@[j]).obj_name@ != name@,
            res matches Err(e) ==> e is ObjectNotInDirectory,
    {
        let mut best: Option<usize> = None;
        let mut j: usize = 0;
        while j < self.keys.len()
            invariant
                j <= self.keys@.len(),
                best matches Some(b) ==> b < j && (#[trigger] self.keys@[b as int]).obj_name@
                    == name@ && (forall|t: int|
                    0 <= t < j && (#[trigger] self.keys@[t]).obj_name@ == name@ ==> self.keys@[t].cycle <= self.keys@[b as int].cycle),
                best is None ==> forall|t: int|
                    0 <= t < j ==> (#[trigger] self.keys@[t]).obj_name@ != name@,
            decreases self.keys@.len() - j,
        {
            if crate::rbase::str_eq(self.keys[j].obj_name.as_str(), name) {
                match best {
                    None => {
                        best = Some(j);
                    },
                    Some(b) => {
                        if self.keys[j].cycle > self.keys[b].cycle {
                            best = Some(j);
                        }
                    },
                }
            }
            j = j + 1;
        }
        match best {
            Some(b) => Ok(&self.keys[b]),
            None => Err(Error::ObjectNotInDirectory(String::from_str(name))),
        }
    }

    /// The bytes a key stores on disk: the span of `total_bytes - key_len`
    /// bytes at `seek_key + key_len`.
    pub open spec fn key_stored_bytes(&self, k: Key) -> Seq<u8> {
        self.reader.sdata().subrange(
            k.seek_key + k.key_len,
            k.seek_key + k.total_bytes,
        )
    }

    /// Whether a key's size fields are coherent and its stored span lies
    /// inside the file.
    pub open spec fn key_in_file(&self, k: Key) -> bool {
        &&& k.seek_key >= 0
        &&& k.key_len >= 0
        &&& k.obj_bytes >= 0
        &&& k.total_bytes >= k.key_len as i32
        &&& k.seek_key + k.total_bytes <= self.reader.sdata().len()
    }

    /// Loads the stored payload a key points at: the bytes after the key at
    /// `seek_key + key_len` as they are, or their inflation to `obj_bytes`
    /// when the stored size is smaller than the object's uncompressed size.
    /// Succeeds exactly when the key lies in the file and its payload
    /// decodes.
    pub fn load_key_payload(&self, k: &Key) -> (res: Result<Vec<u8>>)
        ensures
            res is Ok <==> self.key_in_file(*k) && (k.obj_bytes as int > k.total_bytes as int
                - k.key_len as int ==> payload_inflation(
                self.key_stored_bytes(*k),
                k.obj_bytes as int,
            ) is Some),
            res matches Ok(v) ==> {
                let stored = k.total_bytes as int - k.key_len as int;
                &&& (k.obj_bytes as int <= stored ==> v@ == self.key_stored_bytes(*k))
                &&& (k.obj_bytes as int > stored ==> payload_inflation(
                    self.key_stored_bytes(*k),
                    k.obj_bytes as int,
                ) == Some(v@) && v@.len() == k.obj_bytes as int)
            },
    {
        if k.seek_key < 0 || k.key_len < 0 || k.obj_bytes < 0 || k.total_bytes < k.key_len as i32 {
            return Err(Error::Truncated);
        }
        let stored: i64 = k.total_bytes as i64 - k.key_len as i64;
        let raw: Vec<u8> = match self.reader.read_at(
            k.seek_key as u64 + k.key_len as u64,
            stored as u64,
        ) {
            Ok(v) => v,
            Err(e) => {
                return Err(e);
            },
        };
        proof {
            assert(raw@ =~= self.key_stored_bytes(*k));
        }
        if k.obj_bytes as i64 > stored {
            decompress_payload(raw.as_slice(), k.obj_bytes as usize)
        } else {
            Ok(raw)
        }
    }

    /// Loads a named object's payload. A trailing `;n` in the name selects
    /// cycle `n` exactly; without one the newest cycle of the name wins.
    /// What comes back is the requested key's stored span, or its inflation
    /// to that key's uncompressed size.
    pub fn get_object(&self, name: &str) -> (res: Result<Vec<u8>>)
        ensures
            res matches Ok(v) ==> exists|j: int|
                0 <= j < self.keys@.len() && {
                    let k = #[trigger] self.keys@[j];
                    let stored = k.total_bytes as int - k.key_len as int;
                    &&& key_matches_request(k, name@)
                    &&& (!cycle_suffix_ok(vstd::utf8::encode_utf8(name@)) ==> forall|t: int|
                        0 <= t < self.keys@.len() && (#[trigger] self.keys@[t]).obj_name@ == name@
                            ==> self.keys@[t].cycle <= k.cycle)
                    &&& (k.obj_bytes as int <= stored ==> v@ == self.key_stored_bytes(k))
                    &&& (k.obj_bytes as int > stored ==> payload_inflation(
                        self.key_stored_bytes(k),
                        k.obj_bytes as int,
                    ) == Some(v@) && v@.len() == k.obj_bytes as int)
                },
    {
        let (plain, cycle) = split_name_cycle(name);
        let k: &Key = match cycle {
            Some(c) => {
                match self.get_key_cycle(plain.as_str(), c) {
                    Ok(v) => v,
                    Err(e) => {
                        return Err(e);
                    },
                }
            },
            None => {
                match self.get_key(plain.as_str()) {
                    Ok(v) => v,
                    Err(e) => {
                        return Err(e);
                    },
                }
            },
        };
        self.load_key_payload(k)
    }

    /// Loads and decodes the named tree, attaching this file's reader handle
    /// so the tree's branches can fetch their baskets. The tree comes from
    /// the requested key.
    pub fn get_tree(&self, name: &str) -> (res: Result<Tree>)
        ensures
            res matches Ok(t) ==> t.wf(),
            res is Ok ==> exists|j: int|
                0 <= j < self.keys@.len() && key_matches_request(#[trigger] self.keys@[j], name@),
    {
        let (plain, cycle) = split_name_cycle(name);
        let k: &Key = match cycle {
            Some(c) => {
                match self.get_key_cycle(plain.as_str(), c) {
                    Ok(v) => v,
                    Err(e) => {
                        return Err(e);
                    },
                }
            },
            None => {
                match self.get_key(plain.as_str()) {
                    Ok(v) => v,
                    Err(e) => {
                        return Err(e);
                    },
                }
            },
        };
        let payload: Vec<u8> = match self.load_key_payload(k) {
            Ok(v) => v,
            Err(e) => {
                return Err(e);
            },
        };
        if payload.len() as u64 > u64::MAX - k.key_len as u64 || k.key_len < 0 {
            return Err(Error::Truncated);
        }
        let mut rb = RBuffer::new(payload, k.key_len as u64);
        let mut tree: Tree = match Tree::unmarshal(&mut rb) {
            Ok(v) => v,
            Err(e) => {
                return Err(e);
            },
        };
        tree.reader = Some(self.reader.clone());
        tree.sinfos = Some(self.sinfos.clone());
        Ok(tree)
    }
}

/// Position of the last `;` in the bytes, or a negative value when none.
pub open spec fn last_semi(b: Seq<u8>) -> int
    decreases b.len(),
{
    if b.len() == 0 {
        -1
    } else if b[b.len() - 1] == 59 {
        b.len() - 1
    } else {
        last_semi(b.drop_last())
    }
}

pub open spec fn all_digits(b: Seq<u8>) -> bool {
    forall|i: int| 0 <= i < b.len() ==> 48 <= #[trigger] b[i] <= 57
}

/// The decimal value of a digit run.
pub open spec fn digits_val(b: Seq<u8>) -> int
    decreases b.len(),
{
    if b.len() == 0 {
        0
    } else {
        digits_val(b.drop_last()) * 10 + (b[b.len() - 1] - 48)
    }
}

/// Whether the bytes end in a well-formed cycle request: a `;`, then one or
/// more digits whose value fits the cycle field.
pub open spec fn cycle_suffix_ok(b: Seq<u8>) -> bool {
    let m = last_semi(b);
    &&& 0 <= m
    &&& m + 1 < b.len()
    &&& all_digits(b.skip(m + 1))
    &&& digits_val(b.skip(m + 1)) <= 32767
}

proof fn lemma_last_semi_at(b: Seq<u8>, j: int)
    requires
        0 <= j < b.len(),
        b[j] == 59,
        forall|t: int| j < t < b.len() ==> b[t] != 59,
    ensures
        last_semi(b) == j,
    decreases b.len(),
{
    if j < b.len() - 1 {
        assert(b.drop_last()[j] == b[j]);
        lemma_last_semi_at(b.drop_last(), j);
    }
}

proof fn lemma_no_semi(b: Seq<u8>)
    requires
        forall|t: int| 0 <= t < b.len() ==> b[t] != 59,
    ensures
        last_semi(b) < 0,
    decreases b.len(),
{
    if b.len() > 0 {
        lemma_no_semi(b.drop_last());
    }
}

proof fn lemma_digits_val_nonneg(b: Seq<u8>)
    requires
        all_digits(b),
    ensures
        digits_val(b) >= 0,
    decreases b.len(),
{
    if b.len() > 0 {
        assert(all_digits(b.drop_last()));
        lemma_digits_val_nonneg(b.drop_last());
    }
}

/// A digit run's value only grows as digits are appended.
proof fn lemma_digits_val_grow(b: Seq<u8>, t: int)
    requires
        all_digits(b),
        0 <= t <= b.len(),
    ensures
        digits_val(b.take(t)) <= digits_val(b),
    decreases b.len() - t,
{
    if t < b.len() {
        assert(b.take(t + 1).drop_last() =~= b.take(t));
        assert(all_digits(b.take(t)));
        lemma_digits_val_nonneg(b.take(t));
        lemma_digits_val_grow(b, t + 1);
    } else {
        assert(b.take(t) =~= b);
    }
}

/// Whether a key is the one a request names: under a well-formed trailing
/// cycle request, the name before the `;` and exactly that cycle; otherwise
/// the whole request as the name.
pub open spec fn key_matches_request(k: Key, req: Seq<char>) -> bool {
    let b = vstd::utf8::encode_utf8(req);
    if cycle_suffix_ok(b) {
        &&& k.obj_name@ == utf8_lossy(b.take(last_semi(b)))
        &&& k.cycle as int == digits_val(b.skip(last_semi(b) + 1))
    } else {
        k.obj_name@ == req
    }
}

/// Splits a trailing `;n` cycle request off an object name, exactly when the
/// bytes end in one whose value fits; anything else leaves the name whole.
fn split_name_cycle(s: &str) -> (r: (String, Option<i16>))
    ensures
        r.1 is None <==> !cycle_suffix_ok(s.spec_bytes()),
        r.1 is None ==> r.0@ == s@,
        r.1 matches Some(c) ==> ({
            let b = s.spec_bytes();
            let m = last_semi(b);
            &&& c >= 0
            &&& c as int == digits_val(b.skip(m + 1))
            &&& r.0@ == utf8_lossy(b.take(m))
        }),
{
    let bytes: &[u8] = s.as_bytes();
    let ghost gb = s.spec_bytes();
    let n: usize = bytes.len();
    let mut semi: usize = n;
    let mut j: usize = n;
    while j > 0
        invariant_except_break
            semi == n,
            forall|t: int| j <= t < n ==> gb[t] != 59,
        invariant
            n == gb.len(),
            bytes@ == gb,
            j <= n,
            semi <= n,
        ensures
            semi <= n,
            semi == n ==> forall|t: int| 0 <= t < n ==> gb[t] != 59,
            semi < n ==> gb[semi as int] == 59 && (forall|t: int|
                semi < t < n ==> gb[t] != 59),
        decreases j,
    {
        j = j - 1;
        if bytes[j] == 59 {
            semi = j;
            break ;
        }
    }
    if semi == n {
        proof {
            lemma_no_semi(gb);
        }
        return (String::from_str(s), None);
    }
    proof {
        lemma_last_semi_at(gb, semi as int);
    }
    if semi + 1 >= n {
        return (String::from_str(s), None);
    }
    let ghost gm = semi as int;
    let ghost gd = gb.skip(gm + 1);
    let mut val: i64 = 0;
    let mut i: usize = semi + 1;
    while i < n
        invariant
            gb == s.spec_bytes(),
            n == gb.len(),
            bytes@ == gb,
            gm == semi as int,
            gd == gb.skip(gm + 1),
            last_semi(gb) == gm,
            0 <= gm && gm + 1 < gb.len(),
            semi + 1 <= i <= n,
            0 <= val <= 32767,
            forall|t: int| 0 <= t < i - gm - 1 ==> 48 <= #[trigger] gd[t] <= 57,
            val as int == digits_val(gd.take(i - gm - 1)),
        decreases n - i,
    {
        let d: u8 = bytes[i];
        if d < 48 || d > 57 {
            proof {
                assert(gd[i - gm - 1] == gb[i as int]);
                assert(!all_digits(gd));
                assert(!cycle_suffix_ok(gb));
            }
            return (String::from_str(s), None);
        }
        val = val * 10 + (d - 48) as i64;
        proof {
            assert(gd.take(i - gm) =~= gd.take(i - gm - 1).push(gb[i as int]));
            assert(gd.take(i - gm).drop_last() =~= gd.take(i - gm - 1));
        }
        if val > 32767 {
            proof {
                if all_digits(gd) {
                    lemma_digits_val_grow(gd, i - gm);
                }
                assert(!cycle_suffix_ok(gb));
            }
            return (String::from_str(s), None);
        }
        i = i + 1;
    }
    proof {
        assert(gd.take(n - gm - 1) =~= gd);
        assert(cycle_suffix_ok(gb));
    }
    let name_bytes: &[u8] = vstd::slice::slice_subrange(bytes, 0, semi);
    let name: String = lossy_string(name_bytes);
    proof {
        assert(name_bytes@ =~= gb.take(gm));
    }
    (name, Some(val as i16))
}

} // verus!
