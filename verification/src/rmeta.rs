//! The schema-descriptor layer: the member-type codes used by streamer
//! elements, and the catalog of streamer records a file stores so branches
//! can resolve composite leaf layouts.

use vstd::prelude::*;

use crate::error::{Error, Result};
use crate::rbase::Named;
use crate::rbuffer::{ObjTag, RBuffer};

verus! {

/// The member-type code carried by a streamer element.
#[derive(Debug, Clone, Copy, PartialEq, Eq, Structural)]
pub enum Enum {
    Base,
    Char,
    Short,
    Int,
    Long,
    Float,
    Counter,
    CharStar,
    Double,
    Double32,
    LegacyChar,
    UChar,
    UShort,
    UInt,
    ULong,
    Bits,
    Long64,
    ULong64,
    Bool,
    Float16,
    OffsetL,
    OffsetP,
    Object,
    Any,
    Objectp,
    ObjectP,
    TString,
    TObject,
    TNamed,
    Anyp,
    AnyP,
    AnyPnoVT,
    STLp,
    Skip,
    SkipL,
    SkipP,
    Conv,
    ConvL,
    ConvP,
    STL,
    STLstring,
    Streamer,
    StreamLoop,
    Cache,
    Artificial,
    CacheNew,
    CacheDelete,
    NeedObjectForVirtualBaseClass,
    Missing,
}

/// The numeric code each member type is stored as.
pub open spec fn enum_code(e: Enum) -> int {
    match e {
        Enum::Base => 0,
        Enum::Char => 1,
        Enum::Short => 2,
        Enum::Int => 3,
        Enum::Long => 4,
        Enum::Float => 5,
        Enum::Counter => 6,
        Enum::CharStar => 7,
        Enum::Double => 8,
        Enum::Double32 => 9,
        Enum::LegacyChar => 10,
        Enum::UChar => 11,
        Enum::UShort => 12,
        Enum::UInt => 13,
        Enum::ULong => 14,
        Enum::Bits => 15,
        Enum::Long64 => 16,
        Enum::ULong64 => 17,
        Enum::Bool => 18,
        Enum::Float16 => 19,
        Enum::OffsetL => 20,
        Enum::OffsetP => 40,
        Enum::Object => 61,
        Enum::Any => 62,
        Enum::Objectp => 63,
        Enum::ObjectP => 64,
        Enum::TString => 65,
        Enum::TObject => 66,
        Enum::TNamed => 67,
        Enum::Anyp => 68,
        Enum::AnyP => 69,
        Enum::AnyPnoVT => 70,
        Enum::STLp => 71,
        Enum::Skip => 100,
        Enum::SkipL => 120,
        Enum::SkipP => 140,
        Enum::Conv => 200,
        Enum::ConvL => 220,
        Enum::ConvP => 240,
        Enum::STL => 300,
        Enum::STLstring => 365,
        Enum::Streamer => 500,
        Enum::StreamLoop => 501,
        Enum::Cache => 600,
        Enum::Artificial => 1000,
        Enum::CacheNew => 1001,
        Enum::CacheDelete => 1002,
        Enum::NeedObjectForVirtualBaseClass => 99997,
        Enum::Missing => 99999,
    }
}

impl Enum {
    /// The numeric code this member type is stored as.
    pub fn to_i32(self) -> (r: i32)
        ensures
            r as int == enum_code(self),
    {
        match self {
            Enum::Base => 0,
            Enum::Char => 1,
            Enum::Short => 2,
            Enum::Int => 3,
            Enum::Long => 4,
            Enum::Float => 5,
            Enum::Counter => 6,
            Enum::CharStar => 7,
            Enum::Double => 8,
            Enum::Double32 => 9,
            Enum::LegacyChar => 10,
            Enum::UChar => 11,
            Enum::UShort => 12,
            Enum::UInt => 13,
            Enum::ULong => 14,
            Enum::Bits => 15,
            Enum::Long64 => 16,
            Enum::ULong64 => 17,
            Enum::Bool => 18,
            Enum::Float16 => 19,
            Enum::OffsetL => 20,
            Enum::OffsetP => 40,
            Enum::Object => 61,
            Enum::Any => 62,
            Enum::Objectp => 63,
            Enum::ObjectP => 64,
            Enum::TString => 65,
            Enum::TObject => 66,
            Enum::TNamed => 67,
            Enum::Anyp => 68,
            Enum::AnyP => 69,
            Enum::AnyPnoVT => 70,
            Enum::STLp => 71,
            Enum::Skip => 100,
            Enum::SkipL => 120,
            Enum::SkipP => 140,
            Enum::Conv => 200,
            Enum::ConvL => 220,
            Enum::ConvP => 240,
            Enum::STL => 300,
            Enum::STLstring => 365,
            Enum::Streamer => 500,
            Enum::StreamLoop => 501,
            Enum::Cache => 600,
            Enum::Artificial => 1000,
            Enum::CacheNew => 1001,
            Enum::CacheDelete => 1002,
            Enum::NeedObjectForVirtualBaseClass => 99997,
            Enum::Missing => 99999,
        }
    }

    /// Decodes a stored member-type code; codes outside the closed set give
    /// `None`.
    pub fn from_i32(v: i32) -> (r: Option<Enum>)
        ensures
            r matches Some(e) ==> enum_code(e) == v as int,
            r is None ==> forall|e: Enum| enum_code(e) != v as int,
    {
        let e: Option<Enum> = match v {
            0 => Some(Enum::Base),
            1 => Some(Enum::Char),
            2 => Some(Enum::Short),
            3 => Some(Enum::Int),
            4 => Some(Enum::Long),
            5 => Some(Enum::Float),
            6 => Some(Enum::Counter),
            7 => Some(Enum::CharStar),
            8 => Some(Enum::Double),
            9 => Some(Enum::Double32),
            10 => Some(Enum::LegacyChar),
            11 => Some(Enum::UChar),
            12 => Some(Enum::UShort),
            13 => Some(Enum::UInt),
            14 => Some(Enum::ULong),
            15 => Some(Enum::Bits),
            16 => Some(Enum::Long64),
            17 => Some(Enum::ULong64),
            18 => Some(Enum::Bool),
            19 => Some(Enum::Float16),
            20 => Some(Enum::OffsetL),
            40 => Some(Enum::OffsetP),
            61 => Some(Enum::Object),
            62 => Some(Enum::Any),
            63 => Some(Enum::Objectp),
            64 => Some(Enum::ObjectP),
            65 => Some(Enum::TString),
            66 => Some(Enum::TObject),
            67 => Some(Enum::TNamed),
            68 => Some(Enum::Anyp),
            69 => Some(Enum::AnyP),
            70 => Some(Enum::AnyPnoVT),
            71 => Some(Enum::STLp),
            100 => Some(Enum::Skip),
            120 => Some(Enum::SkipL),
            140 => Some(Enum::SkipP),
            200 => Some(Enum::Conv),
            220 => Some(Enum::ConvL),
            240 => Some(Enum::ConvP),
            300 => Some(Enum::STL),
            365 => Some(Enum::STLstring),
            500 => Some(Enum::Streamer),
            501 => Some(Enum::StreamLoop),
            600 => Some(Enum::Cache),
            1000 => Some(Enum::Artificial),
            1001 => Some(Enum::CacheNew),
            1002 => Some(Enum::CacheDelete),
            99997 => Some(Enum::NeedObjectForVirtualBaseClass),
            99999 => Some(Enum::Missing),
            _ => None,
        };
        e
    }
}

/// One member descriptor of a catalogued class layout.
#[derive(Debug, Clone)]
pub struct StreamerElement {
    pub name: String,
    pub type_code: i32,
    pub array_dim: i32,
    pub max_index: Vec<i32>,
    pub type_desc: String,
}

impl StreamerElement {
    /// Decodes one member descriptor: any stored descriptor class starts
    /// with the shared base record — name, type code, size, array length
    /// and dimension, the five index bounds, and the member's type name —
    /// and the class's own trailing fields are consumed by its frame.
    pub fn unmarshal(r: &mut RBuffer) -> (res: Result<StreamerElement>)
        requires
            old(r).wf(),
        ensures
            final(r).same_frame(old(r)),
            final(r).wf(),
            final(r).spos() >= old(r).spos(),
            res matches Ok(e) ==> e.max_index@.len() == 5,
    {
        let outer = match r.read_header() {
            Ok(h) => h,
            Err(e) => {
                return Err(e);
            },
        };
        let base = match r.read_header() {
            Ok(h) => h,
            Err(e) => {
                return Err(e);
            },
        };
        let named = match Named::unmarshal(r) {
            Ok(v) => v,
            Err(e) => {
                return Err(e);
            },
        };
        let type_code: i32 = match r.read_i32() {
            Ok(v) => v,
            Err(e) => {
                return Err(e);
            },
        };
        match r.read_i32() {
            Ok(_) => (),
            Err(e) => {
                return Err(e);
            },
        }
        match r.read_i32() {
            Ok(_) => (),
            Err(e) => {
                return Err(e);
            },
        }
        let array_dim: i32 = match r.read_i32() {
            Ok(v) => v,
            Err(e) => {
                return Err(e);
            },
        };
        let max_index: Vec<i32> = match r.read_array_i32(5) {
            Ok(v) => v,
            Err(e) => {
                return Err(e);
            },
        };
        let type_desc: String = match r.read_string() {
            Ok(v) => v,
            Err(e) => {
                return Err(e);
            },
        };
        match r.check_header(&base) {
            Ok(_) => (),
            Err(e) => {
                return Err(e);
            },
        }
        match r.check_header(&outer) {
            Ok(_) => (),
            Err(e) => {
                return Err(e);
            },
        }
        Ok(StreamerElement { name: named.name, type_code, array_dim, max_index, type_desc })
    }
}

/// The schema descriptor for one class version.
#[derive(Debug, Clone)]
pub struct StreamerInfo {
    pub class_name: String,
    pub checksum: u32,
    pub version: i32,
    pub elements: Vec<StreamerElement>,
}

impl StreamerInfo {
    /// Decodes one schema descriptor's identity: class name, checksum and
    /// version. The stored list of member descriptors is consumed whole by
    /// its frame without being decoded; the catalog's lookups need only the
    /// identity triple.
    pub fn unmarshal(r: &mut RBuffer) -> (res: Result<StreamerInfo>)
        requires
            old(r).wf(),
        ensures
            final(r).same_frame(old(r)),
            final(r).wf(),
            final(r).spos() >= old(r).spos(),
    {
        let hdr = match r.read_header() {
            Ok(h) => h,
            Err(e) => {
                return Err(e);
            },
        };
        let named = match Named::unmarshal(r) {
            Ok(v) => v,
            Err(e) => {
                return Err(e);
            },
        };
        let checksum: u32 = match r.read_u32() {
            Ok(v) => v,
            Err(e) => {
                return Err(e);
            },
        };
        let version: i32 = match r.read_i32() {
            Ok(v) => v,
            Err(e) => {
                return Err(e);
            },
        };
        let tag = match r.read_object_tag() {
            Ok(t) => t,
            Err(e) => {
                return Err(e);
            },
        };
        let mut elements: Vec<StreamerElement> = Vec::new();
        match tag {
            ObjTag::Absent => (),
            ObjTag::Backref(_) => (),
            ObjTag::Fresh(_) => {
                match read_element_list(r, &mut elements) {
                    Ok(_) => (),
                    Err(e) => {
                        return Err(e);
                    },
                }
            },
            ObjTag::Seen(_) => {
                match read_element_list(r, &mut elements) {
                    Ok(_) => (),
                    Err(e) => {
                        return Err(e);
                    },
                }
            },
        }
        match r.check_header(&hdr) {
            Ok(_) => (),
            Err(e) => {
                return Err(e);
            },
        }
        Ok(StreamerInfo { class_name: named.name, checksum, version, elements })
    }
}

/// Reads the stored list of member descriptors into `out`.
fn read_element_list(r: &mut RBuffer, out: &mut Vec<StreamerElement>) -> (res: Result<()>)
    requires
        old(r).wf(),
    ensures
        final(r).same_frame(old(r)),
        final(r).wf(),
        final(r).spos() >= old(r).spos(),
{
    let (hdr, n) = match crate::branch::read_objarray_prefix(r) {
        Ok(v) => v,
        Err(e) => {
            return Err(e);
        },
    };
    let mut i: usize = 0;
    while i < n
        invariant
            r.wf(),
            r.same_frame(old(r)),
            r.spos() >= old(r).spos(),
        decreases n - i,
    {
        let tag = match r.read_object_tag() {
            Ok(t) => t,
            Err(e) => {
                return Err(e);
            },
        };
        match tag {
            ObjTag::Absent => (),
            ObjTag::Backref(_) => (),
            ObjTag::Fresh(_) => {
                let e = match StreamerElement::unmarshal(r) {
                    Ok(v) => v,
                    Err(e) => {
                        return Err(e);
                    },
                };
                out.push(e);
            },
            ObjTag::Seen(_) => {
                let e = match StreamerElement::unmarshal(r) {
                    Ok(v) => v,
                    Err(e) => {
                        return Err(e);
                    },
                };
                out.push(e);
            },
        }
        i = i + 1;
    }
    match r.check_header(&hdr) {
        Ok(_) => (),
        Err(e) => {
            return Err(e);
        },
    }
    Ok(())
}

/// The immutable catalog of schema descriptors loaded once per file and
/// shared by every branch for composite-leaf resolution.
#[derive(Debug, Clone)]
pub struct StreamerInfoContext {
    pub infos: Vec<StreamerInfo>,
}

impl StreamerInfoContext {
    pub fn new() -> (r: StreamerInfoContext)
        ensures
            r.infos@.len() == 0,
    {
        StreamerInfoContext { infos: Vec::new() }
    }

    /// Looks up the first descriptor for a class name and on-disk version.
    pub fn get(&self, class_name: &str, version: i32) -> (r: Option<&StreamerInfo>)
        ensures
            r matches Some(si) ==> exists|j: int|
                0 <= j < self.infos@.len() && (#[trigger] self.infos@[j]).class_name@
                    == class_name@ && self.infos@[j].version == version,
            r is None ==> forall|j: int|
                0 <= j < self.infos@.len() ==> !((#[trigger] self.infos@[j]).class_name@
                    == class_name@ && self.infos@[j].version == version),
    {
        let mut j: usize = 0;
        while j < self.infos.len()
            invariant
                j <= self.infos@.len(),
                forall|k: int|
                    0 <= k < j ==> !((#[trigger] self.infos@[k]).class_name@ == class_name@
                        && self.infos@[k].version == version),
            decreases self.infos@.len() - j,
        {
            if crate::rbase::str_eq(self.infos[j].class_name.as_str(), class_name)
                && self.infos[j].version == version {
                return Some(&self.infos[j]);
            }
            j = j + 1;
        }
        None
    }

    /// Looks up the first descriptor for a class name and stored checksum.
    pub fn get_by_checksum(&self, class_name: &str, checksum: u32) -> (r: Option<&StreamerInfo>)
        ensures
            r matches Some(si) ==> exists|j: int|
                0 <= j < self.infos@.len() && (#[trigger] self.infos@[j]).class_name@
                    == class_name@ && self.infos@[j].checksum == checksum,
            r is None ==> forall|j: int|
                0 <= j < self.infos@.len() ==> !((#[trigger] self.infos@[j]).class_name@
                    == class_name@ && self.infos@[j].checksum == checksum),
    {
        let mut j: usize = 0;
        while j < self.infos.len()
            invariant
                j <= self.infos@.len(),
                forall|k: int|
                    0 <= k < j ==> !((#[trigger] self.infos@[k]).class_name@ == class_name@
                        && self.infos@[k].checksum == checksum),
            decreases self.infos@.len() - j,
        {
            if crate::rbase::str_eq(self.infos[j].class_name.as_str(), class_name)
                && self.infos[j].checksum == checksum {
                return Some(&self.infos[j]);
            }
            j = j + 1;
        }
        None
    }
}

} // verus!
