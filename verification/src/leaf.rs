//! The typed descriptor inside a branch that determines per-element layout:
//! one variant per persisted leaf class, each carrying the fixed array
//! dimension, the element byte width, and a title that may encode
//! dimensionality.

use vstd::prelude::*;

use crate::error::{Error, Result};
use crate::rbase::{str_eq, Named};
use crate::rbuffer::{ObjTag, RBuffer};
use crate::rvers;

verus! {

/// The fields shared by every leaf variant.
#[derive(Debug)]
pub struct LeafBase {
    pub named: Named,
    /// Number of fixed elements per entry.
    pub len: i32,
    /// Byte width of one element.
    pub etype: i32,
    pub offset: i32,
    pub is_range: bool,
    pub is_unsigned: bool,
    /// True when the leaf's element count per entry is driven by a counter
    /// leaf elsewhere in the tree.
    pub has_counter: bool,
}

/// One leaf, discriminated by its on-disk class.
#[derive(Debug)]
pub enum Leaf {
    B(LeafBase),
    S(LeafBase),
    I(LeafBase),
    L(LeafBase),
    F(LeafBase),
    D(LeafBase),
    C(LeafBase),
    O(LeafBase),
    Element(LeafElement),
}

/// A composite leaf whose layout comes from the streamer-info catalog.
#[derive(Debug)]
pub struct LeafElement {
    pub base: LeafBase,
    pub id: i32,
    pub ltype: i32,
}

impl LeafBase {
    /// Decodes the framed common part of every leaf, including the optional
    /// reference to a counter leaf (an inline counter leaf is decoded and
    /// dropped; only its presence matters here).
    fn unmarshal(r: &mut RBuffer) -> (res: Result<LeafBase>)
        requires
            old(r).wf(),
        ensures
            final(r).same_frame(old(r)),
            final(r).wf(),
            final(r).spos() >= old(r).spos(),
        decreases old(r).sdata().len() - old(r).spos(),
    {
        let ghost p0 = r.spos();
        let hdr = match r.read_header() {
            Ok(h) => h,
            Err(e) => {
                return Err(e);
            },
        };
        match crate::rbuffer::ensure_maximum_supported_version(hdr.vers, rvers::LEAF, "TLeaf") {
            Ok(_) => (),
            Err(e) => {
                return Err(e);
            },
        }
        let named = match Named::unmarshal(r) {
            Ok(v) => v,
            Err(e) => {
                return Err(e);
            },
        };
        let len: i32 = match r.read_i32() {
            Ok(v) => v,
            Err(e) => {
                return Err(e);
            },
        };
        let etype: i32 = match r.read_i32() {
            Ok(v) => v,
            Err(e) => {
                return Err(e);
            },
        };
        let offset: i32 = match r.read_i32() {
            Ok(v) => v,
            Err(e) => {
                return Err(e);
            },
        };
        let is_range: bool = match r.read_u8() {
            Ok(v) => v != 0,
            Err(e) => {
                return Err(e);
            },
        };
        let is_unsigned: bool = match r.read_u8() {
            Ok(v) => v != 0,
            Err(e) => {
                return Err(e);
            },
        };
        let tag = match r.read_object_tag() {
            Ok(t) => t,
            Err(e) => {
                return Err(e);
            },
        };
        let has_counter: bool = match tag {
            ObjTag::Absent => false,
            ObjTag::Backref(_) => true,
            ObjTag::Fresh(cname) => {
                match Leaf::unmarshal_class(r, cname.as_str()) {
                    Ok(_) => (),
                    Err(e) => {
                        return Err(e);
                    },
                }
                true
            },
            ObjTag::Seen(cname) => {
                match Leaf::unmarshal_class(r, cname.as_str()) {
                    Ok(_) => (),
                    Err(e) => {
                        return Err(e);
                    },
                }
                true
            },
        };
        match r.check_header(&hdr) {
            Ok(_) => (),
            Err(e) => {
                return Err(e);
            },
        }
        Ok(LeafBase { named, len, etype, offset, is_range, is_unsigned, has_counter })
    }
}

impl Leaf {
    /// Decodes one leaf object of the named on-disk class: the class's own
    /// frame, the common part, then the class's typed range fields, which
    /// this reader consumes without keeping. The decoded variant follows the
    /// class name; a class outside the closed set never decodes.
    pub fn unmarshal_class(r: &mut RBuffer, class: &str) -> (res: Result<Leaf>)
        requires
            old(r).wf(),
        ensures
            final(r).same_frame(old(r)),
            final(r).wf(),
            final(r).spos() >= old(r).spos(),
            res matches Ok(l) ==> ({
                &&& (l is B <==> class@ == "TLeafB"@)
                &&& (l is S <==> class@ == "TLeafS"@)
                &&& (l is I <==> class@ == "TLeafI"@)
                &&& (l is L <==> class@ == "TLeafL"@)
                &&& (l is F <==> class@ == "TLeafF"@)
                &&& (l is D <==> class@ == "TLeafD"@)
                &&& (l is C <==> class@ == "TLeafC"@)
                &&& (l is O <==> class@ == "TLeafO"@)
                &&& (l is Element <==> class@ == "TLeafElement"@)
            }),
        decreases old(r).sdata().len() - old(r).spos(),
    {
        let hdr = match r.read_header() {
            Ok(h) => h,
            Err(e) => {
                return Err(e);
            },
        };
        let base = match LeafBase::unmarshal(r) {
            Ok(v) => v,
            Err(e) => {
                return Err(e);
            },
        };
        let leaf: Leaf = if str_eq(class, "TLeafB") {
            match r.skip(2) {
                Ok(_) => (),
                Err(e) => {
                    return Err(e);
                },
            }
            Leaf::B(base)
        } else if str_eq(class, "TLeafS") {
            match r.skip(4) {
                Ok(_) => (),
                Err(e) => {
                    return Err(e);
                },
            }
            Leaf::S(base)
        } else if str_eq(class, "TLeafI") {
            match r.skip(8) {
                Ok(_) => (),
                Err(e) => {
                    return Err(e);
                },
            }
            Leaf::I(base)
        } else if str_eq(class, "TLeafL") {
            match r.skip(16) {
                Ok(_) => (),
                Err(e) => {
                    return Err(e);
                },
            }
            Leaf::L(base)
        } else if str_eq(class, "TLeafF") {
            match r.skip(8) {
                Ok(_) => (),
                Err(e) => {
                    return Err(e);
                },
            }
            Leaf::F(base)
        } else if str_eq(class, "TLeafD") {
            match r.skip(16) {
                Ok(_) => (),
                Err(e) => {
                    return Err(e);
                },
            }
            Leaf::D(base)
        } else if str_eq(class, "TLeafC") {
            match r.skip(8) {
                Ok(_) => (),
                Err(e) => {
                    return Err(e);
                },
            }
            Leaf::C(base)
        } else if str_eq(class, "TLeafO") {
            match r.skip(2) {
                Ok(_) => (),
                Err(e) => {
                    return Err(e);
                },
            }
            Leaf::O(base)
        } else if str_eq(class, "TLeafElement") {
            let id: i32 = match r.read_i32() {
                Ok(v) => v,
                Err(e) => {
                    return Err(e);
                },
            };
            let ltype: i32 = match r.read_i32() {
                Ok(v) => v,
                Err(e) => {
                    return Err(e);
                },
            };
            Leaf::Element(LeafElement { base, id, ltype })
        } else {
            return Err(Error::UnknownClass(String::from_str(class)));
        };
        match r.check_header(&hdr) {
            Ok(_) => (),
            Err(e) => {
                return Err(e);
            },
        }
        proof {
            reveal_strlit("TLeafB");
            reveal_strlit("TLeafS");
            reveal_strlit("TLeafI");
            reveal_strlit("TLeafL");
            reveal_strlit("TLeafF");
            reveal_strlit("TLeafD");
            reveal_strlit("TLeafC");
            reveal_strlit("TLeafO");
            reveal_strlit("TLeafElement");
            // The class names differ pairwise: the short ones in their last
            // character, the composite one in its length.
            assert("TLeafB"@.len() == 6 && "TLeafB"@[5] == 'B');
            assert("TLeafS"@.len() == 6 && "TLeafS"@[5] == 'S');
            assert("TLeafI"@.len() == 6 && "TLeafI"@[5] == 'I');
            assert("TLeafL"@.len() == 6 && "TLeafL"@[5] == 'L');
            assert("TLeafF"@.len() == 6 && "TLeafF"@[5] == 'F');
            assert("TLeafD"@.len() == 6 && "TLeafD"@[5] == 'D');
            assert("TLeafC"@.len() == 6 && "TLeafC"@[5] == 'C');
            assert("TLeafO"@.len() == 6 && "TLeafO"@[5] == 'O');
            assert("TLeafElement"@.len() == 12);
        }
        Ok(leaf)
    }

    /// The common part of this leaf.
    pub fn base(&self) -> (r: &LeafBase)
        ensures
            r == self.sbase(),
    {
        match self {
            Leaf::B(b) => b,
            Leaf::S(b) => b,
            Leaf::I(b) => b,
            Leaf::L(b) => b,
            Leaf::F(b) => b,
            Leaf::D(b) => b,
            Leaf::C(b) => b,
            Leaf::O(b) => b,
            Leaf::Element(e) => &e.base,
        }
    }

    /// The common part, in specifications.
    pub open spec fn sbase(&self) -> &LeafBase {
        match self {
            Leaf::B(b) => b,
            Leaf::S(b) => b,
            Leaf::I(b) => b,
            Leaf::L(b) => b,
            Leaf::F(b) => b,
            Leaf::D(b) => b,
            Leaf::C(b) => b,
            Leaf::O(b) => b,
            Leaf::Element(e) => &e.base,
        }
    }

    /// Byte width of one element of this leaf.
    pub fn etype(&self) -> (r: i32)
        ensures
            r == self.sbase().etype,
    {
        self.base().etype
    }

    /// The leaf's title, which may encode dimensionality.
    pub fn title(&self) -> (r: &String)
        ensures
            r == self.sbase().named.title,
    {
        &self.base().named.title
    }

    /// True for the variants whose chunk stride is the basket's stated
    /// record span rather than the element width.
    pub fn spans_records(&self) -> (r: bool)
        ensures
            r == (self is C || self is Element),
    {
        match self {
            Leaf::C(_) => true,
            Leaf::Element(_) => true,
            _ => false,
        }
    }

    /// The reader-facing name of the element type, in specifications. A
    /// composite leaf has no class-determined name.
    pub open spec fn skind_name(&self) -> Seq<char> {
        match self {
            Leaf::B(_) => "int8_t"@,
            Leaf::S(_) => "int16_t"@,
            Leaf::I(_) => "int32_t"@,
            Leaf::L(_) => "int64_t"@,
            Leaf::F(_) => "float"@,
            Leaf::D(_) => "double"@,
            Leaf::C(_) => "string"@,
            Leaf::O(_) => "bool"@,
            Leaf::Element(_) => "unknown"@,
        }
    }

    /// The reader-facing name of the element type, when the leaf class alone
    /// determines it.
    pub fn kind_name(&self) -> (r: Option<&'static str>)
        ensures
            r is Some <==> !(self is Element),
            r matches Some(s) ==> s@ == self.skind_name(),
    {
        match self {
            Leaf::B(_) => Some("int8_t"),
            Leaf::S(_) => Some("int16_t"),
            Leaf::I(_) => Some("int32_t"),
            Leaf::L(_) => Some("int64_t"),
            Leaf::F(_) => Some("float"),
            Leaf::D(_) => Some("double"),
            Leaf::C(_) => Some("string"),
            Leaf::O(_) => Some("bool"),
            Leaf::Element(_) => None,
        }
    }
}

} // verus!
