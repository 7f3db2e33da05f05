//! A branch: one named column of typed values. Decodes the two supported
//! branch record layouts, enforces the basket-table invariants, and yields
//! the branch's payload as a sequence of typed chunks.

use vstd::prelude::*;

use crate::basket::{Basket, BasketData};
use crate::error::{Error, Result};
use crate::leaf::Leaf;
use crate::rbase::{skip_object_frame, str_eq, Named};
use crate::rbuffer::{
    ensure_maximum_supported_version, hdr_count, hdr_has_count, hdr_vers, ObjTag, RBuffer,
};
use crate::rfile::RootFileReader;
use crate::rvers;
use crate::tree::TioFeatures;

verus! {

/// What the basket engine emits: either a run of fixed-stride records in one
/// buffer, or individually delimited variable-size records.
#[derive(Debug)]
pub enum BranchChunks {
    RegularSized { n: i32, stride: i32, bytes: Vec<u8> },
    IrregularSized { n: i32, records: Vec<Vec<u8>> },
}

/// The entry count a chunk contributes.
pub open spec fn chunk_n(c: BranchChunks) -> int {
    match c {
        BranchChunks::RegularSized { n, .. } => n as int,
        BranchChunks::IrregularSized { n, .. } => n as int,
    }
}

/// Total entry count of a chunk sequence.
pub open spec fn chunks_n_sum(s: Seq<BranchChunks>) -> int
    decreases s.len(),
{
    if s.len() == 0 {
        0
    } else {
        chunks_n_sum(s.drop_last()) + chunk_n(s.last())
    }
}

proof fn lemma_chunks_n_sum_push(s: Seq<BranchChunks>, c: BranchChunks)
    ensures
        chunks_n_sum(s.push(c)) == chunks_n_sum(s) + chunk_n(c),
{
    assert(s.push(c).drop_last() =~= s);
}

/// A column, either plain or schema-described.
#[derive(Debug)]
pub enum Branch {
    Base(TBranch),
    Element(TBranchElement),
}

/// Whether some branch nested below `t` bears the given name.
pub open spec fn tbranch_has(t: TBranch, name: Seq<char>) -> bool
    decreases t,
{
    exists|i: int| 0 <= i < t.branches@.len() && branch_named(#[trigger] t.branches@[i], name)
}

/// Whether this branch, or one nested below it, bears the given name.
pub open spec fn branch_named(b: Branch, name: Seq<char>) -> bool
    decreases b,
{
    match b {
        Branch::Base(tb) => tb.named.name@ == name || tbranch_has(tb, name),
        Branch::Element(e) => e.branch.named.name@ == name || tbranch_has(e.branch, name),
    }
}

/// All branches nested below `t`, depth-first, starting from child `i`.
pub open spec fn branches_under(t: TBranch, i: int) -> Seq<Branch>
    decreases t, t.branches@.len() - i,
{
    if i < 0 || i >= t.branches@.len() {
        Seq::empty()
    } else {
        branch_with_subtree(t.branches@[i]) + branches_under(t, i + 1)
    }
}

/// A branch followed by everything nested below it, depth-first.
pub open spec fn branch_with_subtree(b: Branch) -> Seq<Branch>
    decreases b, 0int,
{
    seq![b] + (match b {
        Branch::Base(tb) => branches_under(tb, 0),
        Branch::Element(e) => branches_under(e.branch, 0),
    })
}

/// The first branch bearing the name among the subtrees of `t`'s children
/// from `i` on, in depth-first preorder.
pub open spec fn tbranch_find(t: TBranch, name: Seq<char>, i: int) -> Option<Branch>
    decreases t, t.branches@.len() - i,
{
    if i < 0 || i >= t.branches@.len() {
        Option::None
    } else {
        match branch_find(t.branches@[i], name) {
            Some(b) => Some(b),
            Option::None => tbranch_find(t, name, i + 1),
        }
    }
}

/// The first branch of this subtree bearing the name, itself included, in
/// depth-first preorder.
pub open spec fn branch_find(b: Branch, name: Seq<char>) -> Option<Branch>
    decreases b, 0int,
{
    match b {
        Branch::Base(tb) => if tb.named.name@ == name {
            Some(b)
        } else {
            tbranch_find(tb, name, 0)
        },
        Branch::Element(e) => if e.branch.named.name@ == name {
            Some(b)
        } else {
            tbranch_find(e.branch, name, 0)
        },
    }
}

/// The first branch bearing the name below this one, its own name not
/// compared.
pub open spec fn branch_children_find(b: Branch, name: Seq<char>) -> Option<Branch> {
    match b {
        Branch::Base(tb) => tbranch_find(tb, name, 0),
        Branch::Element(e) => tbranch_find(e.branch, name, 0),
    }
}

/// A plain branch.
#[derive(Debug)]
pub struct TBranch {
    pub named: Named,
    /// Compression level and algorithm.
    pub compress: i32,
    /// Initial size of the basket buffer.
    pub basket_size: i32,
    /// Initial length of the per-entry offset table in basket buffers; a
    /// positive value means baskets carry an offset table.
    pub entry_offset_len: i32,
    /// Number of baskets written to the file.
    pub write_basket: i32,
    /// Current entry number.
    pub entry_number: i64,
    /// IO features for newly created baskets.
    pub iobits: TioFeatures,
    /// Offset of this branch.
    pub offset: i32,
    /// Capacity of the stored basket tables.
    pub max_baskets: i32,
    /// Branch split level.
    pub split_level: i32,
    /// Number of entries.
    pub entries: i64,
    /// Number of the first entry in this branch.
    pub first_entry: i64,
    /// Total number of bytes in all leaves before compression.
    pub tot_bytes: i64,
    /// Total number of bytes in all leaves after compression.
    pub zip_bytes: i64,
    pub branches: Vec<Branch>,
    pub leaves: Vec<Leaf>,
    /// At most one basket embedded in the branch record itself, yielded
    /// ahead of the on-disk baskets.
    pub baskets: Vec<Basket>,
    /// Stored length of each basket on file.
    pub basket_bytes: Vec<i32>,
    /// First entry of each basket: a prefix-sum table whose last slot equals
    /// the entry count not held by an embedded basket.
    pub basket_entry: Vec<i64>,
    /// Absolute file offset of each basket.
    pub basket_seek: Vec<i64>,
    /// Name of the file the baskets live in, when not the tree's own.
    pub fname: String,
}

/// A schema-described branch: the plain branch plus the streamer bookkeeping
/// that ties it to a catalogued class layout.
#[derive(Debug)]
pub struct TBranchElement {
    pub branch: TBranch,
    pub class_name: String,
    pub parent_name: String,
    pub clones_name: String,
    pub checksum: u32,
    pub class_version: i16,
    pub id: i32,
    pub btype: i32,
    pub stype: i32,
    pub maximum: i32,
}

impl TBranch {
    /// The basket-table invariants every decoded branch satisfies: the three
    /// tables are truncated to their significant prefixes, the entry table
    /// is a prefix-sum table starting at zero, and its last slot accounts
    /// for every entry not held by an embedded basket.
    pub open spec fn wf_tables(&self) -> bool {
        &&& 0 <= self.write_basket
        &&& self.basket_bytes@.len() == self.write_basket as int
        &&& self.basket_seek@.len() == self.write_basket as int
        &&& self.basket_entry@.len() == self.write_basket as int + 1
        &&& self.basket_entry@[0] == 0
        &&& forall|k: int|
            0 <= k < self.write_basket as int ==> #[trigger] self.basket_entry@[k]
                <= self.basket_entry@[k + 1]
        &&& self.baskets@.len() <= 1
        &&& (self.baskets@.len() == 0 ==> self.basket_entry@[self.write_basket as int]
            == self.entries as int)
        &&& (self.baskets@.len() == 1 ==> self.baskets@[0].nev_buf >= 0 && self.basket_entry@[
            self.write_basket as int] + self.baskets@[0].nev_buf == self.entries as int)
    }

    pub fn new(name: String) -> (r: TBranch)
        ensures
            r.named.name@ == name@,
            r.wf_tables(),
            r.entries == 0,
            r.write_basket == 0,
            r.branches@.len() == 0,
            r.leaves@.len() == 0,
            r.baskets@.len() == 0,
    {
        let mut basket_entry: Vec<i64> = Vec::new();
        basket_entry.push(0);
        TBranch {
            named: Named::new(name, String::new()),
            compress: 0,
            basket_size: 0,
            entry_offset_len: 0,
            write_basket: 0,
            entry_number: 0,
            iobits: TioFeatures(0),
            offset: 0,
            max_baskets: 0,
            split_level: 0,
            entries: 0,
            first_entry: 0,
            tot_bytes: 0,
            zip_bytes: 0,
            branches: Vec::new(),
            leaves: Vec::new(),
            baskets: Vec::new(),
            basket_bytes: Vec::new(),
            basket_entry,
            basket_seek: Vec::new(),
            fname: String::new(),
        }
    }

    pub fn name(&self) -> (r: &String)
        ensures
            r == self.named.name,
    {
        &self.named.name
    }

    /// The nested branches.
    pub fn branches(&self) -> (r: &Vec<Branch>)
        ensures
            r == self.branches,
    {
        &self.branches
    }

    /// Number of entries in this branch.
    pub fn entries(&self) -> (r: i64)
        ensures
            r == self.entries,
    {
        self.entries
    }

    /// Finds a nested branch by name: exactly the first bearer of the name
    /// among the children's subtrees, in depth-first preorder; a miss means
    /// no branch below bears it.
    pub fn branch(&self, name: &str) -> (r: Option<&Branch>)
        requires
            self.wf_deep(),
        ensures
            r matches Some(b) ==> b.wf_deep() && b.stbranch().named.name@ == name@ && Some(*b)
                == tbranch_find(*self, name@, 0),
            r is None ==> !tbranch_has(*self, name@) && tbranch_find(*self, name@, 0) is None,
        decreases self,
    {
        let mut i: usize = 0;
        while i < self.branches.len()
            invariant
                self.wf_deep(),
                forall|j: int| 0 <= j < i ==> !branch_named(#[trigger] self.branches@[j], name@),
                tbranch_find(*self, name@, 0) == tbranch_find(*self, name@, i as int),
            decreases self.branches@.len() - i,
        {
            let b = &self.branches[i];
            proof {
                assert(self.branches@[i as int].wf_deep());
            }
            if str_eq(b.name().as_str(), name) {
                proof {
                    assert(branch_find(self.branches@[i as int], name@) == Some(*b));
                }
                return Some(b);
            }
            if let Some(bb) = b.branch(name) {
                proof {
                    assert(branch_find(self.branches@[i as int], name@) == Some(*bb));
                }
                return Some(bb);
            }
            proof {
                assert(!branch_named(self.branches@[i as int], name@));
                assert(branch_find(self.branches@[i as int], name@) is None);
            }
            i = i + 1;
        }
        None
    }

    /// Every branch nested below this one, depth-first.
    pub fn branches_r(&self) -> (r: Vec<&Branch>)
        ensures
            r@.map_values(|x: &Branch| *x) == branches_under(*self, 0),
        decreases self,
    {
        let mut out: Vec<&Branch> = Vec::new();
        let mut i: usize = 0;
        proof {
            assert(out@.map_values(|x: &Branch| *x) =~= Seq::<Branch>::empty());
        }
        while i < self.branches.len()
            invariant
                i <= self.branches@.len(),
                out@.map_values(|x: &Branch| *x) + branches_under(*self, i as int)
                    == branches_under(*self, 0),
            decreases self.branches@.len() - i,
        {
            let ghost pre = out@.map_values(|x: &Branch| *x);
            let b = &self.branches[i];
            out.push(b);
            let mut below: Vec<&Branch> = b.branches_r();
            let ghost gbelow = below@.map_values(|x: &Branch| *x);
            out.append(&mut below);
            proof {
                assert(out@.map_values(|x: &Branch| *x) =~= pre + seq![*b] + gbelow);
                assert(seq![*b] + gbelow =~= branch_with_subtree(self.branches@[i as int]));
                assert((pre + seq![*b] + gbelow) + branches_under(*self, i as int + 1) =~= pre
                    + branches_under(*self, i as int));
            }
            i = i + 1;
        }
        proof {
            assert(branches_under(*self, self.branches@.len() as int) =~= Seq::<Branch>::empty());
            assert(out@.map_values(|x: &Branch| *x) + Seq::<Branch>::empty() =~= out@.map_values(
                |x: &Branch| *x,
            ));
        }
        out
    }
}

impl TBranch {
    /// Table invariants of this branch and, recursively, of every branch
    /// nested below it.
    pub open spec fn wf_deep(&self) -> bool
        decreases self,
    {
        &&& self.wf_tables()
        &&& forall|i: int|
            0 <= i < self.branches@.len() ==> (#[trigger] self.branches@[i]).wf_deep()
    }
}

impl Branch {
    /// Table invariants of this branch and everything below it.
    pub open spec fn wf_deep(&self) -> bool
        decreases self,
    {
        match self {
            Branch::Base(b) => b.wf_deep(),
            Branch::Element(e) => e.branch.wf_deep(),
        }
    }

    /// The plain part of this branch.
    pub fn tbranch(&self) -> (r: &TBranch)
        ensures
            r == self.stbranch(),
    {
        match self {
            Branch::Base(b) => b,
            Branch::Element(e) => &e.branch,
        }
    }

    /// The plain part, in specifications.
    pub open spec fn stbranch(&self) -> &TBranch {
        match self {
            Branch::Base(b) => b,
            Branch::Element(e) => &e.branch,
        }
    }

    pub fn name(&self) -> (r: &String)
        ensures
            r == self.stbranch().named.name,
    {
        self.tbranch().name()
    }

    pub fn entries(&self) -> (r: i64)
        ensures
            r == self.stbranch().entries,
    {
        self.tbranch().entries()
    }

    /// The directly nested branches.
    pub fn branches(&self) -> (r: &Vec<Branch>)
        ensures
            r == self.stbranch().branches,
    {
        self.tbranch().branches()
    }

    /// Finds a nested branch by name: exactly the first bearer in
    /// depth-first preorder below this branch, its own name not compared.
    pub fn branch(&self, name: &str) -> (r: Option<&Branch>)
        requires
            self.wf_deep(),
        ensures
            r matches Some(b) ==> b.wf_deep() && b.stbranch().named.name@ == name@ && Some(*b)
                == branch_children_find(*self, name@),
            r is None ==> !tbranch_has(*self.stbranch(), name@) && branch_children_find(
                *self,
                name@,
            ) is None,
        decreases self,
    {
        match self {
            Branch::Base(b) => b.branch(name),
            Branch::Element(e) => e.branch.branch(name),
        }
    }

    /// Every branch nested below this one, depth-first: this branch in
    /// front of the result gives its whole subtree.
    pub fn branches_r(&self) -> (r: Vec<&Branch>)
        ensures
            seq![*self] + r@.map_values(|x: &Branch| *x) == branch_with_subtree(*self),
        decreases self,
    {
        let r = match self {
            Branch::Base(b) => b.branches_r(),
            Branch::Element(e) => e.branch.branches_r(),
        };
        proof {
            assert(seq![*self] + r@.map_values(|x: &Branch| *x) =~= branch_with_subtree(*self));
        }
        r
    }
}

/// Reads the prefix of a stored object list: its frame, base object, name,
/// element count and lower bound. The caller reads the elements, then closes
/// the frame.
pub fn read_objarray_prefix(r: &mut RBuffer) -> (res: Result<
    (crate::rbuffer::ObjectHeader, usize),
>)
    requires
        old(r).wf(),
    ensures
        final(r).same_frame(old(r)),
        final(r).wf(),
        final(r).spos() >= old(r).spos(),
        res is Ok ==> final(r).spos() >= old(r).spos() + 6,
{
    let hdr = match r.read_header() {
        Ok(h) => h,
        Err(e) => {
            return Err(e);
        },
    };
    if hdr.vers > 2 {
        match crate::rbase::Object::unmarshal(r) {
            Ok(_) => (),
            Err(e) => {
                return Err(e);
            },
        }
    }
    if hdr.vers > 1 {
        match r.read_string() {
            Ok(_) => (),
            Err(e) => {
                return Err(e);
            },
        }
    }
    let n: i32 = match r.read_i32() {
        Ok(v) => v,
        Err(e) => {
            return Err(e);
        },
    };
    match r.read_i32() {
        Ok(_) => (),
        Err(e) => {
            return Err(e);
        },
    }
    if n < 0 {
        return Err(Error::MalformedBranch);
    }
    Ok((hdr, n as usize))
}

/// Reads a stored list of branches, dispatching each element on its class
/// tag. An absent element is dropped; a reference to an already-decoded
/// branch is not representable here and fails as malformed.
pub fn read_branch_list(r: &mut RBuffer) -> (res: Result<Vec<Branch>>)
    requires
        old(r).wf(),
    ensures
        final(r).same_frame(old(r)),
        final(r).wf(),
        final(r).spos() >= old(r).spos(),
        res matches Ok(v) ==> forall|j: int| 0 <= j < v@.len() ==> (#[trigger] v@[j]).wf_deep(),
    decreases old(r).sdata().len() - old(r).spos(), 0int,
{
    let ghost p0 = r.spos();
    let (hdr, n) = match read_objarray_prefix(r) {
        Ok(v) => v,
        Err(e) => {
            return Err(e);
        },
    };
    let mut out: Vec<Branch> = Vec::new();
    let mut i: usize = 0;
    while i < n
        invariant
            r.wf(),
            r.same_frame(old(r)),
            r.spos() > p0,
            p0 >= old(r).spos(),
            forall|j: int| 0 <= j < out@.len() ==> (#[trigger] out@[j]).wf_deep(),
        decreases n - i,
    {
        let tag = match r.read_object_tag() {
            Ok(t) => t,
            Err(e) => {
                return Err(e);
            },
        };
        match tag {
            ObjTag::Absent => (),
            ObjTag::Backref(_) => {
                return Err(Error::MalformedBranch);
            },
            ObjTag::Fresh(cname) => {
                let b = match read_branch_of_class(r, cname.as_str()) {
                    Ok(v) => v,
                    Err(e) => {
                        return Err(e);
                    },
                };
                out.push(b);
            },
            ObjTag::Seen(cname) => {
                let b = match read_branch_of_class(r, cname.as_str()) {
                    Ok(v) => v,
                    Err(e) => {
                        return Err(e);
                    },
                };
                out.push(b);
            },
        }
        i = i + 1;
    }
    match r.check_header(&hdr) {
        Ok(_) => (),
        Err(e) => {
            return Err(e);
        },
    }
    Ok(out)
}

/// Decodes one branch object of the named class.
fn read_branch_of_class(r: &mut RBuffer, class: &str) -> (res: Result<Branch>)
    requires
        old(r).wf(),
    ensures
        final(r).same_frame(old(r)),
        final(r).wf(),
        final(r).spos() >= old(r).spos(),
        res matches Ok(b) ==> b.wf_deep(),
    decreases old(r).sdata().len() - old(r).spos(), 1int,
{
    if str_eq(class, "TBranch") {
        match TBranch::unmarshal(r) {
            Ok(b) => Ok(Branch::Base(b)),
            Err(e) => Err(e),
        }
    } else if str_eq(class, "TBranchElement") {
        match TBranchElement::unmarshal(r) {
            Ok(b) => Ok(Branch::Element(b)),
            Err(e) => Err(e),
        }
    } else {
        Err(Error::UnknownClass(String::from_str(class)))
    }
}

/// Reads a stored list of leaves.
pub fn read_leaf_list(r: &mut RBuffer) -> (res: Result<Vec<Leaf>>)
    requires
        old(r).wf(),
    ensures
        final(r).same_frame(old(r)),
        final(r).wf(),
        final(r).spos() >= old(r).spos(),
{
    let ghost p0 = r.spos();
    let (hdr, n) = match read_objarray_prefix(r) {
        Ok(v) => v,
        Err(e) => {
            return Err(e);
        },
    };
    let mut out: Vec<Leaf> = Vec::new();
    let mut i: usize = 0;
    while i < n
        invariant
            r.wf(),
            r.same_frame(old(r)),
            r.spos() > p0,
            p0 >= old(r).spos(),
        decreases n - i,
    {
        let tag = match r.read_object_tag() {
            Ok(t) => t,
            Err(e) => {
                return Err(e);
            },
        };
        match tag {
            ObjTag::Absent => (),
            ObjTag::Backref(_) => {
                return Err(Error::MalformedBranch);
            },
            ObjTag::Fresh(cname) => {
                let l = match Leaf::unmarshal_class(r, cname.as_str()) {
                    Ok(v) => v,
                    Err(e) => {
                        return Err(e);
                    },
                };
                out.push(l);
            },
            ObjTag::Seen(cname) => {
                let l = match Leaf::unmarshal_class(r, cname.as_str()) {
                    Ok(v) => v,
                    Err(e) => {
                        return Err(e);
                    },
                };
                out.push(l);
            },
        }
        i = i + 1;
    }
    match r.check_header(&hdr) {
        Ok(_) => (),
        Err(e) => {
            return Err(e);
        },
    }
    Ok(out)
}

/// Reads a stored list of baskets embedded in a branch record.
fn read_basket_list(r: &mut RBuffer, has_iobits: bool, has_offsets: bool) -> (res: Result<
    Vec<Basket>,
>)
    requires
        old(r).wf(),
    ensures
        final(r).same_frame(old(r)),
        final(r).wf(),
        final(r).spos() >= old(r).spos(),
        res matches Ok(v) ==> forall|j: int|
            0 <= j < v@.len() ==> ((#[trigger] v@[j]).byte_offsets matches Some(t) ==> t@.len()
                == v@[j].nev_buf + 1 && v@[j].nev_buf > 0),
{
    let ghost p0 = r.spos();
    let (hdr, n) = match read_objarray_prefix(r) {
        Ok(v) => v,
        Err(e) => {
            return Err(e);
        },
    };
    let mut out: Vec<Basket> = Vec::new();
    let mut i: usize = 0;
    while i < n
        invariant
            r.wf(),
            r.same_frame(old(r)),
            r.spos() > p0,
            p0 >= old(r).spos(),
            forall|j: int|
                0 <= j < out@.len() ==> ((#[trigger] out@[j]).byte_offsets matches Some(t)
                    ==> t@.len() == out@[j].nev_buf + 1 && out@[j].nev_buf > 0),
        decreases n - i,
    {
        let tag = match r.read_object_tag() {
            Ok(t) => t,
            Err(e) => {
                return Err(e);
            },
        };
        match tag {
            ObjTag::Absent => (),
            ObjTag::Backref(_) => {
                return Err(Error::MalformedBranch);
            },
            ObjTag::Fresh(cname) => {
                if !str_eq(cname.as_str(), "TBasket") {
                    return Err(Error::UnknownClass(cname));
                }
                let b = match Basket::unmarshal(r, has_iobits, has_offsets) {
                    Ok(v) => v,
                    Err(e) => {
                        return Err(e);
                    },
                };
                out.push(b);
            },
            ObjTag::Seen(cname) => {
                if !str_eq(cname.as_str(), "TBasket") {
                    return Err(Error::UnknownClass(cname));
                }
                let b = match Basket::unmarshal(r, has_iobits, has_offsets) {
                    Ok(v) => v,
                    Err(e) => {
                        return Err(e);
                    },
                };
                out.push(b);
            },
        }
        i = i + 1;
    }
    match r.check_header(&hdr) {
        Ok(_) => (),
        Err(e) => {
            return Err(e);
        },
    }
    Ok(out)
}

impl TBranch {
    /// Checks the basket-table invariants on a freshly decoded branch,
    /// passing it through unchanged when they hold.
    fn validate_tables(self) -> (res: Result<TBranch>)
        ensures
            res matches Ok(b) ==> b == self && b.wf_tables(),
    {
        if self.write_basket < 0 {
            return Err(Error::MalformedBranch);
        }
        let wb: usize = self.write_basket as usize;
        if self.basket_bytes.len() != wb || self.basket_seek.len() != wb || self.basket_entry.len()
            != wb + 1 {
            return Err(Error::MalformedBranch);
        }
        if self.basket_entry[0] != 0 {
            return Err(Error::MalformedBranch);
        }
        let mut k: usize = 0;
        while k < wb
            invariant
                wb == self.write_basket as int,
                self.basket_entry@.len() == wb + 1,
                k <= wb,
                forall|j: int|
                    0 <= j < k ==> #[trigger] self.basket_entry@[j] <= self.basket_entry@[j + 1],
            decreases wb - k,
        {
            if self.basket_entry[k] > self.basket_entry[k + 1] {
                return Err(Error::MalformedBranch);
            }
            k = k + 1;
        }
        let covered: i64 = self.basket_entry[wb];
        if self.baskets.len() == 0 {
            if covered != self.entries {
                return Err(Error::MalformedBranch);
            }
        } else if self.baskets.len() == 1 {
            let nev: i32 = self.baskets[0].nev_buf;
            if nev < 0 || covered < 0 || self.entries < covered {
                return Err(Error::MalformedBranch);
            }
            if self.entries - covered != nev as i64 {
                return Err(Error::MalformedBranch);
            }
        } else {
            return Err(Error::MalformedBranch);
        }
        Ok(self)
    }

    /// Decodes a branch record. Supports the two modern layouts: versions
    /// ten and up, and six through nine, whose wide counters are stored as
    /// 64-bit floats. Newer versions fail with `UnsupportedVersion`, and so
    /// do the ancient ones below six, which this reader does not decode.
    pub fn unmarshal(r: &mut RBuffer) -> (res: Result<TBranch>)
        requires
            old(r).wf(),
        ensures
            final(r).same_frame(old(r)),
            final(r).wf(),
            final(r).spos() >= old(r).spos(),
            res matches Ok(b) ==> b.wf_deep() && !(b.split_level == 0 && b.branches@.len()
                > 0),
            res is Ok && hdr_has_count(old(r).sdata(), old(r).spos()) ==> final(r).spos() == old(
                r,
            ).spos() + hdr_count(old(r).sdata(), old(r).spos()) + 4,
            ({
                let s = old(r).sdata();
                let p = old(r).spos();
                (p + 6 <= s.len() && hdr_has_count(s, p) && old(r).sbase() + p + hdr_count(s, p)
                    + 4 <= u64::MAX && (hdr_vers(s, p + 4) > rvers::BRANCH as int || hdr_vers(
                    s,
                    p + 4,
                ) < 6)) ==> (res matches Err(e) && (e matches Error::UnsupportedVersion {
                    class: c,
                    vers: v,
                    max: m,
                } && c@ == "TBranch"@ && v as int == hdr_vers(s, p + 4) && m == rvers::BRANCH))
            }),
        decreases old(r).sdata().len() - old(r).spos(), 0int,
    {
        let ghost p0 = r.spos();
        let hdr = match r.read_header() {
            Ok(h) => h,
            Err(e) => {
                return Err(e);
            },
        };
        match ensure_maximum_supported_version(hdr.vers, rvers::BRANCH, "TBranch") {
            Ok(_) => (),
            Err(e) => {
                return Err(e);
            },
        }
        if hdr.vers < 6 {
            return Err(
                Error::UnsupportedVersion { class: String::from_str("TBranch"), vers: hdr.vers, max: rvers::BRANCH },
            );
        }
        let named = match Named::unmarshal(r) {
            Ok(v) => v,
            Err(e) => {
                return Err(e);
            },
        };
        if hdr.vers >= 10 || hdr.vers > 7 {
            match skip_object_frame(r) {
                Ok(_) => (),
                Err(e) => {
                    return Err(e);
                },
            }
        }
        let compress: i32 = match r.read_i32() {
            Ok(v) => v,
            Err(e) => {
                return Err(e);
            },
        };
        let basket_size: i32 = match r.read_i32() {
            Ok(v) => v,
            Err(e) => {
                return Err(e);
            },
        };
        let entry_offset_len: i32 = match r.read_i32() {
            Ok(v) => v,
            Err(e) => {
                return Err(e);
            },
        };
        let write_basket: i32 = match r.read_i32() {
            Ok(v) => v,
            Err(e) => {
                return Err(e);
            },
        };
        let entry_number: i64;
        let mut iobits: TioFeatures = TioFeatures(0);
        let offset: i32;
        let max_baskets: i32;
        let mut split_level: i32 = 0;
        let entries: i64;
        let mut first_entry: i64 = 0;
        let tot_bytes: i64;
        let zip_bytes: i64;
        if hdr.vers >= 10 {
            entry_number = match r.read_i64() {
                Ok(v) => v,
                Err(e) => {
                    return Err(e);
                },
            };
            if hdr.vers >= 13 {
                iobits = match TioFeatures::unmarshal(r) {
                    Ok(v) => v,
                    Err(e) => {
                        return Err(e);
                    },
                };
            }
            offset = match r.read_i32() {
                Ok(v) => v,
                Err(e) => {
                    return Err(e);
                },
            };
            max_baskets = match r.read_i32() {
                Ok(v) => v,
                Err(e) => {
                    return Err(e);
                },
            };
            split_level = match r.read_i32() {
                Ok(v) => v,
                Err(e) => {
                    return Err(e);
                },
            };
            entries = match r.read_i64() {
                Ok(v) => v,
                Err(e) => {
                    return Err(e);
                },
            };
            if hdr.vers >= 11 {
                first_entry = match r.read_i64() {
                    Ok(v) => v,
                    Err(e) => {
                        return Err(e);
                    },
                };
            }
            tot_bytes = match r.read_i64() {
                Ok(v) => v,
                Err(e) => {
                    return Err(e);
                },
            };
            zip_bytes = match r.read_i64() {
                Ok(v) => v,
                Err(e) => {
                    return Err(e);
                },
            };
        } else {
            entry_number = match r.read_i32() {
                Ok(v) => v as i64,
                Err(e) => {
                    return Err(e);
                },
            };
            offset = match r.read_i32() {
                Ok(v) => v,
                Err(e) => {
                    return Err(e);
                },
            };
            max_baskets = match r.read_i32() {
                Ok(v) => v,
                Err(e) => {
                    return Err(e);
                },
            };
            if hdr.vers > 6 {
                split_level = match r.read_i32() {
                    Ok(v) => v,
                    Err(e) => {
                        return Err(e);
                    },
                };
            }
            entries = match r.read_f64_as_i64() {
                Ok(v) => v,
                Err(e) => {
                    return Err(e);
                },
            };
            tot_bytes = match r.read_f64_as_i64() {
                Ok(v) => v,
                Err(e) => {
                    return Err(e);
                },
            };
            zip_bytes = match r.read_f64_as_i64() {
                Ok(v) => v,
                Err(e) => {
                    return Err(e);
                },
            };
        }
        let branches: Vec<Branch> = match read_branch_list(r) {
            Ok(v) => v,
            Err(e) => {
                return Err(e);
            },
        };
        let leaves: Vec<Leaf> = match read_leaf_list(r) {
            Ok(v) => v,
            Err(e) => {
                return Err(e);
            },
        };
        let baskets: Vec<Basket> = match read_basket_list(r, iobits.0 != 0, entry_offset_len > 0) {
            Ok(v) => v,
            Err(e) => {
                return Err(e);
            },
        };
        if write_basket < 0 || max_baskets < 0 || write_basket >= max_baskets {
            return Err(Error::MalformedBranch);
        }
        if max_baskets as u32 > 0x0FFF_FFFF {
            return Err(Error::MalformedBranch);
        }
        let nmax: usize = max_baskets as usize;
        let wb: usize = write_basket as usize;
        match r.read_i8() {
            Ok(_) => (),
            Err(e) => {
                return Err(e);
            },
        }
        let mut basket_bytes: Vec<i32> = match r.read_array_i32(nmax) {
            Ok(v) => v,
            Err(e) => {
                return Err(e);
            },
        };
        basket_bytes.truncate(wb);
        let mut basket_entry: Vec<i64>;
        match r.read_i8() {
            Ok(_) => (),
            Err(e) => {
                return Err(e);
            },
        }
        if hdr.vers >= 10 {
            basket_entry = match r.read_array_i64(nmax) {
                Ok(v) => v,
                Err(e) => {
                    return Err(e);
                },
            };
        } else {
            let narrow: Vec<i32> = match r.read_array_i32(nmax) {
                Ok(v) => v,
                Err(e) => {
                    return Err(e);
                },
            };
            basket_entry = widen_i32_table(&narrow);
        }
        basket_entry.truncate(wb + 1);
        let mut basket_seek: Vec<i64>;
        let seek_kind: i8 = match r.read_i8() {
            Ok(v) => v,
            Err(e) => {
                return Err(e);
            },
        };
        if hdr.vers >= 10 || seek_kind == 2 {
            basket_seek = match r.read_array_i64(nmax) {
                Ok(v) => v,
                Err(e) => {
                    return Err(e);
                },
            };
        } else {
            let narrow: Vec<i32> = match r.read_array_i32(nmax) {
                Ok(v) => v,
                Err(e) => {
                    return Err(e);
                },
            };
            basket_seek = widen_i32_table(&narrow);
        }
        basket_seek.truncate(wb);
        let fname: String = match r.read_string() {
            Ok(v) => v,
            Err(e) => {
                return Err(e);
            },
        };
        if split_level == 0 && branches.len() > 0 {
            split_level = 1;
        }
        let ghost gbranches = branches@;
        match r.check_header(&hdr) {
            Ok(_) => (),
            Err(e) => {
                return Err(e);
            },
        }
        let branch = TBranch {
            named,
            compress,
            basket_size,
            entry_offset_len,
            write_basket,
            entry_number,
            iobits,
            offset,
            max_baskets,
            split_level,
            entries,
            first_entry,
            tot_bytes,
            zip_bytes,
            branches,
            leaves,
            baskets,
            basket_bytes,
            basket_entry,
            basket_seek,
            fname,
        };
        let res = branch.validate_tables();
        proof {
            if res is Ok {
                let b = res->Ok_0;
                assert(b.branches@ == gbranches);
                assert forall|i: int|
                    0 <= i < b.branches@.len() implies (#[trigger] b.branches@[i]).wf_deep() by {
                    assert(gbranches[i].wf_deep());
                }
                assert(b.wf_deep());
            }
        }
        res
    }
}

/// Widens a 32-bit stored table to the 64-bit form used in memory.
fn widen_i32_table(v: &Vec<i32>) -> (r: Vec<i64>)
    ensures
        r@.len() == v@.len(),
        forall|k: int| 0 <= k < v@.len() ==> #[trigger] r@[k] == v@[k] as i64,
{
    let mut out: Vec<i64> = Vec::new();
    let mut i: usize = 0;
    while i < v.len()
        invariant
            i <= v@.len(),
            out@.len() == i,
            forall|k: int| 0 <= k < i ==> #[trigger] out@[k] == v@[k] as i64,
        decreases v@.len() - i,
    {
        out.push(v[i] as i64);
        i = i + 1;
    }
    out
}

impl TBranchElement {
    /// Decodes a schema-described branch: the plain branch, then the
    /// streamer bookkeeping and the two counter-branch references, which are
    /// consumed without being kept.
    pub fn unmarshal(r: &mut RBuffer) -> (res: Result<TBranchElement>)
        requires
            old(r).wf(),
        ensures
            final(r).same_frame(old(r)),
            final(r).wf(),
            final(r).spos() >= old(r).spos(),
            res matches Ok(b) ==> b.branch.wf_deep(),
        decreases old(r).sdata().len() - old(r).spos(), 0int,
    {
        let ghost p0 = r.spos();
        let hdr = match r.read_header() {
            Ok(h) => h,
            Err(e) => {
                return Err(e);
            },
        };
        match ensure_maximum_supported_version(
            hdr.vers,
            rvers::BRANCH_ELEMENT,
            "TBranchElement",
        ) {
            Ok(_) => (),
            Err(e) => {
                return Err(e);
            },
        }
        if hdr.vers < 8 {
            return Err(
                Error::UnsupportedVersion {
                    class: String::from_str("TBranchElement"),
                    vers: hdr.vers,
                    max: rvers::BRANCH_ELEMENT,
                },
            );
        }
        let branch = match TBranch::unmarshal(r) {
            Ok(v) => v,
            Err(e) => {
                return Err(e);
            },
        };
        let class_name: String = match r.read_string() {
            Ok(v) => v,
            Err(e) => {
                return Err(e);
            },
        };
        let parent_name: String = match r.read_string() {
            Ok(v) => v,
            Err(e) => {
                return Err(e);
            },
        };
        let clones_name: String = match r.read_string() {
            Ok(v) => v,
            Err(e) => {
                return Err(e);
            },
        };
        let checksum: u32 = match r.read_u32() {
            Ok(v) => v,
            Err(e) => {
                return Err(e);
            },
        };
        let class_version: i16 = if hdr.vers >= 10 {
            match r.read_u16() {
                Ok(v) => (v & 0x7fff) as i16,
                Err(e) => {
                    return Err(e);
                },
            }
        } else {
            match r.read_i16() {
                Ok(v) => v,
                Err(e) => {
                    return Err(e);
                },
            }
        };
        let id: i32 = match r.read_i32() {
            Ok(v) => v,
            Err(e) => {
                return Err(e);
            },
        };
        let btype: i32 = match r.read_i32() {
            Ok(v) => v,
            Err(e) => {
                return Err(e);
            },
        };
        let stype: i32 = match r.read_i32() {
            Ok(v) => v,
            Err(e) => {
                return Err(e);
            },
        };
        let maximum: i32 = match r.read_i32() {
            Ok(v) => v,
            Err(e) => {
                return Err(e);
            },
        };
        match consume_branch_ref(r) {
            Ok(_) => (),
            Err(e) => {
                return Err(e);
            },
        }
        match consume_branch_ref(r) {
            Ok(_) => (),
            Err(e) => {
                return Err(e);
            },
        }
        match r.check_header(&hdr) {
            Ok(_) => (),
            Err(e) => {
                return Err(e);
            },
        }
        Ok(
            TBranchElement {
                branch,
                class_name,
                parent_name,
                clones_name,
                checksum,
                class_version,
                id,
                btype,
                stype,
                maximum,
            },
        )
    }
}

impl TBranch {
    /// The basket engine: yields this branch's payload as chunks in
    /// ascending basket order, the embedded basket first. Every chunk's
    /// entry count is checked against the entry table, so the counts of a
    /// successful run sum to exactly the branch's entries; a branch with no
    /// written basket and no embedded one yields nothing.
    pub fn get_baskets_buffer(&self, reader: &RootFileReader) -> (res: Result<Vec<BranchChunks>>)
        requires
            self.wf_tables(),
        ensures
            res matches Ok(v) ==> chunks_n_sum(v@) == self.entries as int,
            res matches Ok(v) ==> (self.write_basket == 0 && self.baskets@.len() == 0 ==> v@.len()
                == 0),
            (self.write_basket == 0 && self.baskets@.len() == 0 && (self.leaves@.len() == 1
                || self.leaves@.len() == 0)) ==> res is Ok,
            res matches Ok(v) ==> (self.baskets@.len() == 1 ==> v@.len() >= 1 && (v@[0] matches
            BranchChunks::RegularSized { n, stride, bytes } && n == self.baskets@[0].nev_buf
                && stride == 1 && bytes@ == self.baskets@[0].buffer@)),
            (self.leaves@.len() != 1 && self.leaves@.len() != self.write_basket as int) ==> res
                == Result::<Vec<BranchChunks>>::Err(Error::MalformedBranch),
    {
        let wb: usize = self.write_basket as usize;
        let broadcast_leaf: bool = self.leaves.len() == 1;
        if !(broadcast_leaf || self.leaves.len() == wb) {
            return Err(Error::MalformedBranch);
        }
        let mut out: Vec<BranchChunks> = Vec::new();
        let ghost emb_n: int = if self.baskets@.len() == 1 {
            self.baskets@[0].nev_buf as int
        } else {
            0
        };
        if self.baskets.len() > 0 {
            let b: &Basket = &self.baskets[0];
            let chunk = BranchChunks::RegularSized {
                n: b.nev_buf,
                stride: 1,
                bytes: b.buffer.clone(),
            };
            proof {
                lemma_chunks_n_sum_push(out@, chunk);
            }
            out.push(chunk);
        }
        let mut k: usize = 0;
        while k < wb
            invariant
                self.wf_tables(),
                wb == self.write_basket as int,
                k <= wb,
                emb_n == (if self.baskets@.len() == 1 {
                    self.baskets@[0].nev_buf as int
                } else {
                    0int
                }),
                wb > 0 ==> (self.leaves@.len() == 1 || self.leaves@.len() == wb),
                broadcast_leaf == (self.leaves@.len() == 1),
                chunks_n_sum(out@) == emb_n + self.basket_entry@[k as int],
                (wb == 0 && self.baskets@.len() == 0) ==> out@.len() == 0,
                self.baskets@.len() == 1 ==> out@.len() >= 1 && (out@[0] matches
                BranchChunks::RegularSized { n, stride, bytes } && n == self.baskets@[0].nev_buf
                    && stride == 1 && bytes@ == self.baskets@[0].buffer@),
            decreases wb - k,
        {
            let nbytes: i32 = self.basket_bytes[k];
            let expected_lo: i64 = self.basket_entry[k];
            let expected_hi: i64 = self.basket_entry[k + 1];
            if nbytes <= 0 {
                // A basket that was never written must cover no entries.
                if expected_lo != expected_hi {
                    return Err(Error::MalformedBranch);
                }
                k = k + 1;
                continue ;
            }
            let seek: i64 = self.basket_seek[k];
            if seek < 0 {
                return Err(Error::MalformedBranch);
            }
            let buf: Vec<u8> = match reader.read_at(seek as u64, nbytes as u64) {
                Ok(v) => v,
                Err(e) => {
                    return Err(e);
                },
            };
            let mut rb = RBuffer::new(buf, 0);
            let b: Basket = match Basket::unmarshal(
                &mut rb,
                self.iobits.0 != 0,
                self.entry_offset_len > 0,
            ) {
                Ok(v) => v,
                Err(e) => {
                    return Err(e);
                },
            };
            let leaf: &Leaf = if broadcast_leaf {
                &self.leaves[0]
            } else {
                &self.leaves[k]
            };
            let stride: i32 = if leaf.spans_records() {
                let es: i64 = b.entry_size();
                if es < 1 || es > 0x7fff_ffff {
                    return Err(Error::MalformedBranch);
                }
                es as i32
            } else {
                leaf.etype()
            };
            let data: BasketData = match b.raw_data() {
                Ok(v) => v,
                Err(e) => {
                    return Err(e);
                },
            };
            let chunk: BranchChunks = match data {
                BasketData::TrustNEntries(n, bytes) => BranchChunks::RegularSized {
                    n,
                    stride,
                    bytes,
                },
                BasketData::UnTrustNEntries(n, bytes, offs) => {
                    match leaf {
                        Leaf::C(_) => BranchChunks::RegularSized { n, stride, bytes },
                        Leaf::Element(_) => {
                            return Err(Error::MalformedBranch);
                        },
                        _ => {
                            if stride <= 0 {
                                return Err(Error::MalformedBranch);
                            }
                            let nel: usize = bytes.len() / (stride as usize);
                            if self.entries >= 0 && nel as u64 == self.entries as u64 {
                                if nel > 0x7fff_ffff {
                                    return Err(Error::MalformedBranch);
                                }
                                // The offset table is degenerate: the buffer
                                // is a whole number of fixed-stride records
                                // covering every entry of the branch.
                                BranchChunks::RegularSized { n: nel as i32, stride, bytes }
                            } else {
                                let records: Vec<Vec<u8>> = match split_records(&bytes, &offs) {
                                    Ok(v) => v,
                                    Err(e) => {
                                        return Err(e);
                                    },
                                };
                                BranchChunks::IrregularSized { n, records }
                            }
                        },
                    }
                },
            };
            // The chunk must cover exactly the entries the table assigns to
            // this basket.
            let cn: i32 = match &chunk {
                BranchChunks::RegularSized { n, .. } => *n,
                BranchChunks::IrregularSized { n, .. } => *n,
            };
            if cn < 0 {
                return Err(Error::MalformedBranch);
            }
            if expected_lo > i64::MAX - cn as i64 {
                return Err(Error::MalformedBranch);
            }
            if expected_lo + cn as i64 != expected_hi {
                return Err(Error::MalformedBranch);
            }
            proof {
                lemma_chunks_n_sum_push(out@, chunk);
            }
            out.push(chunk);
            k = k + 1;
        }
        Ok(out)
    }
}

impl Branch {
    /// The basket engine, on either branch kind.
    pub fn get_baskets_buffer(&self, reader: &RootFileReader) -> (res: Result<Vec<BranchChunks>>)
        requires
            self.stbranch().wf_tables(),
        ensures
            res matches Ok(v) ==> chunks_n_sum(v@) == self.stbranch().entries as int,
            res matches Ok(v) ==> (self.stbranch().write_basket == 0 && self.stbranch().baskets@.len()
                == 0 ==> v@.len() == 0),
            (self.stbranch().write_basket == 0 && self.stbranch().baskets@.len() == 0 && (
            self.stbranch().leaves@.len() == 1 || self.stbranch().leaves@.len() == 0)) ==> res
                is Ok,
            res matches Ok(v) ==> (self.stbranch().baskets@.len() == 1 ==> v@.len() >= 1 && (
            v@[0] matches BranchChunks::RegularSized { n, stride, bytes } && n
                == self.stbranch().baskets@[0].nev_buf && stride == 1 && bytes@
                == self.stbranch().baskets@[0].buffer@)),
            (self.stbranch().leaves@.len() != 1 && self.stbranch().leaves@.len()
                != self.stbranch().write_basket as int) ==> res == Result::<
                Vec<BranchChunks>,
            >::Err(Error::MalformedBranch),
    {
        match self {
            Branch::Base(b) => b.get_baskets_buffer(reader),
            Branch::Element(e) => e.branch.get_baskets_buffer(reader),
        }
    }
}

/// Cuts a buffer into the records a basket's offset table delimits: record
/// `i` holds exactly the bytes `offsets[i] .. offsets[i + 1]`. An offset
/// outside the buffer or out of order is malformed, and only then.
fn split_records(bytes: &Vec<u8>, offs: &Vec<i32>) -> (res: Result<Vec<Vec<u8>>>)
    ensures
        res matches Ok(v) ==> v@.len() == (if offs@.len() == 0 {
            0int
        } else {
            offs@.len() - 1
        }),
        res matches Ok(v) ==> forall|i: int|
            0 <= i < v@.len() ==> (#[trigger] v@[i])@ == bytes@.subrange(
                offs@[i] as int,
                offs@[i + 1] as int,
            ),
        res is Ok <==> (forall|i: int|
            0 <= i < offs@.len() - 1 ==> 0 <= #[trigger] offs@[i] && offs@[i] <= offs@[i + 1]
                && offs@[i + 1] <= bytes@.len()),
{
    let mut out: Vec<Vec<u8>> = Vec::new();
    if offs.len() == 0 {
        return Ok(out);
    }
    let m: usize = offs.len() - 1;
    let mut i: usize = 0;
    while i < m
        invariant
            m == offs@.len() - 1,
            i <= m,
            out@.len() == i,
            forall|t: int|
                0 <= t < i ==> (#[trigger] out@[t])@ == bytes@.subrange(
                    offs@[t] as int,
                    offs@[t + 1] as int,
                ),
            forall|t: int|
                0 <= t < i ==> 0 <= #[trigger] offs@[t] && offs@[t] <= offs@[t + 1] && offs@[t
                    + 1] <= bytes@.len(),
        decreases m - i,
    {
        let start: i32 = offs[i];
        let stop: i32 = offs[i + 1];
        if start < 0 || stop < start || stop as usize > bytes.len() {
            return Err(Error::MalformedBranch);
        }
        let rec: &[u8] = vstd::slice::slice_subrange(bytes.as_slice(), start as usize, stop as usize);
        out.push(vstd::slice::slice_to_vec(rec));
        i = i + 1;
    }
    Ok(out)
}

/// First position at or after `i` holding a bracket, or the end of the text.
pub open spec fn first_bracket(t: Seq<char>, i: int) -> int
    decreases t.len() - i,
{
    if i < 0 || i >= t.len() {
        t.len() as int
    } else if t[i] == '[' || t[i] == ']' {
        i
    } else {
        first_bracket(t, i + 1)
    }
}

/// Whether a leaf title declares dimensions: it starts with a bracket-free
/// prefix followed by a non-empty bracketed group.
pub open spec fn title_has_dims(t: Seq<char>) -> bool {
    let f = first_bracket(t, 0);
    f < t.len() && t[f] == '[' && {
        let g = first_bracket(t, f + 1);
        g < t.len() && t[g] == ']' && g > f + 1
    }
}

/// First position at or after `i` holding a non-digit, or the end.
pub open spec fn digits_end(t: Seq<char>, i: int) -> int
    decreases t.len() - i,
{
    if i < 0 || i >= t.len() {
        i
    } else if '0' <= t[i] && t[i] <= '9' {
        digits_end(t, i + 1)
    } else {
        i
    }
}

/// Whether a numeric dimension group `[n]`, with no leading zero, starts
/// exactly at `i`.
pub open spec fn dim_match_at(t: Seq<char>, i: int) -> bool {
    0 <= i && i + 1 < t.len() && t[i] == '[' && '1' <= t[i + 1] && t[i + 1] <= '9' && {
        let e = digits_end(t, i + 1);
        e < t.len() && t[e] == ']'
    }
}

/// Position of the leftmost numeric dimension group at or after `i`, or the
/// end of the text.
pub open spec fn first_dim_pos(t: Seq<char>, i: int) -> int
    decreases t.len() - i,
{
    if i < 0 || i >= t.len() {
        t.len() as int
    } else if dim_match_at(t, i) {
        i
    } else {
        first_dim_pos(t, i + 1)
    }
}

proof fn lemma_digits_end_ge(t: Seq<char>, i: int)
    ensures
        digits_end(t, i) >= i,
    decreases t.len() - i,
{
    if 0 <= i < t.len() && '0' <= t[i] && t[i] <= '9' {
        lemma_digits_end_ge(t, i + 1);
    }
}

/// Position just past the maximal run of adjacent numeric dimension groups
/// starting at `i`.
pub open spec fn dim_run_end(t: Seq<char>, i: int) -> int
    decreases t.len() - i,
    via dim_run_end_dec
{
    if dim_match_at(t, i) {
        dim_run_end(t, digits_end(t, i + 1) + 1)
    } else {
        i
    }
}

#[via_fn]
proof fn dim_run_end_dec(t: Seq<char>, i: int) {
    if dim_match_at(t, i) {
        lemma_digits_end_ge(t, i + 1);
    }
}

/// Relies on `regex::Regex::captures` with the fixed anchored pattern
/// `^([^\[\]]*)(\[[^\[\]]+\])+`: a match exists exactly when the first
/// bracket of the text is `[`, and the next bracket after it is `]` with at
/// least one character between them.
#[verifier::external_body]
fn title_has_dims_exec(s: &str) -> (r: bool)
    ensures
        r == title_has_dims(s@),
{
    let re = regex::Regex::new(r"^([^\[\]]*)(\[[^\[\]]+\])+").unwrap();
    re.captures(s).is_some()
}

/// Relies on `regex::Regex::captures` with the fixed pattern
/// `\[([1-9][0-9]*)\]`: the first capture is the digit run of the leftmost
/// numeric dimension group, when one exists.
#[verifier::external_body]
fn first_dim_digits(s: &str) -> (r: Option<String>)
    ensures
        r is Some <==> first_dim_pos(s@, 0) < s@.len(),
        r matches Some(d) ==> ({
            let p = first_dim_pos(s@, 0);
            d@ == s@.subrange(p + 1, digits_end(s@, p + 1))
        }),
{
    let re = regex::Regex::new(r"\[([1-9][0-9]*)\]").unwrap();
    re.captures(s).map(|c| c.get(1).unwrap().as_str().to_string())
}

/// Relies on `regex::Regex::captures` with the fixed pattern
/// `(\[[1-9][0-9]*\])+`: the whole match is the maximal run of adjacent
/// numeric dimension groups starting at the leftmost one, when one exists.
#[verifier::external_body]
fn first_dim_run(s: &str) -> (r: Option<String>)
    ensures
        r is Some <==> first_dim_pos(s@, 0) < s@.len(),
        r matches Some(d) ==> ({
            let p = first_dim_pos(s@, 0);
            d@ == s@.subrange(p, dim_run_end(s@, p))
        }),
{
    let re = regex::Regex::new(r"(\[[1-9][0-9]*\])+").unwrap();
    re.captures(s).map(|c| c.get(0).unwrap().as_str().to_string())
}

impl TBranch {
    /// The reader-facing item type of a single-leaf branch, with the numeric
    /// dimension re-attached: a title `arr[5]` on a 32-bit float leaf reads
    /// `float[5]`, a non-numeric dimension reads `float[]`, and a branch
    /// whose leaf count is not one reads `unknown`.
    pub open spec fn spec_item_type_name(&self) -> Seq<char> {
        if self.leaves@.len() == 1 {
            let t = self.leaves@[0].sbase().named.title@;
            let nm = self.leaves@[0].skind_name();
            if !title_has_dims(t) {
                nm
            } else {
                let p = first_dim_pos(t, 0);
                if p < t.len() {
                    nm + "["@ + t.subrange(p + 1, digits_end(t, p + 1)) + "]"@
                } else {
                    nm + "[]"@
                }
            }
        } else {
            "unknown"@
        }
    }

    /// The item type name with the numeric dimension of the leaf title
    /// re-attached.
    pub fn item_type_name(&self) -> (r: String)
        requires
            self.leaves@.len() == 1 ==> !(self.leaves@[0] is Element),
        ensures
            r@ == self.spec_item_type_name(),
    {
        if self.leaves.len() == 1 {
            let leaf: &Leaf = &self.leaves[0];
            let name: &'static str = match leaf.kind_name() {
                Some(s) => s,
                None => {
                    return String::from_str("unknown");
                },
            };
            let title: &String = leaf.title();
            if title_has_dims_exec(title.as_str()) {
                match first_dim_digits(title.as_str()) {
                    Some(d) => {
                        let mut out: String = String::from_str(name);
                        out.append("[");
                        out.append(d.as_str());
                        out.append("]");
                        out
                    },
                    None => {
                        let mut out: String = String::from_str(name);
                        out.append("[]");
                        proof {
                            assert(out@ =~= leaf.skind_name() + "[]"@);
                        }
                        out
                    },
                }
            } else {
                String::from_str(name)
            }
        } else {
            String::from_str("unknown")
        }
    }

    /// Like the item type name, but with the whole run of numeric dimension
    /// groups attached: a title `m[2][3]` on a 32-bit float leaf reads
    /// `float[2][3]`.
    pub open spec fn spec_item_type_name_complete(&self) -> Seq<char> {
        if self.leaves@.len() == 1 {
            let t = self.leaves@[0].sbase().named.title@;
            let nm = self.leaves@[0].skind_name();
            if !title_has_dims(t) {
                nm
            } else {
                let p = first_dim_pos(t, 0);
                if p < t.len() {
                    nm + t.subrange(p, dim_run_end(t, p))
                } else {
                    nm + "[]"@
                }
            }
        } else {
            "unknown"@
        }
    }

    /// The item type name with every numeric dimension group attached.
    pub fn item_type_name_complete(&self) -> (r: String)
        requires
            self.leaves@.len() == 1 ==> !(self.leaves@[0] is Element),
        ensures
            r@ == self.spec_item_type_name_complete(),
    {
        if self.leaves.len() == 1 {
            let leaf: &Leaf = &self.leaves[0];
            let name: &'static str = match leaf.kind_name() {
                Some(s) => s,
                None => {
                    return String::from_str("unknown");
                },
            };
            let title: &String = leaf.title();
            if title_has_dims_exec(title.as_str()) {
                match first_dim_run(title.as_str()) {
                    Some(d) => {
                        let mut out: String = String::from_str(name);
                        out.append(d.as_str());
                        out
                    },
                    None => {
                        let mut out: String = String::from_str(name);
                        out.append("[]");
                        proof {
                            assert(out@ =~= leaf.skind_name() + "[]"@);
                        }
                        out
                    },
                }
            } else {
                String::from_str(name)
            }
        } else {
            String::from_str("unknown")
        }
    }
}

impl Branch {
    /// The item type name of the plain part of this branch.
    pub fn item_type_name(&self) -> (r: String)
        requires
            self.stbranch().leaves@.len() == 1 ==> !(self.stbranch().leaves@[0] is Element),
        ensures
            r@ == self.stbranch().spec_item_type_name(),
    {
        self.tbranch().item_type_name()
    }
}

/// The stored table capacity the marshaller writes: one past the written
/// baskets, with a floor of the default.
pub open spec fn marshal_max_baskets(wb: i32) -> int {
    if wb + 1 < 10 {
        10
    } else {
        wb + 1
    }
}

/// The body of a marshalled branch record in its newest layout.
pub open spec fn branch_body_bytes(b: &TBranch) -> Seq<u8> {
    let bmax = marshal_max_baskets(b.write_basket);
    crate::wbuffer::named_bytes(&b.named) + crate::wbuffer::frame_bytes(2, Seq::<u8>::empty())
        + crate::wbuffer::enc4(crate::wbuffer::u32_of_i32(b.compress)) + crate::wbuffer::enc4(
        crate::wbuffer::u32_of_i32(b.basket_size),
    ) + crate::wbuffer::enc4(crate::wbuffer::u32_of_i32(b.entry_offset_len))
        + crate::wbuffer::enc4(crate::wbuffer::u32_of_i32(b.write_basket)) + crate::wbuffer::enc8(
        crate::wbuffer::u64_of_i64(b.entry_number),
    ) + crate::wbuffer::tio_bytes(b.iobits) + crate::wbuffer::enc4(
        crate::wbuffer::u32_of_i32(b.offset),
    ) + crate::wbuffer::enc4(bmax as u32) + crate::wbuffer::enc4(
        crate::wbuffer::u32_of_i32(b.split_level),
    ) + crate::wbuffer::enc8(crate::wbuffer::u64_of_i64(b.entries)) + crate::wbuffer::enc8(
        crate::wbuffer::u64_of_i64(b.first_entry),
    ) + crate::wbuffer::enc8(crate::wbuffer::u64_of_i64(b.tot_bytes)) + crate::wbuffer::enc8(
        crate::wbuffer::u64_of_i64(b.zip_bytes),
    ) + crate::wbuffer::objarray_bytes(0, Seq::<u8>::empty()) + crate::wbuffer::objarray_bytes(
        b.leaves@.len() as int,
        crate::wbuffer::leaves_bytes(b.leaves@),
    ) + crate::wbuffer::objarray_bytes(0, Seq::<u8>::empty()) + seq![1u8]
        + crate::wbuffer::enc4_list(b.basket_bytes@) + crate::wbuffer::zeros(
        4 * (bmax - b.basket_bytes@.len()),
    ) + seq![1u8] + crate::wbuffer::enc8_list(b.basket_entry@) + crate::wbuffer::zeros(
        8 * (bmax - b.basket_entry@.len()),
    ) + seq![1u8] + crate::wbuffer::enc8_list(b.basket_seek@) + crate::wbuffer::zeros(
        8 * (bmax - b.basket_seek@.len()),
    ) + crate::wbuffer::enc_str(b.fname@)
}

/// The whole marshalled branch record.
pub open spec fn branch_record_bytes(b: &TBranch) -> Seq<u8> {
    crate::wbuffer::frame_bytes(rvers::BRANCH as u16, branch_body_bytes(b))
}

impl TBranch {
    /// Writes this branch in the newest record layout, returning the number
    /// of bytes written. Only leaf-bearing branches are written: nested
    /// branches and embedded baskets have no write path here, and a failed
    /// size check writes nothing.
    #[verifier::rlimit(100)]
    pub fn marshal(&self, w: &mut crate::wbuffer::WBuffer) -> (res: Result<i64>)
        requires
            self.wf_tables(),
            self.branches@.len() == 0,
            self.baskets@.len() == 0,
        ensures
            res matches Ok(n) ==> final(w).sdata() == old(w).sdata() + branch_record_bytes(self)
                && n == branch_record_bytes(self).len(),
            res is Err ==> final(w).sdata() == old(w).sdata(),
    {
        if self.write_basket == i32::MAX {
            return Err(Error::Truncated);
        }
        let bmax: i32 = if self.write_basket + 1 < 10 {
            10
        } else {
            self.write_basket + 1
        };
        let mut bw = crate::wbuffer::WBuffer::new();
        match bw.write_named(&self.named) {
            Ok(_) => (),
            Err(e) => {
                return Err(e);
            },
        }
        match bw.write_empty_frame(2) {
            Ok(_) => (),
            Err(e) => {
                return Err(e);
            },
        }
        bw.write_i32(self.compress);
        bw.write_i32(self.basket_size);
        bw.write_i32(self.entry_offset_len);
        bw.write_i32(self.write_basket);
        bw.write_i64(self.entry_number);
        match bw.write_tio(self.iobits) {
            Ok(_) => (),
            Err(e) => {
                return Err(e);
            },
        }
        bw.write_i32(self.offset);
        bw.write_i32(bmax);
        bw.write_i32(self.split_level);
        bw.write_i64(self.entries);
        bw.write_i64(self.first_entry);
        bw.write_i64(self.tot_bytes);
        bw.write_i64(self.zip_bytes);
        match bw.write_empty_objarray() {
            Ok(_) => (),
            Err(e) => {
                return Err(e);
            },
        }
        match bw.write_leaf_list(&self.leaves) {
            Ok(_) => (),
            Err(e) => {
                return Err(e);
            },
        }
        match bw.write_empty_objarray() {
            Ok(_) => (),
            Err(e) => {
                return Err(e);
            },
        }
        let cap: usize = bmax as usize;
        bw.write_i32_table(&self.basket_bytes, cap);
        bw.write_i64_table(&self.basket_entry, cap);
        bw.write_i64_table(&self.basket_seek, cap);
        let fname_len: usize = self.fname.as_str().as_bytes().len();
        if fname_len > u32::MAX as usize {
            return Err(Error::Truncated);
        }
        bw.write_string(self.fname.as_str());
        proof {
            assert(bw.sdata() =~= branch_body_bytes(self));
        }
        let rec: Vec<u8> = match bw.into_framed(rvers::BRANCH as u16) {
            Ok(v) => v,
            Err(e) => {
                return Err(e);
            },
        };
        let n: usize = rec.len();
        w.write_bytes(rec.as_slice());
        Ok(n as i64)
    }
}

/// Consumes one stored reference to a counter branch; an inline object is
/// decoded and dropped.
fn consume_branch_ref(r: &mut RBuffer) -> (res: Result<()>)
    requires
        old(r).wf(),
    ensures
        final(r).same_frame(old(r)),
        final(r).wf(),
        final(r).spos() >= old(r).spos(),
    decreases old(r).sdata().len() - old(r).spos(), 0int,
{
    let tag = match r.read_object_tag() {
        Ok(t) => t,
        Err(e) => {
            return Err(e);
        },
    };
    match tag {
        ObjTag::Absent => Ok(()),
        ObjTag::Backref(_) => Ok(()),
        ObjTag::Fresh(cname) => {
            match read_branch_of_class(r, cname.as_str()) {
                Ok(_) => Ok(()),
                Err(e) => Err(e),
            }
        },
        ObjTag::Seen(cname) => {
            match read_branch_of_class(r, cname.as_str()) {
                Ok(_) => Ok(()),
                Err(e) => Err(e),
            }
        },
    }
}

} // verus!
