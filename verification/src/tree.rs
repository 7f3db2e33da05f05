//! The top-level container of columns: cluster ranges, IO features, and the
//! tree record that owns every branch.

use vstd::prelude::*;

use crate::branch::{branch_find, branch_named, branch_with_subtree, Branch};
use crate::error::{Error, Result};
use crate::rbase::{skip_object_frame, str_eq, Named};
use crate::rbuffer::{ensure_maximum_supported_version, hdr_count, hdr_has_count, hdr_vers, RBuffer};
use crate::rfile::RootFileReader;
use crate::rmeta::StreamerInfoContext;
use crate::rvers;

verus! {

/// Runs of consecutive entries that share basket boundaries across branches.
#[derive(Debug, Default)]
pub struct Clusters {
    pub ranges: Vec<i64>,
    pub sizes: Vec<i64>,
}

/// The IO-feature flags a tree or branch was written with.
#[derive(Debug, Clone, Copy, PartialEq, Eq, Structural)]
pub struct TioFeatures(pub u8);

impl TioFeatures {
    /// Decodes a framed IO-features record: a flag byte, and when the flag
    /// is set, three reserved bytes and the feature byte itself.
    pub fn unmarshal(r: &mut RBuffer) -> (res: Result<TioFeatures>)
        requires
            old(r).wf(),
        ensures
            final(r).same_frame(old(r)),
            final(r).wf(),
            final(r).spos() >= old(r).spos(),
            res matches Ok(t) ==> ({
                let s = old(r).sdata();
                let p = old(r).spos();
                &&& p + 7 <= s.len()
                &&& (s[p + 6] == 0 ==> t.0 == 0)
                &&& (s[p + 6] != 0 ==> p + 11 <= s.len() && t.0 == s[p + 10])
            }),
            res is Ok && hdr_has_count(old(r).sdata(), old(r).spos()) ==> final(r).spos() == old(
                r,
            ).spos() + hdr_count(old(r).sdata(), old(r).spos()) + 4,
            ({
                let s = old(r).sdata();
                let p = old(r).spos();
                (p + 6 <= s.len() && hdr_has_count(s, p) && old(r).sbase() + p + hdr_count(s, p)
                    + 4 <= u64::MAX && hdr_vers(s, p + 4) > rvers::IOFEATURES as int) ==> (res
                matches Err(e) && (e matches Error::UnsupportedVersion { class: c, vers: v, max: m }
                    && c@ == "TIOFeatures"@ && v as int == hdr_vers(s, p + 4) && m
                    == rvers::IOFEATURES))
            }),
            ({
                let s = old(r).sdata();
                let p = old(r).spos();
                let used = if s[p + 6] == 0 {
                    p + 7
                } else {
                    p + 11
                };
                (p + 6 <= s.len() && hdr_has_count(s, p) && old(r).sbase() + p + hdr_count(s, p)
                    + 4 <= u64::MAX) ==> (res is Ok <==> (hdr_vers(s, p + 4)
                    <= rvers::IOFEATURES as int && p + 7 <= s.len() && (s[p + 6] != 0 ==> p + 11
                    <= s.len()) && used <= p + hdr_count(s, p) + 4 && p + hdr_count(s, p) + 4
                    <= s.len()))
            }),
    {
        let hdr = match r.read_header() {
            Ok(h) => h,
            Err(e) => {
                return Err(e);
            },
        };
        match ensure_maximum_supported_version(hdr.vers, rvers::IOFEATURES, "TIOFeatures") {
            Ok(_) => (),
            Err(e) => {
                return Err(e);
            },
        }
        let flag: u8 = match r.read_u8() {
            Ok(v) => v,
            Err(e) => {
                return Err(e);
            },
        };
        let val: u8 = if flag != 0 {
            match r.skip(3) {
                Ok(_) => (),
                Err(e) => {
                    return Err(e);
                },
            }
            match r.read_u8() {
                Ok(v) => v,
                Err(e) => {
                    return Err(e);
                },
            }
        } else {
            0
        };
        match r.check_header(&hdr) {
            Ok(_) => (),
            Err(e) => {
                return Err(e);
            },
        }
        Ok(TioFeatures(val))
    }
}

impl Default for TioFeatures {
    fn default() -> (r: Self)
        ensures
            r.0 == 0,
    {
        TioFeatures(0)
    }
}

/// Whether some branch of the tree, at any depth, bears the given name.
pub open spec fn tree_has(t: &Tree, name: Seq<char>) -> bool {
    exists|i: int| 0 <= i < t.branches@.len() && branch_named(#[trigger] t.branches@[i], name)
}

/// The first branch of the tree bearing the name, searching top-level
/// branches from `i` on, each with its subtree, in depth-first preorder.
pub open spec fn tree_find(t: &Tree, name: Seq<char>, i: int) -> Option<Branch>
    decreases t.branches@.len() - i,
{
    if i < 0 || i >= t.branches@.len() {
        Option::None
    } else {
        match branch_find(t.branches@[i], name) {
            Some(b) => Some(b),
            Option::None => tree_find(t, name, i + 1),
        }
    }
}

/// All branches of the tree, each followed by its subtree, depth-first,
/// starting from top-level branch `i`.
pub open spec fn tree_flat(t: &Tree, i: int) -> Seq<Branch>
    decreases t.branches@.len() - i,
{
    if i < 0 || i >= t.branches@.len() {
        Seq::empty()
    } else {
        branch_with_subtree(t.branches@[i]) + tree_flat(t, i + 1)
    }
}

/// A decoded tree: the authoritative entry count, bookkeeping counters, the
/// cluster table, and the branches. The reader handle and the streamer
/// catalog are attached after decoding by whoever opened the file.
pub struct Tree {
    pub rvers: i16,
    pub named: Named,
    /// Number of entries.
    pub entries: i64,
    /// Total number of bytes in all branches before compression.
    pub tot_bytes: i64,
    /// Total number of bytes in all branches after compression.
    pub zip_bytes: i64,
    /// Number of autosaved bytes.
    pub saved_bytes: i64,
    /// Number of auto-flushed bytes.
    pub flushed_bytes: i64,
    /// Bit pattern of the stored tree weight, a 64-bit float.
    pub weight_bits: u64,
    pub timer_interval: i32,
    pub scan_field: i32,
    pub update: i32,
    pub default_entry_offset_len: i32,
    pub max_entries: i64,
    pub max_entry_loop: i64,
    pub max_virtual_size: i64,
    pub auto_save: i64,
    pub auto_flush: i64,
    pub estimate: i64,
    pub clusters: Clusters,
    pub iobits: TioFeatures,
    pub branches: Vec<Branch>,
    pub reader: Option<RootFileReader>,
    pub sinfos: Option<StreamerInfoContext>,
}

impl Tree {
    /// Every branch of a decoded tree satisfies the table invariants, all
    /// the way down.
    pub open spec fn wf(&self) -> bool {
        forall|i: int| 0 <= i < self.branches@.len() ==> (#[trigger] self.branches@[i]).wf_deep()
    }

    pub fn name(&self) -> (r: &String)
        ensures
            r == self.named.name,
    {
        &self.named.name
    }

    /// Number of entries in the tree, as the tree record states it.
    pub fn entries(&self) -> (r: i64)
        ensures
            r == self.entries,
    {
        self.entries
    }

    /// The top-level branches.
    pub fn branches(&self) -> (r: &Vec<Branch>)
        ensures
            r == self.branches,
    {
        &self.branches
    }

    /// The attached reader handle, when the tree came from a file.
    pub fn reader(&self) -> (r: &Option<RootFileReader>)
        ensures
            r == self.reader,
    {
        &self.reader
    }

    /// Finds a branch by name: exactly the first bearer of the name in
    /// depth-first preorder over the tree, and a miss means no branch of
    /// the tree bears it.
    pub fn branch(&self, name: &str) -> (r: Option<&Branch>)
        requires
            self.wf(),
        ensures
            r matches Some(b) ==> b.wf_deep() && b.stbranch().named.name@ == name@ && Some(*b)
                == tree_find(self, name@, 0),
            r is None ==> !tree_has(self, name@) && tree_find(self, name@, 0) is None,
    {
        let mut i: usize = 0;
        while i < self.branches.len()
            invariant
                self.wf(),
                forall|j: int| 0 <= j < i ==> !branch_named(#[trigger] self.branches@[j], name@),
                tree_find(self, name@, 0) == tree_find(self, name@, i as int),
            decreases self.branches@.len() - i,
        {
            let b = &self.branches[i];
            proof {
                assert(self.branches@[i as int].wf_deep());
            }
            if str_eq(b.name().as_str(), name) {
                proof {
                    assert(branch_find(self.branches@[i as int], name@) == Some(*b));
                }
                return Some(b);
            }
            if let Some(bb) = b.branch(name) {
                proof {
                    assert(branch_find(self.branches@[i as int], name@) == Some(*bb));
                }
                return Some(bb);
            }
            proof {
                assert(!branch_named(self.branches@[i as int], name@));
                assert(branch_find(self.branches@[i as int], name@) is None);
            }
            i = i + 1;
        }
        None
    }

    /// All branches of the tree, each followed by the branches nested below
    /// it, depth-first.
    pub fn branches_r(&self) -> (r: Vec<&Branch>)
        ensures
            r@.map_values(|x: &Branch| *x) == tree_flat(self, 0),
    {
        let mut out: Vec<&Branch> = Vec::new();
        let mut i: usize = 0;
        proof {
            assert(out@.map_values(|x: &Branch| *x) =~= Seq::<Branch>::empty());
        }
        while i < self.branches.len()
            invariant
                i <= self.branches@.len(),
                out@.map_values(|x: &Branch| *x) + tree_flat(self, i as int) == tree_flat(self, 0),
            decreases self.branches@.len() - i,
        {
            let ghost pre = out@.map_values(|x: &Branch| *x);
            let b = &self.branches[i];
            out.push(b);
            let mut below: Vec<&Branch> = b.branches_r();
            let ghost gbelow = below@.map_values(|x: &Branch| *x);
            out.append(&mut below);
            proof {
                assert(out@.map_values(|x: &Branch| *x) =~= pre + seq![*b] + gbelow);
                assert(seq![*b] + gbelow =~= branch_with_subtree(self.branches@[i as int]));
                assert((pre + seq![*b] + gbelow) + tree_flat(self, i as int + 1) =~= pre
                    + tree_flat(self, i as int));
            }
            i = i + 1;
        }
        proof {
            assert(tree_flat(self, self.branches@.len() as int) =~= Seq::<Branch>::empty());
            assert(out@.map_values(|x: &Branch| *x) + Seq::<Branch>::empty() =~= out@.map_values(
                |x: &Branch| *x,
            ));
        }
        out
    }

    /// Decodes a tree record. Versions through twenty are handled; newer
    /// ones fail with `UnsupportedVersion`, as do the ancient ones below
    /// five. A tree that stores any of the optional trailing objects this
    /// reader does not decode (an index, friends, user info) fails cleanly.
    pub fn unmarshal(r: &mut RBuffer) -> (res: Result<Tree>)
        requires
            old(r).wf(),
        ensures
            final(r).same_frame(old(r)),
            final(r).wf(),
            final(r).spos() >= old(r).spos(),
            res matches Ok(t) ==> t.wf() && t.clusters.ranges@.len() == t.clusters.sizes@.len(),
            res is Ok && hdr_has_count(old(r).sdata(), old(r).spos()) ==> final(r).spos() == old(
                r,
            ).spos() + hdr_count(old(r).sdata(), old(r).spos()) + 4,
            ({
                let s = old(r).sdata();
                let p = old(r).spos();
                (p + 6 <= s.len() && hdr_has_count(s, p) && old(r).sbase() + p + hdr_count(s, p)
                    + 4 <= u64::MAX && hdr_vers(s, p + 4) > rvers::TREE as int) ==> (res matches
                Err(e) && (e matches Error::UnsupportedVersion { class: c, vers: v, max: m } && c@
                    == "TTree"@ && v as int == hdr_vers(s, p + 4) && m == rvers::TREE))
            }),
            ({
                let s = old(r).sdata();
                let p = old(r).spos();
                (p + 6 <= s.len() && hdr_has_count(s, p) && old(r).sbase() + p + hdr_count(s, p)
                    + 4 <= u64::MAX && hdr_vers(s, p + 4) <= 4) ==> res is Err
            }),
    {
        let hdr = match r.read_header() {
            Ok(h) => h,
            Err(e) => {
                return Err(e);
            },
        };
        match ensure_maximum_supported_version(hdr.vers, rvers::TREE, "TTree") {
            Ok(_) => (),
            Err(e) => {
                return Err(e);
            },
        }
        let named = match Named::unmarshal(r) {
            Ok(v) => v,
            Err(e) => {
                return Err(e);
            },
        };
        match skip_object_frame(r) {
            Ok(_) => (),
            Err(e) => {
                return Err(e);
            },
        }
        match skip_object_frame(r) {
            Ok(_) => (),
            Err(e) => {
                return Err(e);
            },
        }
        match skip_object_frame(r) {
            Ok(_) => (),
            Err(e) => {
                return Err(e);
            },
        }
        if hdr.vers <= 4 {
            return Err(
                Error::UnsupportedVersion { class: String::from_str("TTree"), vers: hdr.vers, max: rvers::TREE },
            );
        }
        let entries: i64;
        let tot_bytes: i64;
        let zip_bytes: i64;
        let saved_bytes: i64;
        if hdr.vers > 5 {
            entries = match r.read_i64() {
                Ok(v) => v,
                Err(e) => {
                    return Err(e);
                },
            };
            tot_bytes = match r.read_i64() {
                Ok(v) => v,
                Err(e) => {
                    return Err(e);
                },
            };
            zip_bytes = match r.read_i64() {
                Ok(v) => v,
                Err(e) => {
                    return Err(e);
                },
            };
            saved_bytes = match r.read_i64() {
                Ok(v) => v,
                Err(e) => {
                    return Err(e);
                },
            };
        } else {
            entries = match r.read_f64_as_i64() {
                Ok(v) => v,
                Err(e) => {
                    return Err(e);
                },
            };
            tot_bytes = match r.read_f64_as_i64() {
                Ok(v) => v,
                Err(e) => {
                    return Err(e);
                },
            };
            zip_bytes = match r.read_f64_as_i64() {
                Ok(v) => v,
                Err(e) => {
                    return Err(e);
                },
            };
            saved_bytes = match r.read_f64_as_i64() {
                Ok(v) => v,
                Err(e) => {
                    return Err(e);
                },
            };
        }
        let mut flushed_bytes: i64 = 0;
        if hdr.vers >= 18 {
            flushed_bytes = match r.read_i64() {
                Ok(v) => v,
                Err(e) => {
                    return Err(e);
                },
            };
        }
        let mut weight_bits: u64 = 0;
        if hdr.vers >= 16 {
            weight_bits = match r.read_u64() {
                Ok(v) => v,
                Err(e) => {
                    return Err(e);
                },
            };
        }
        let timer_interval: i32 = match r.read_i32() {
            Ok(v) => v,
            Err(e) => {
                return Err(e);
            },
        };
        let scan_field: i32 = match r.read_i32() {
            Ok(v) => v,
            Err(e) => {
                return Err(e);
            },
        };
        let update: i32 = match r.read_i32() {
            Ok(v) => v,
            Err(e) => {
                return Err(e);
            },
        };
        let mut default_entry_offset_len: i32 = 0;
        if hdr.vers >= 17 {
            default_entry_offset_len = match r.read_i32() {
                Ok(v) => v,
                Err(e) => {
                    return Err(e);
                },
            };
        }
        let mut nclus: i32 = 0;
        if hdr.vers >= 19 {
            nclus = match r.read_i32() {
                Ok(v) => v,
                Err(e) => {
                    return Err(e);
                },
            };
        }
        let mut max_entries: i64 = 0;
        if hdr.vers > 5 {
            max_entries = match r.read_i64() {
                Ok(v) => v,
                Err(e) => {
                    return Err(e);
                },
            };
        }
        let max_entry_loop: i64;
        let max_virtual_size: i64;
        let auto_save: i64;
        if hdr.vers > 5 {
            max_entry_loop = match r.read_i64() {
                Ok(v) => v,
                Err(e) => {
                    return Err(e);
                },
            };
            max_virtual_size = match r.read_i64() {
                Ok(v) => v,
                Err(e) => {
                    return Err(e);
                },
            };
            auto_save = match r.read_i64() {
                Ok(v) => v,
                Err(e) => {
                    return Err(e);
                },
            };
        } else {
            max_entry_loop = match r.read_i32() {
                Ok(v) => v as i64,
                Err(e) => {
                    return Err(e);
                },
            };
            max_virtual_size = match r.read_i32() {
                Ok(v) => v as i64,
                Err(e) => {
                    return Err(e);
                },
            };
            auto_save = match r.read_i32() {
                Ok(v) => v as i64,
                Err(e) => {
                    return Err(e);
                },
            };
        }
        let mut auto_flush: i64 = 0;
        if hdr.vers >= 18 {
            auto_flush = match r.read_i64() {
                Ok(v) => v,
                Err(e) => {
                    return Err(e);
                },
            };
        }
        let estimate: i64;
        if hdr.vers > 5 {
            estimate = match r.read_i64() {
                Ok(v) => v,
                Err(e) => {
                    return Err(e);
                },
            };
        } else {
            estimate = match r.read_i32() {
                Ok(v) => v as i64,
                Err(e) => {
                    return Err(e);
                },
            };
        }
        let mut clusters = Clusters { ranges: Vec::new(), sizes: Vec::new() };
        if hdr.vers >= 19 {
            if nclus < 0 || nclus as u32 > 0x0FFF_FFFF {
                return Err(Error::Truncated);
            }
            match r.read_i8() {
                Ok(_) => (),
                Err(e) => {
                    return Err(e);
                },
            }
            clusters.ranges = match r.read_array_i64(nclus as usize) {
                Ok(v) => v,
                Err(e) => {
                    return Err(e);
                },
            };
            match r.read_i8() {
                Ok(_) => (),
                Err(e) => {
                    return Err(e);
                },
            }
            clusters.sizes = match r.read_array_i64(nclus as usize) {
                Ok(v) => v,
                Err(e) => {
                    return Err(e);
                },
            };
        }
        let mut iobits: TioFeatures = TioFeatures(0);
        if hdr.vers >= 20 {
            iobits = match TioFeatures::unmarshal(r) {
                Ok(v) => v,
                Err(e) => {
                    return Err(e);
                },
            };
        }
        let branches: Vec<Branch> = match crate::branch::read_branch_list(r) {
            Ok(v) => v,
            Err(e) => {
                return Err(e);
            },
        };
        match crate::branch::read_leaf_list(r) {
            Ok(_) => (),
            Err(e) => {
                return Err(e);
            },
        }
        if hdr.vers > 5 {
            match expect_absent(r) {
                Ok(_) => (),
                Err(e) => {
                    return Err(e);
                },
            }
        }
        match expect_absent(r) {
            Ok(_) => (),
            Err(e) => {
                return Err(e);
            },
        }
        match expect_absent(r) {
            Ok(_) => (),
            Err(e) => {
                return Err(e);
            },
        }
        if hdr.vers > 5 {
            let mut j: usize = 0;
            while j < 4
                invariant
                    r.wf(),
                    r.same_frame(old(r)),
                    r.spos() >= old(r).spos(),
                    hdr.vers as int == hdr_vers(old(r).sdata(), old(r).spos() + 4),
                    4 < hdr.vers <= rvers::TREE,
                decreases 4 - j,
            {
                match expect_absent(r) {
                    Ok(_) => (),
                    Err(e) => {
                        return Err(e);
                    },
                }
                j = j + 1;
            }
        }
        match r.check_header(&hdr) {
            Ok(_) => (),
            Err(e) => {
                return Err(e);
            },
        }
        let tree = Tree {
            rvers: hdr.vers,
            named,
            entries,
            tot_bytes,
            zip_bytes,
            saved_bytes,
            flushed_bytes,
            weight_bits,
            timer_interval,
            scan_field,
            update,
            default_entry_offset_len,
            max_entries,
            max_entry_loop,
            max_virtual_size,
            auto_save,
            auto_flush,
            estimate,
            clusters,
            iobits,
            branches,
            reader: None,
            sinfos: None,
        };
        Ok(tree)
    }
}

/// Reads one stored object reference that this decoder requires to be
/// absent; a present object names a tree feature the reader does not decode.
fn expect_absent(r: &mut RBuffer) -> (res: Result<()>)
    requires
        old(r).wf(),
    ensures
        final(r).same_frame(old(r)),
        final(r).wf(),
        final(r).spos() >= old(r).spos(),
{
    let tag = match r.read_object_tag() {
        Ok(t) => t,
        Err(e) => {
            return Err(e);
        },
    };
    match tag {
        crate::rbuffer::ObjTag::Absent => Ok(()),
        crate::rbuffer::ObjTag::Backref(_) => Err(Error::UnknownClass(String::new())),
        crate::rbuffer::ObjTag::Fresh(cname) => Err(Error::UnknownClass(cname)),
        crate::rbuffer::ObjTag::Seen(cname) => Err(Error::UnknownClass(cname)),
    }
}

} // verus!
