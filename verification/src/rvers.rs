//! The newest on-disk class versions this reader decodes; anything above
//! them fails with `UnsupportedVersion`.

use vstd::prelude::*;

verus! {

pub const BRANCH: i16 = 13;

pub const BRANCH_ELEMENT: i16 = 10;

pub const TREE: i16 = 20;

pub const IOFEATURES: i16 = 1;

pub const LEAF: i16 = 2;

pub const BASKET: i16 = 3;

} // verus!
