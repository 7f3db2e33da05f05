//! Reader for the ROOT binary container format: locates a stored tree in a
//! file image, decodes its branch metadata, and yields each branch's basket
//! payloads as typed chunks.

use vstd::prelude::*;

pub mod basket;
pub mod branch;
pub mod error;
pub mod leaf;
pub mod rbase;
pub mod rcompress;
pub mod rbuffer;
pub mod rfile;
pub mod rkey;
pub mod rmeta;
pub mod rvers;
pub mod tree;
pub mod typed;
pub mod wbuffer;

verus! {

} // verus!
