//! The scanner's filter: which walked paths are candidates for synchronisation.
use vstd::prelude::*;
use crate::paths::{bytes_eq, extension, extension_of};

verus! {

/// The contents of each of a list of byte vectors.
pub open spec fn views(v: Seq<Vec<u8>>) -> Seq<Seq<u8>> {
    v.map_values(|x: Vec<u8>| x@)
}

/// A path is a candidate when it has an extension and that extension is one of
/// `exts`, compared byte for byte (so case-sensitively).
pub open spec fn is_candidate(path: Seq<u8>, exts: Seq<Seq<u8>>) -> bool {
    match extension(path) {
        Some(e) => exts.contains(e),
        None => false,
    }
}

/// The extensions of the documents that are synchronised: `epub` and `pdf`.
pub fn default_extensions() -> (r: Vec<Vec<u8>>)
    ensures
        views(r@) == seq![seq![101u8, 112u8, 117u8, 98u8], seq![112u8, 100u8, 102u8]],
{
    let r = vec![vec![101u8, 112u8, 117u8, 98u8], vec![112u8, 100u8, 102u8]];
    assert(views(r@) =~= seq![seq![101u8, 112u8, 117u8, 98u8], seq![112u8, 100u8, 102u8]]);
    r
}

/// Whether the walked path `path` is a candidate under the extensions `exts`.
pub fn matches_extension(path: &Vec<u8>, exts: &Vec<Vec<u8>>) -> (r: bool)
    ensures
        r == is_candidate(path@, views(exts@)),
{
    match extension_of(path) {
        None => false,
        Some(e) => {
            let mut i: usize = 0;
            while i < exts.len()
                invariant
                    i <= exts@.len(),
                    extension(path@) == Some(e@),
                    forall|j: int| 0 <= j < i ==> exts@[j]@ != e@,
                decreases exts@.len() - i,
            {
                if bytes_eq(&exts[i], &e) {
                    assert(views(exts@)[i as int] == e@);
                    return true;
                }
                i = i + 1;
            }
            assert(!views(exts@).contains(e@)) by {
                if views(exts@).contains(e@) {
                    let j = choose|j: int| 0 <= j < views(exts@).len() && views(exts@)[j] == e@;
                    assert(exts@[j]@ == e@);
                }
            }
            false
        },
    }
}

} // verus!
