//! The aggregator's summary: the labels of the documents directories.
use vstd::prelude::*;
use vstd::utf8::{decode_utf8, valid_utf8};
use vstd::string::StringExecFns;
use crate::paths::{path_str, PathError};
use crate::scanner::views;

verus! {

/// The labels joined by ` and `, in their order.
pub open spec fn joined_labels(labels: Seq<Seq<char>>) -> Seq<char>
    decreases labels.len(),
{
    if labels.len() == 0 {
        Seq::empty()
    } else if labels.len() == 1 {
        labels[0]
    } else {
        joined_labels(labels.drop_last()) + " and "@ + labels.last()
    }
}

/// Whether every path of `dirs` is valid UTF-8.
pub open spec fn all_utf8(dirs: Seq<Seq<u8>>) -> bool {
    forall|i: int| 0 <= i < dirs.len() ==> valid_utf8(#[trigger] dirs[i])
}

/// The text of each path of `dirs`.
pub open spec fn decoded(dirs: Seq<Seq<u8>>) -> Seq<Seq<char>> {
    dirs.map_values(|d: Seq<u8>| decode_utf8(d))
}

/// The documents directories as one label, joined by ` and `. Fails where one
/// of them is not valid UTF-8.
pub fn summary_labels(dirs: &Vec<Vec<u8>>) -> (r: Result<String, PathError>)
    ensures
        r is Ok <==> all_utf8(views(dirs@)),
        r matches Ok(s) ==> s@ == joined_labels(decoded(views(dirs@))),
{
    let mut s = String::new();
    let mut i: usize = 0;
    while i < dirs.len()
        invariant
            i <= dirs@.len(),
            all_utf8(views(dirs@.subrange(0, i as int))),
            s@ == joined_labels(decoded(views(dirs@.subrange(0, i as int)))),
        decreases dirs@.len() - i,
    {
        let ghost pre = views(dirs@.subrange(0, i as int));
        let ghost next = views(dirs@.subrange(0, i + 1));
        assert(next.drop_last() =~= pre);
        assert(decoded(next).drop_last() =~= decoded(pre));
        let text = match path_str(&dirs[i]) {
            Ok(t) => t,
            Err(e) => {
                assert(views(dirs@)[i as int] == dirs@[i as int]@);
                return Err(e);
            },
        };
        if i > 0 {
            s.append(" and ");
        }
        s.append(text.as_str());
        proof {
            if i == 0 {
                assert(s@ =~= decoded(next)[0]);
            }
            assert forall|j: int| 0 <= j < next.len() implies valid_utf8(#[trigger] next[j]) by {
                if j < i {
                    assert(next[j] == pre[j]);
                }
            }
        }
        i = i + 1;
    }
    assert(dirs@.subrange(0, dirs@.len() as int) =~= dirs@);
    Ok(s)
}

} // verus!
