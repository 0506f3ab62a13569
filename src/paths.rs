//! Paths as the byte strings that a Unix system stores, and the few operations
//! on them that synchronisation needs: the file name, its extension, joining a
//! name onto a directory, and decoding a path as text for reports.
use vstd::prelude::*;
use vstd::utf8::{decode_utf8, valid_utf8};

verus! {

/// The byte `/`, which separates the components of a path.
pub const SEPARATOR: u8 = 47;

/// The byte `.`, which starts a file name's extension.
pub const DOT: u8 = 46;

/// The contents of an optional byte vector.
pub open spec fn opt_view(o: Option<Vec<u8>>) -> Option<Seq<u8>> {
    match o {
        Some(v) => Some(v@),
        None => None,
    }
}

/// Index of the last occurrence of `b` in `s`, or -1 where `b` does not occur.
pub open spec fn last_index_of(s: Seq<u8>, b: u8) -> int
    decreases s.len(),
{
    if s.len() == 0 {
        -1
    } else if s.last() == b {
        s.len() - 1
    } else {
        last_index_of(s.drop_last(), b)
    }
}

/// The text of a path after its last separator (the whole path when it has none).
pub open spec fn last_component(p: Seq<u8>) -> Seq<u8> {
    p.subrange(last_index_of(p, SEPARATOR) + 1, p.len() as int)
}

/// The final component of a path. A path that is empty or ends in a separator,
/// or whose final component is `.` or `..`, has none.
pub open spec fn file_name(p: Seq<u8>) -> Option<Seq<u8>> {
    let n = last_component(p);
    if n.len() == 0 || n == seq![DOT] || n == seq![DOT, DOT] {
        None
    } else {
        Some(n)
    }
}

/// The extension of a path: what follows the last dot of its file name. A file
/// name without a dot, or whose only dot is its first byte, has none.
pub open spec fn extension(p: Seq<u8>) -> Option<Seq<u8>> {
    match file_name(p) {
        None => None,
        Some(n) => {
            let k = last_index_of(n, DOT);
            if k <= 0 {
                None
            } else {
                Some(n.subrange(k + 1, n.len() as int))
            }
        },
    }
}

/// `dir` extended by `comp`: a separator is put between them unless `dir` is
/// empty or already ends in one; an absolute `comp` replaces `dir`.
pub open spec fn push(dir: Seq<u8>, comp: Seq<u8>) -> Seq<u8> {
    if comp.len() > 0 && comp[0] == SEPARATOR {
        comp
    } else if dir.len() == 0 || dir.last() == SEPARATOR {
        dir + comp
    } else {
        dir.push(SEPARATOR) + comp
    }
}

proof fn lemma_last_index_of_bounds(s: Seq<u8>, b: u8)
    ensures
        -1 <= last_index_of(s, b) < s.len(),
        last_index_of(s, b) >= 0 ==> s[last_index_of(s, b)] == b,
        forall|j: int| last_index_of(s, b) < j < s.len() ==> s[j] != b,
    decreases s.len(),
{
    if s.len() > 0 && s.last() != b {
        lemma_last_index_of_bounds(s.drop_last(), b);
        assert forall|j: int| last_index_of(s, b) < j < s.len() implies s[j] != b by {
            if j < s.len() - 1 {
                assert(s[j] == s.drop_last()[j]);
            }
        }
    }
}

/// Finds the last occurrence of `b` in `s`.
pub fn find_last(s: &Vec<u8>, b: u8) -> (r: Option<usize>)
    ensures
        match r {
            Some(i) => i == last_index_of(s@, b),
            None => last_index_of(s@, b) == -1,
        },
{
    let mut i: usize = s.len();
    assert(s@.subrange(0, i as int) =~= s@);
    while i > 0
        invariant
            i <= s@.len(),
            last_index_of(s@, b) == last_index_of(s@.subrange(0, i as int), b),
        decreases i,
    {
        let ghost pre = s@.subrange(0, i as int);
        assert(pre.drop_last() =~= s@.subrange(0, i - 1));
        if s[i - 1] == b {
            return Some(i - 1);
        }
        i = i - 1;
    }
    assert(s@.subrange(0, 0).len() == 0);
    None
}

/// Copies `s[from..to]` into a new vector.
fn slice_to_vec(s: &Vec<u8>, from: usize, to: usize) -> (r: Vec<u8>)
    requires
        from <= to <= s@.len(),
    ensures
        r@ == s@.subrange(from as int, to as int),
{
    let mut r: Vec<u8> = Vec::new();
    let mut i: usize = from;
    while i < to
        invariant
            from <= i <= to <= s@.len(),
            r@ == s@.subrange(from as int, i as int),
        decreases to - i,
    {
        r.push(s[i]);
        assert(r@ =~= s@.subrange(from as int, i + 1));
        i = i + 1;
    }
    r
}

/// The text of `path` after its last separator.
pub fn last_component_of(path: &Vec<u8>) -> (r: Vec<u8>)
    ensures
        r@ == last_component(path@),
{
    proof {
        lemma_last_index_of_bounds(path@, SEPARATOR);
    }
    let len = path.len();
    let start: usize = match find_last(path, SEPARATOR) {
        Some(i) => {
            assert(i < len);
            i + 1
        },
        None => 0,
    };
    slice_to_vec(path, start, len)
}

/// The final component of `path`, if it has one.
pub fn file_name_of(path: &Vec<u8>) -> (r: Option<Vec<u8>>)
    ensures
        opt_view(r) == file_name(path@),
{
    let n = last_component_of(path);
    let len = n.len();
    let dot_only = len == 1 && n[0] == DOT;
    let dot_dot = len == 2 && n[0] == DOT && n[1] == DOT;
    proof {
        if len == 1 {
            assert(n@ == seq![DOT] <==> n@[0] == DOT) by {
                if n@[0] == DOT {
                    assert(n@ =~= seq![DOT]);
                }
            }
        }
        if len == 2 {
            assert(n@ == seq![DOT, DOT] <==> (n@[0] == DOT && n@[1] == DOT)) by {
                if n@[0] == DOT && n@[1] == DOT {
                    assert(n@ =~= seq![DOT, DOT]);
                }
            }
        }
    }
    if len == 0 || dot_only || dot_dot {
        None
    } else {
        Some(n)
    }
}

/// The extension of `path`, if it has one.
pub fn extension_of(path: &Vec<u8>) -> (r: Option<Vec<u8>>)
    ensures
        opt_view(r) == extension(path@),
{
    match file_name_of(path) {
        None => None,
        Some(n) => {
            proof {
                lemma_last_index_of_bounds(n@, DOT);
            }
            let len = n.len();
            match find_last(&n, DOT) {
                None => None,
                Some(k) => {
                    if k == 0 {
                        None
                    } else {
                        Some(slice_to_vec(&n, k + 1, len))
                    }
                },
            }
        },
    }
}

/// Whether `a` and `b` hold the same bytes.
pub fn bytes_eq(a: &Vec<u8>, b: &Vec<u8>) -> (r: bool)
    ensures
        r == (a@ == b@),
{
    if a.len() != b.len() {
        return false;
    }
    let mut i: usize = 0;
    while i < a.len()
        invariant
            a@.len() == b@.len(),
            i <= a@.len(),
            forall|j: int| 0 <= j < i ==> a@[j] == b@[j],
        decreases a@.len() - i,
    {
        if a[i] != b[i] {
            return false;
        }
        i = i + 1;
    }
    assert(a@ =~= b@);
    true
}

/// Appends all of `tail` to `v`.
fn append_bytes(v: &mut Vec<u8>, tail: &Vec<u8>)
    ensures
        final(v)@ == old(v)@ + tail@,
{
    let mut i: usize = 0;
    while i < tail.len()
        invariant
            i <= tail@.len(),
            v@ == old(v)@ + tail@.subrange(0, i as int),
        decreases tail@.len() - i,
    {
        v.push(tail[i]);
        assert(v@ =~= old(v)@ + tail@.subrange(0, i + 1));
        i = i + 1;
    }
    assert(tail@.subrange(0, tail@.len() as int) =~= tail@);
}

/// `dir` extended by the component `comp`.
pub fn push_path(dir: &Vec<u8>, comp: &Vec<u8>) -> (r: Vec<u8>)
    ensures
        r@ == push(dir@, comp@),
{
    if comp.len() > 0 && comp[0] == SEPARATOR {
        return comp.clone();
    }
    let mut r = dir.clone();
    if dir.len() > 0 && dir[dir.len() - 1] != SEPARATOR {
        r.push(SEPARATOR);
    }
    append_bytes(&mut r, comp);
    r
}

/// Relies on `String::from_utf8`: it succeeds exactly when the bytes are valid
/// UTF-8, and then holds the text that they encode.
#[verifier::external_body]
fn utf8_text(bytes: Vec<u8>) -> (r: Option<String>)
    ensures
        r.is_some() == valid_utf8(bytes@),
        r matches Some(s) ==> s@ == decode_utf8(bytes@),
{
    String::from_utf8(bytes).ok()
}

/// A path that a report has to print but that is not valid UTF-8.
#[derive(Debug, Clone, Copy, PartialEq, Eq, Structural)]
pub enum PathError {
    NotUtf8,
}

/// The text of `path`, for reports; fails where `path` is not valid UTF-8.
pub fn path_str(path: &Vec<u8>) -> (r: Result<String, PathError>)
    ensures
        r is Ok <==> valid_utf8(path@),
        r matches Ok(s) ==> s@ == decode_utf8(path@),
        r matches Err(e) ==> e == PathError::NotUtf8,
{
    match utf8_text(path.clone()) {
        Some(s) => Ok(s),
        None => Err(PathError::NotUtf8),
    }
}

} // verus!
