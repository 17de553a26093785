//! Choosing the photos among the files of a directory.
use vstd::prelude::*;
use crate::number::texts;
use crate::text::str_ends_with;

verus! {

/// A path names a photo when it ends with `jpg` or `jpeg`.
pub open spec fn is_image_path(path: Seq<char>) -> bool {
    "jpg"@.is_suffix_of(path) || "jpeg"@.is_suffix_of(path)
}

/// The paths that name photos, in order.
pub open spec fn image_paths(paths: Seq<Seq<char>>) -> Seq<Seq<char>>
    decreases paths.len(),
{
    if paths.len() == 0 {
        Seq::empty()
    } else {
        let rest = image_paths(paths.drop_last());
        if is_image_path(paths.last()) {
            rest.push(paths.last())
        } else {
            rest
        }
    }
}

/// Keeps the paths that name photos (see [`image_paths`]).
pub fn select_image_paths(paths: Vec<String>) -> (r: Vec<String>)
    ensures
        texts(r@) == image_paths(texts(paths@)),
{
    let mut out: Vec<String> = Vec::new();
    let mut i: usize = 0;
    while i < paths.len()
        invariant
            i <= paths.len(),
            texts(out@) == image_paths(texts(paths@.take(i as int))),
        decreases paths.len() - i,
    {
        let ghost prev = texts(paths@.take(i as int));
        let ghost next = texts(paths@.take(i + 1));
        assert(next.drop_last() =~= prev);
        assert(next.last() == paths@[i as int]@);
        let p = &paths[i];
        if str_ends_with(p.as_str(), "jpg") || str_ends_with(p.as_str(), "jpeg") {
            let ghost before = out@;
            out.push(p.clone());
            assert(texts(out@) =~= texts(before).push(p@));
        }
        i += 1;
    }
    assert(paths@.take(paths.len() as int) =~= paths@);
    out
}

} // verus!
