//! Helpers for deriving the output filename prefix from a target filename.

use vstd::prelude::*;
use vstd::string::StrSliceExecFns;

verus! {

/// Returns the position of the first occurrence of `seperator` in
/// `filename`, counted in characters, or `None` when it never occurs.
pub fn get_filename(filename: &str, seperator: char) -> (r: Option<usize>)
    ensures
        match r {
            Some(i) => i < filename@.len() && filename@[i as int] == seperator && forall|j: int|
                0 <= j < i ==> filename@[j] != seperator,
            None => forall|j: int| 0 <= j < filename@.len() ==> filename@[j] != seperator,
        },
{
    let n = filename.unicode_len();
    let mut i: usize = 0;
    while i < n
        invariant
            n == filename@.len(),
            i <= n,
            forall|j: int| 0 <= j < i ==> filename@[j] != seperator,
        decreases n - i,
    {
        let c = filename.get_char(i);
        if c == seperator {
            return Some(i);
        }
        i += 1;
    }
    None
}

/// Returns the part of `filename` before its first `'.'`: the longest
/// dot-free prefix, which is the whole name when it holds no dot and
/// otherwise stops right at the first dot.
pub fn get_filename_without_extension<'a>(filename: &'a str) -> (r: &'a str)
    ensures
        r@.len() <= filename@.len(),
        r@ == filename@.subrange(0, r@.len() as int),
        forall|j: int| 0 <= j < r@.len() ==> filename@[j] != '.',
        r@.len() < filename@.len() ==> filename@[r@.len() as int] == '.',
{
    let index: Option<usize> = get_filename(filename, '.');
    match index {
        Some(index) => {
            let r = filename.substring_char(0, index);
            r
        },
        None => {
            proof {
                assert(filename@ =~= filename@.subrange(0, filename@.len() as int));
            }
            filename
        },
    }
}

} // verus!
