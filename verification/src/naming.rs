//! Output file naming: insert `.qda` before the input path's last
//! extension, or append `.qda` when the path has no extension.

use vstd::prelude::*;

verus! {

/// No dot anywhere in the path.
pub open spec fn no_dot(s: Seq<char>) -> bool {
    forall|i: int| 0 <= i < s.len() ==> s[i] != '.'
}

/// `i` is the index of the last dot of `s`.
pub open spec fn is_last_dot(s: Seq<char>, i: int) -> bool {
    &&& 0 <= i < s.len()
    &&& s[i] == '.'
    &&& forall|j: int| i < j < s.len() ==> s[j] != '.'
}

/// The index of the last dot, on a path that has one.
pub open spec fn last_dot(s: Seq<char>) -> int {
    choose|i: int| is_last_dot(s, i)
}

/// The marker inserted into the output path.
pub open spec fn qda_marker() -> Seq<char> {
    seq!['.', 'q', 'd', 'a']
}

/// The output path for an input path: `.qda` inserted before the last
/// extension, or appended when there is none.
pub open spec fn qda_output_name(s: Seq<char>) -> Seq<char> {
    if no_dot(s) {
        s + qda_marker()
    } else {
        s.subrange(0, last_dot(s)) + qda_marker() + seq!['.'] + s.subrange(
            last_dot(s) + 1,
            s.len() as int,
        )
    }
}

/// Derive the output path from the input path: `notes.txt` becomes
/// `notes.qda.txt`; `notes`, with no extension, becomes `notes.qda`.
pub fn qda_output_path(path: &str) -> (r: String)
    ensures
        r@ == qda_output_name(path@),
{
    let len = path.unicode_len();
    let mut i: usize = len;
    while i > 0 && path.get_char(i - 1) != '.'
        invariant
            i <= len,
            len == path@.len(),
            forall|j: int| i <= j < len ==> path@[j] != '.',
        decreases i,
    {
        i = i - 1;
    }
    if i == 0 {
        let mut out = path.to_owned();
        out.append(".qda");
        proof {
            reveal_strlit(".qda");
            assert(out@ =~= qda_output_name(path@));
        }
        out
    } else {
        proof {
            assert(is_last_dot(path@, i - 1));
            let k = last_dot(path@);
            assert(is_last_dot(path@, k));
            assert(k == i - 1);
        }
        let prefix = path.substring_char(0, i - 1);
        let extension = path.substring_char(i, len);
        let mut out = prefix.to_owned();
        out.append(".qda.");
        out.append(extension);
        proof {
            reveal_strlit(".qda.");
            assert(out@ =~= qda_output_name(path@));
        }
        out
    }
}

} // verus!
