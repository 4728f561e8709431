//! The file-reference pattern: a string exactly of the form `${file:<path>}`.

use vstd::prelude::*;

verus! {

/// The literal prefix of a file reference: `${file:`.
pub open spec fn ref_prefix() -> Seq<char> {
    seq!['$', '{', 'f', 'i', 'l', 'e', ':']
}

/// A string is a file reference exactly when it begins with `${file:` and
/// ends with `}`. The path in between may be empty and may itself contain
/// `}`: the boundary is the final character of the string.
pub open spec fn is_file_ref(s: Seq<char>) -> bool {
    &&& s.len() >= 8
    &&& s.subrange(0, 7) == ref_prefix()
    &&& s[s.len() - 1] == '}'
}

/// The path of a file reference: everything between the prefix and the
/// trailing `}`.
pub open spec fn ref_path(s: Seq<char>) -> Seq<char>
    recommends
        is_file_ref(s),
{
    s.subrange(7, s.len() - 1)
}

/// Recognizes a file reference and extracts its path; any string that is not
/// exactly of the reference form is reported as a non-match.
pub fn parse_file_ref(s: &str) -> (r: Option<String>)
    ensures
        match r {
            Some(p) => is_file_ref(s@) && p@ == ref_path(s@),
            None => !is_file_ref(s@),
        },
{
    let n = s.unicode_len();
    if n < 8 {
        return None;
    }
    if s.get_char(0) != '$' || s.get_char(1) != '{' || s.get_char(2) != 'f' || s.get_char(3)
        != 'i' || s.get_char(4) != 'l' || s.get_char(5) != 'e' || s.get_char(6) != ':' {
        proof {
            assert(s@.subrange(0, 7) != ref_prefix()) by {
                if s@.subrange(0, 7) == ref_prefix() {
                    assert(forall|i: int| 0 <= i < 7 ==> s@[i] == #[trigger] ref_prefix()[i]);
                }
            }
        }
        return None;
    }
    if s.get_char(n - 1) != '}' {
        return None;
    }
    let path = s.substring_char(7, n - 1);
    proof {
        assert(s@.subrange(0, 7) =~= ref_prefix());
    }
    Some(String::from_str(path))
}

} // verus!
