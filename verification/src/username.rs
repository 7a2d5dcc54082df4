//! Linux user names.

use vstd::prelude::*;
use crate::strings::{chars_of, is_ascii_alnum, is_ascii_lower};

verus! {

/// A valid Linux user name: 1 to 32 characters, starting with a lowercase
/// ASCII letter or `_`, followed by ASCII letters, digits, `_` or `-`.
pub open spec fn valid_username(name: Seq<char>) -> bool {
    &&& 1 <= name.len() <= 32
    &&& (is_ascii_lower(name[0]) || name[0] == '_')
    &&& forall|i: int| 1 <= i < name.len() ==> is_ascii_alnum(#[trigger] name[i]) || name[i] == '_'
        || name[i] == '-'
}

/// Check whether a name is a valid Linux username.
///
/// Must start with a lowercase letter or underscore, contain only ASCII
/// alphanumeric characters, hyphens, or underscores, and be 1-32
/// characters long.
pub fn is_valid_username(name: &str) -> (r: bool)
    ensures
        r == valid_username(name@),
{
    let v = chars_of(name);
    if v.len() == 0 || v.len() > 32 {
        return false;
    }
    let first = v[0];
    if !(('a' <= first && first <= 'z') || first == '_') {
        return false;
    }
    let mut i: usize = 1;
    while i < v.len()
        invariant
            1 <= i <= v.len(),
            v@ == name@,
            v.len() <= 32,
            is_ascii_lower(v@[0]) || v@[0] == '_',
            forall|j: int| 1 <= j < i ==> is_ascii_alnum(#[trigger] v@[j]) || v@[j] == '_' || v@[j]
                == '-',
        decreases v.len() - i,
    {
        let c = v[i];
        let ok = ('0' <= c && c <= '9') || ('a' <= c && c <= 'z') || ('A' <= c && c <= 'Z') || c
            == '_' || c == '-';
        if !ok {
            assert(!(is_ascii_alnum(v@[i as int]) || v@[i as int] == '_' || v@[i as int] == '-'));
            assert(name@[i as int] == v@[i as int]);
            assert(!valid_username(name@));
            return false;
        }
        i = i + 1;
    }
    true
}

} // verus!
