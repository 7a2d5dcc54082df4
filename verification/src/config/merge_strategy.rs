//! How profile values combine with defaults.

use vstd::prelude::*;

verus! {

/// The profile value when set, else the default.
pub open spec fn prefer_some<T>(left: Option<T>, right: Option<T>) -> Option<T> {
    if right is Some {
        right
    } else {
        left
    }
}

/// Merge strategy for `Option<T>` fields: profile wins when set.
///
/// When `right` is `Some`, it overwrites `left`; otherwise `left` is
/// unchanged. This gives profile values precedence over defaults.
pub fn overwrite_some<T>(left: &mut Option<T>, right: Option<T>)
    ensures
        *final(left) == prefer_some(*old(left), right),
{
    if right.is_some() {
        *left = right;
    }
}

/// `right.or(left)`: the profile value when set, else the default.
pub fn or_default<T>(left: Option<T>, right: Option<T>) -> (r: Option<T>)
    ensures
        r == prefer_some(left, right),
{
    let mut l = left;
    overwrite_some(&mut l, right);
    l
}

/// Lists: the default's items followed by the profile's.
pub fn append<T>(left: &mut Vec<T>, mut right: Vec<T>)
    ensures
        final(left)@ == old(left)@ + right@,
{
    left.append(&mut right);
}

} // verus!
