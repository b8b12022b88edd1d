//! Small helpers shared across the library.
use vstd::prelude::*;
use vstd::std_specs::cmp::PartialOrdSpec;
use vstd::string::*;

verus! {

/// The value that `clamp(value, min, max)` returns, stated over the
/// comparison that `PartialOrd` specifies for `T`.
pub open spec fn spec_clamp<T: PartialOrd>(value: T, min: T, max: T) -> T {
    if value.partial_cmp_spec(&min) == Some(std::cmp::Ordering::Less) {
        min
    } else if value.partial_cmp_spec(&max) == Some(std::cmp::Ordering::Greater) {
        max
    } else {
        value
    }
}

/// Clamps a value between `min` and `max`: `min` when the value is below it,
/// `max` when it is above it, and the value itself otherwise.
///
/// For every type whose comparison follows its specification (all integer
/// types do) the result is exactly `spec_clamp(value, min, max)`.
pub fn clamp<T: PartialOrd>(value: T, min: T, max: T) -> (r: T)
    ensures
        T::obeys_partial_cmp_spec() ==> r == spec_clamp(value, min, max),
{
    if value < min {
        min
    } else if value > max {
        max
    } else {
        value
    }
}

/// Whether two strings hold the same characters.
pub(crate) fn same_text(a: &str, b: &str) -> (r: bool)
    ensures
        r == (a@ == b@),
{
    let n = a.unicode_len();
    if n != b.unicode_len() {
        return false;
    }
    let mut i: usize = 0;
    while i < n
        invariant
            n == a@.len(),
            n == b@.len(),
            i <= n,
            forall|j: int| 0 <= j < i ==> a@[j] == b@[j],
        decreases n - i,
    {
        if a.get_char(i) != b.get_char(i) {
            return false;
        }
        i = i + 1;
    }
    assert(a@ =~= b@);
    true
}

} // verus!
