//! Small helpers on strings shared by the other modules.

use vstd::prelude::*;

verus! {

/// Whether two string slices hold the same text.
pub fn str_eq(a: &str, b: &str) -> (same: bool)
    ensures
        same == (a@ == b@),
{
    let left = a.to_owned();
    let right = b.to_owned();
    left == right
}

/// Whether `text` is one of `names`.
pub open spec fn has_name(names: Seq<String>, text: Seq<char>) -> bool {
    exists|k: int| 0 <= k < names.len() && (#[trigger] names[k])@ == text
}

/// Looks for `text` among `names`.
pub fn is_name_of(names: &Vec<String>, text: &str) -> (found: bool)
    ensures
        found == has_name(names@, text@),
{
    let mut k: usize = 0;
    while k < names.len()
        invariant
            k <= names.len(),
            forall|j: int| 0 <= j < k ==> (#[trigger] names@[j])@ != text@,
        decreases names.len() - k,
    {
        if str_eq(names[k].as_str(), text) {
            return true;
        }
        k += 1;
    }
    false
}

/// `Some` of the view of a string, or `None`.
pub open spec fn opt_view(s: Option<String>) -> Option<Seq<char>> {
    match s {
        Some(text) => Some(text@),
        None => None,
    }
}

/// The elements of `s` before position `i + 1` that satisfy `keep` are those
/// before position `i` that do, followed by `s[i]` when it does.
pub proof fn lemma_filter_prefix_step<A>(s: Seq<A>, i: int, keep: spec_fn(A) -> bool)
    requires
        0 <= i < s.len(),
    ensures
        s.subrange(0, i + 1).filter(keep) == if keep(s[i]) {
            s.subrange(0, i).filter(keep).push(s[i])
        } else {
            s.subrange(0, i).filter(keep)
        },
{
    reveal(Seq::filter);
    assert(s.subrange(0, i + 1).drop_last() =~= s.subrange(0, i));
    assert(s.subrange(0, i + 1).last() == s[i]);
}

} // verus!
