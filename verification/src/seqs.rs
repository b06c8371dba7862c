//! The first position of a sequence at which something holds.

use vstd::prelude::*;

verus! {

/// The least index at which `flags` is true, if there is one.
pub open spec fn first_true(flags: Seq<bool>) -> Option<int>
    decreases flags.len(),
{
    if flags.len() == 0 {
        None
    } else {
        match first_true(flags.drop_last()) {
            Some(k) => Some(k),
            None => if flags.last() {
                Some(flags.len() - 1)
            } else {
                None
            },
        }
    }
}

/// `k` is the least index at which `flags` is true.
pub open spec fn is_first_true(flags: Seq<bool>, k: int) -> bool {
    &&& 0 <= k < flags.len()
    &&& flags[k]
    &&& forall|i: int| 0 <= i < k ==> !flags[i]
}

/// `flags` is true nowhere.
pub open spec fn all_false(flags: Seq<bool>) -> bool {
    forall|i: int| 0 <= i < flags.len() ==> !flags[i]
}

/// `first_true` finds the least true index, and finds none only where there
/// is none.
pub proof fn lemma_first_true(flags: Seq<bool>)
    ensures
        match first_true(flags) {
            Some(k) => is_first_true(flags, k),
            None => all_false(flags),
        },
    decreases flags.len(),
{
    if flags.len() > 0 {
        let init = flags.drop_last();
        lemma_first_true(init);
        assert(forall|i: int| 0 <= i < init.len() ==> init[i] == flags[i]);
        match first_true(init) {
            Some(k) => {
                assert(is_first_true(flags, k));
            },
            None => {
                if !flags.last() {
                    assert(all_false(flags));
                }
            },
        }
    }
}

/// The least true index is the one `first_true` finds.
pub proof fn lemma_first_true_is(flags: Seq<bool>, k: int)
    requires
        is_first_true(flags, k),
    ensures
        first_true(flags) == Some(k),
{
    lemma_first_true(flags);
}

/// Where nothing is true, `first_true` finds nothing.
pub proof fn lemma_first_true_none(flags: Seq<bool>)
    requires
        all_false(flags),
    ensures
        first_true(flags) is None,
{
    lemma_first_true(flags);
}

} // verus!
