//! First position with a property.
use vstd::prelude::*;

verus! {

/// Lowest position below `n` with the property `f`.
pub open spec fn first_below(f: spec_fn(int) -> bool, n: int) -> Option<int>
    decreases n,
{
    if n <= 0 {
        None
    } else {
        match first_below(f, n - 1) {
            Some(i) => Some(i),
            None => if f(n - 1) {
                Some(n - 1)
            } else {
                None
            },
        }
    }
}

/// What it means to be the first position.
pub proof fn lemma_first_below(f: spec_fn(int) -> bool, n: int)
    ensures
        match first_below(f, n) {
            Some(i) => 0 <= i < n && f(i) && forall|j: int| 0 <= j < i ==> !#[trigger] f(j),
            None => forall|j: int| 0 <= j < n ==> !#[trigger] f(j),
        },
    decreases n,
{
    if n > 0 {
        lemma_first_below(f, n - 1);
    }
}

/// A position with the property, and none before it, is the first.
pub proof fn lemma_is_first(f: spec_fn(int) -> bool, n: int, i: int)
    requires
        0 <= i < n,
        f(i),
        forall|j: int| 0 <= j < i ==> !#[trigger] f(j),
    ensures
        first_below(f, n) == Some(i),
{
    lemma_first_below(f, n);
}

/// Without a position that has the property there is no first.
pub proof fn lemma_none_below(f: spec_fn(int) -> bool, n: int)
    requires
        forall|j: int| 0 <= j < n ==> !#[trigger] f(j),
    ensures
        first_below(f, n) is None,
{
    lemma_first_below(f, n);
}

} // verus!
