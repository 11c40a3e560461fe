//! The mathematical model of a producer's remaining output.

use vstd::prelude::*;

verus! {

/// What a producer has yet to yield, as a mathematical stream: `index(i)` is
/// the element the producer will hand out on its `i`-th upcoming pull, or
/// `None` if it is exhausted by then.  A stream may be infinite (every index
/// holds `Some`), finite, or already exhausted.
#[verifier::ext_equal]
pub ghost struct Stream<T> {
    pub at: spec_fn(nat) -> Option<T>,
}

impl<T> Stream<T> {
    /// The element `i` pulls ahead, if the stream reaches that far.
    pub open spec fn index(self, i: nat) -> Option<T> {
        (self.at)(i)
    }

    /// Whether the very next pull yields nothing.
    pub open spec fn exhausted(self) -> bool {
        self.index(0) is None
    }

    /// The stream left after one successful pull.
    pub open spec fn tail(self) -> Stream<T> {
        Stream { at: |i: nat| (self.at)((i + 1) as nat) }
    }

    /// The stream that yields the elements of `s` in order, then is exhausted.
    pub open spec fn of_seq(s: Seq<T>) -> Stream<T> {
        Stream { at: |i: nat| if i < s.len() { Some(s[i as int]) } else { None } }
    }

    /// The stream that yields nothing at all.
    pub open spec fn empty() -> Stream<T> {
        Stream { at: |i: nat| None }
    }

    /// Whether the stream yields an element on exactly its first `n` pulls.
    pub open spec fn yields_exactly(self, n: nat) -> bool {
        forall|i: nat| (#[trigger] self.index(i)) is Some <==> i < n
    }

    /// The stream left after `n` successful pulls.
    pub open spec fn advanced(self, n: nat) -> Stream<T>
        decreases n,
    {
        if n == 0 {
            self
        } else {
            self.advanced((n - 1) as nat).tail()
        }
    }
}

/// Advancing a stream by `n` pulls shifts every index by `n`.
pub proof fn lemma_advanced_index<T>(s: Stream<T>, n: nat, i: nat)
    ensures
        s.advanced(n).index(i) == s.index((i + n) as nat),
    decreases n,
{
    if n > 0 {
        lemma_advanced_index(s, (n - 1) as nat, (i + 1) as nat);
    }
}

} // verus!
