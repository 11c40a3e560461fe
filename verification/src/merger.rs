//! The round-robin merger itself.

use vstd::prelude::*;

use crate::producer::Producer;
use crate::producer::pull_post;
use crate::stream::Stream;

verus! {

/// The merger's state, seen mathematically: the remaining output of each
/// producer, the cursor into the collection, the flag that records whether
/// the pass under way has yielded nothing so far, and — as bookkeeping for
/// the drift bound — how often each producer has been pulled.
#[verifier::ext_equal]
pub ghost struct MergerModel<T> {
    pub streams: Seq<Stream<T>>,
    pub cursor: nat,
    pub round_empty: bool,
    pub pulls: Seq<nat>,
}

/// A well-formed merger state: the cursor stays within the collection (it
/// may rest just past the end, about to wrap), and every producer has a pull
/// count.
pub open spec fn wf<T>(m: MergerModel<T>) -> bool {
    &&& m.cursor <= m.streams.len()
    &&& m.pulls.len() == m.streams.len()
}

/// The state a merger starts from: cursor at the front, nothing yielded yet,
/// no producer pulled yet.
pub open spec fn initial_model<T>(streams: Seq<Stream<T>>) -> MergerModel<T> {
    MergerModel {
        streams,
        cursor: 0,
        round_empty: false,
        pulls: Seq::new(streams.len(), |i: int| 0nat),
    }
}

/// `pulls` with the count of producer `i` raised by one.
pub open spec fn bump(pulls: Seq<nat>, i: nat) -> Seq<nat> {
    if i < pulls.len() {
        pulls.update(i as int, (pulls[i as int] + 1) as nat)
    } else {
        pulls
    }
}

/// One call to [`MultiIter::next`], as a function on merger states: pull the
/// producer at the cursor, hand its element out if it has one, skip it if it
/// is exhausted, wrap at the end of the collection, and signal the end of the
/// merged sequence once a whole pass has yielded nothing.
pub open spec fn step<T>(m: MergerModel<T>) -> (MergerModel<T>, Option<T>)
    decreases (if m.round_empty { 0int } else { 1int }), m.streams.len() - m.cursor,
{
    if m.cursor < m.streams.len() {
        let s = m.streams[m.cursor as int];
        if s.exhausted() {
            step(MergerModel {
                streams: m.streams,
                cursor: (m.cursor + 1) as nat,
                round_empty: m.round_empty,
                pulls: bump(m.pulls, m.cursor),
            })
        } else {
            (MergerModel {
                streams: m.streams.update(m.cursor as int, s.tail()),
                cursor: (m.cursor + 1) as nat,
                round_empty: false,
                pulls: bump(m.pulls, m.cursor),
            }, s.index(0))
        }
    } else {
        if m.round_empty {
            (MergerModel {
                streams: m.streams,
                cursor: 0,
                round_empty: m.round_empty,
                pulls: m.pulls,
            }, None)
        } else {
            step(MergerModel {
                streams: m.streams,
                cursor: 0,
                round_empty: true,
                pulls: m.pulls,
            })
        }
    }
}

/// Holds the state of the interleave iterator: an ordered, append-only
/// collection of producers, the cursor of the round-robin scan, and the flag
/// that records a pass which has yielded nothing so far.
pub struct MultiIter<P: Producer> {
    empty: bool,
    index: usize,
    items: Vec<P>,
    pulls: Ghost<Seq<nat>>,
}

/// Pull the producer at index `i`, leaving every other producer untouched.
fn pull_at<P: Producer>(items: &mut Vec<P>, i: usize) -> (r: Option<P::Item>)
    requires
        i < old(items).len(),
    ensures
        final(items)@.len() == old(items)@.len(),
        forall|j: int|
            0 <= j < final(items)@.len() && j != i ==> final(items)@[j] == old(items)@[j],
        pull_post(old(items)@[i as int].rem(), final(items)@[i as int].rem(), r),
{
    let mut p = items.remove(i);
    let r = p.pull();
    items.insert(i, p);
    r
}

impl<P: Producer> MultiIter<P> {
    /// The merger's state as a [`MergerModel`] over the producers' streams.
    pub closed spec fn model(&self) -> MergerModel<P::Item> {
        MergerModel {
            streams: self.items@.map_values(|p: P| p.rem()),
            cursor: self.index as nat,
            round_empty: self.empty,
            pulls: self.pulls@,
        }
    }

    /// Whether the merger's state is well-formed.  Every constructor
    /// establishes this and every method preserves it.
    pub open spec fn wf(&self) -> bool {
        wf(self.model())
    }

    /// A merger over the given producers, in their order.
    pub fn new(items: Vec<P>) -> (m: MultiIter<P>)
        ensures
            m.wf(),
            m.model() == initial_model(items@.map_values(|p: P| p.rem())),
    {
        let ghost n: nat = items@.len();
        let m = MultiIter {
            empty: false,
            index: 0,
            items,
            pulls: Ghost(Seq::new(n, |i: int| 0nat)),
        };
        proof {
            assert(m.model() =~= initial_model(m.items@.map_values(|p: P| p.rem())));
        }
        m
    }

    /// Add a new producer to the stack of iterables.
    ///
    /// Should only be used when setting up: it leaves the cursor and the
    /// current pass untouched, and does not reset producers that are already
    /// exhausted.  The new producer is considered from the next pass that
    /// reaches its index — also after the merger has already signalled the
    /// end of the sequence.
    pub fn push(&mut self, item: P)
        requires
            old(self).wf(),
        ensures
            final(self).wf(),
            final(self).model() == (MergerModel {
                streams: old(self).model().streams.push(item.rem()),
                cursor: old(self).model().cursor,
                round_empty: old(self).model().round_empty,
                pulls: old(self).model().pulls.push(0nat),
            }),
    {
        self.pulls = Ghost(self.pulls@.push(0nat));
        self.items.push(item);
        proof {
            assert(self.model().streams =~= old(self).model().streams.push(item.rem()));
        }
    }

    /// Advance the merge by one call: the next element of the merged
    /// sequence, or `None` once a whole pass over the collection has yielded
    /// nothing.  What is returned and how the state moves is exactly one
    /// [`step`] on the merger's model.
    #[verifier::loop_isolation(false)]
    pub fn next(&mut self) -> (r: Option<P::Item>)
        requires
            old(self).wf(),
        ensures
            final(self).wf(),
            step(old(self).model()) == (final(self).model(), r),
    {
        loop
            invariant
                self.wf(),
                step(old(self).model()) == step(self.model()),
            decreases (if self.empty { 0int } else { 1int }), self.items.len() - self.index,
        {
            let ghost pre = self.model();
            if self.index < self.items.len() {
                let r = pull_at(&mut self.items, self.index);
                self.pulls = Ghost(bump(self.pulls@, self.index as nat));
                if r.is_some() {
                    self.empty = false;
                    self.index = self.index + 1;
                    proof {
                        let s = pre.streams[pre.cursor as int];
                        assert(!s.exhausted());
                        assert(self.model().streams =~= pre.streams.update(
                            pre.cursor as int,
                            s.tail(),
                        ));
                        assert(self.model() =~= step(pre).0);
                        assert(r == s.index(0));
                    }
                    return r;
                } else {
                    self.index = self.index + 1;
                    proof {
                        let s = pre.streams[pre.cursor as int];
                        assert(s.exhausted());
                        assert(self.model().streams =~= pre.streams);
                        assert(self.model() =~= (MergerModel {
                            streams: pre.streams,
                            cursor: (pre.cursor + 1) as nat,
                            round_empty: pre.round_empty,
                            pulls: bump(pre.pulls, pre.cursor),
                        }));
                    }
                }
            } else {
                self.index = 0;
                if self.empty {
                    proof {
                        assert(step(pre) == (self.model(), None::<P::Item>));
                    }
                    return None;
                } else {
                    self.empty = true;
                    proof {
                        assert(self.model() =~= (MergerModel {
                            streams: pre.streams,
                            cursor: 0,
                            round_empty: true,
                            pulls: pre.pulls,
                        }));
                    }
                }
            }
        }
    }
}

impl<P: Producer> Default for MultiIter<P> {
    /// A merger over no producers at all: it signals the end of the sequence
    /// from the very first call, until a producer is pushed.
    fn default() -> (m: MultiIter<P>)
        ensures
            m.wf(),
            m.model() == initial_model(Seq::<Stream<P::Item>>::empty()),
    {
        let items: Vec<P> = Vec::new();
        proof {
            assert(Seq::<Stream<P::Item>>::empty() =~= items@.map_values(|p: P| p.rem()));
        }
        MultiIter::new(items)
    }
}

} // verus!
