//! The guarantees the merger gives, stated and proved over its model.
//!
//! Everything here is phrased over [`MergerModel`] and [`step`], the exact
//! description of [`crate::merger::MultiIter::next`]: whatever holds of a
//! chain of `step`s holds of the same chain of `next` calls.

use vstd::prelude::*;

use crate::merger::MergerModel;
use crate::merger::bump;
use crate::merger::initial_model;
use crate::merger::step;
use crate::merger::wf;
use crate::stream::Stream;

verus! {

/// The merger's state and its answers after `k` calls in a row.
pub open spec fn run<T>(m: MergerModel<T>, k: nat) -> (MergerModel<T>, Seq<Option<T>>)
    decreases k,
{
    if k == 0 {
        (m, Seq::empty())
    } else {
        let (m1, outs) = run(m, (k - 1) as nat);
        let (m2, r) = step(m1);
        (m2, outs.push(r))
    }
}

/// Whether every producer of the collection is exhausted.
pub open spec fn all_exhausted<T>(m: MergerModel<T>) -> bool {
    forall|i: int| 0 <= i < m.streams.len() ==> (#[trigger] m.streams[i]).exhausted()
}

/// A state from which the merger signals the end of the sequence forever
/// (unless a producer is appended): the cursor rests at the front, the pass
/// that just ended yielded nothing, and every producer is exhausted.
pub open spec fn terminal<T>(m: MergerModel<T>) -> bool {
    &&& m.round_empty
    &&& m.cursor == 0
    &&& all_exhausted(m)
}

/// While a pass is marked as having yielded nothing, the producers it has
/// already visited really were exhausted.  This holds of every state a
/// caller can observe: constructors start with the flag down, and a call
/// ends either with the flag down or with the cursor at the front.
pub open spec fn pass_clean<T>(m: MergerModel<T>) -> bool {
    m.round_empty ==> forall|i: int| 0 <= i < m.cursor ==> (#[trigger] m.streams[i]).exhausted()
}

/// One step keeps the state well-formed and the collection as it was in size.
pub proof fn lemma_step_wf<T>(m: MergerModel<T>)
    requires
        wf(m),
    ensures
        wf(step(m).0),
        step(m).0.streams.len() == m.streams.len(),
        step(m).0.pulls.len() == m.pulls.len(),
    decreases (if m.round_empty { 0int } else { 1int }), m.streams.len() - m.cursor,
{
    if m.cursor < m.streams.len() {
        let s = m.streams[m.cursor as int];
        if s.exhausted() {
            lemma_step_wf(MergerModel {
                streams: m.streams,
                cursor: (m.cursor + 1) as nat,
                round_empty: m.round_empty,
                pulls: bump(m.pulls, m.cursor),
            });
        }
    } else {
        if !m.round_empty {
            lemma_step_wf(MergerModel {
                streams: m.streams,
                cursor: 0,
                round_empty: true,
                pulls: m.pulls,
            });
        }
    }
}

/// A step leaves behind a state whose pass flag, if raised, is honest about
/// the producers behind the cursor.
pub proof fn lemma_step_pass_clean<T>(m: MergerModel<T>)
    requires
        wf(m),
    ensures
        pass_clean(step(m).0),
    decreases (if m.round_empty { 0int } else { 1int }), m.streams.len() - m.cursor,
{
    if m.cursor < m.streams.len() {
        let s = m.streams[m.cursor as int];
        if s.exhausted() {
            lemma_step_pass_clean(MergerModel {
                streams: m.streams,
                cursor: (m.cursor + 1) as nat,
                round_empty: m.round_empty,
                pulls: bump(m.pulls, m.cursor),
            });
        }
    } else {
        if !m.round_empty {
            lemma_step_pass_clean(MergerModel {
                streams: m.streams,
                cursor: 0,
                round_empty: true,
                pulls: m.pulls,
            });
        }
    }
}

/// When every producer is exhausted, a call signals the end of the sequence
/// and leaves every producer as it was, the cursor at the front, and the
/// pass flag raised — a [`terminal`] state.
pub proof fn lemma_all_exhausted_step<T>(m: MergerModel<T>)
    requires
        wf(m),
        all_exhausted(m),
    ensures
        step(m).1 is None,
        step(m).0.streams == m.streams,
        terminal(step(m).0),
        wf(step(m).0),
    decreases (if m.round_empty { 0int } else { 1int }), m.streams.len() - m.cursor,
{
    if m.cursor < m.streams.len() {
        let s = m.streams[m.cursor as int];
        lemma_all_exhausted_step(MergerModel {
            streams: m.streams,
            cursor: (m.cursor + 1) as nat,
            round_empty: m.round_empty,
            pulls: bump(m.pulls, m.cursor),
        });
    } else {
        if !m.round_empty {
            lemma_all_exhausted_step(MergerModel {
                streams: m.streams,
                cursor: 0,
                round_empty: true,
                pulls: m.pulls,
            });
        }
    }
}

/// A merger over no producers at all answers `None` at once, from its very
/// first call onward: the step signals the end of the sequence and leaves a
/// state that is again empty and terminal.
pub proof fn lemma_empty_collection<T>(m: MergerModel<T>)
    requires
        wf(m),
        m.streams.len() == 0,
    ensures
        step(m).1 is None,
        step(m).0.streams.len() == 0,
        terminal(step(m).0),
        wf(step(m).0),
{
    lemma_all_exhausted_step(m);
}

/// Once a call has signalled the end of the sequence, the state left behind
/// is terminal: the whole collection really is exhausted.
pub proof fn lemma_end_is_terminal<T>(m: MergerModel<T>)
    requires
        wf(m),
        pass_clean(m),
        step(m).1 is None,
    ensures
        terminal(step(m).0),
        step(m).0.streams == m.streams,
        wf(step(m).0),
    decreases (if m.round_empty { 0int } else { 1int }), m.streams.len() - m.cursor,
{
    if m.cursor < m.streams.len() {
        let s = m.streams[m.cursor as int];
        assert(s.exhausted());
        lemma_end_is_terminal(MergerModel {
            streams: m.streams,
            cursor: (m.cursor + 1) as nat,
            round_empty: m.round_empty,
            pulls: bump(m.pulls, m.cursor),
        });
    } else {
        if !m.round_empty {
            lemma_end_is_terminal(MergerModel {
                streams: m.streams,
                cursor: 0,
                round_empty: true,
                pulls: m.pulls,
            });
        }
    }
}

/// From a terminal state, every further call signals the end of the sequence
/// again and the state stays terminal: termination is idempotent as long as
/// no producer is appended.
pub proof fn lemma_terminal_persists<T>(m: MergerModel<T>)
    requires
        wf(m),
        terminal(m),
    ensures
        step(m).1 is None,
        terminal(step(m).0),
        step(m).0.streams == m.streams,
        wf(step(m).0),
{
    lemma_all_exhausted_step(m);
}

/// From a terminal state, a merger signals the end of the sequence on every
/// one of the next `k` calls, however large `k` is, and is terminal again
/// after them — provided no producer is appended in between.
pub proof fn lemma_run_stays_terminal<T>(m: MergerModel<T>, k: nat)
    requires
        wf(m),
        terminal(m),
    ensures
        wf(run(m, k).0),
        terminal(run(m, k).0),
        run(m, k).1.len() == k,
        forall|i: int| 0 <= i < k ==> (#[trigger] run(m, k).1[i]) is None,
    decreases k,
{
    if k > 0 {
        lemma_run_stays_terminal(m, (k - 1) as nat);
        lemma_terminal_persists(run(m, (k - 1) as nat).0);
    }
}

/// Every producer has been pulled either `r` or `r + 1` times: those the
/// cursor has passed in the round under way stand at `r + 1`, the rest at `r`.
pub open spec fn balanced_from<T>(m: MergerModel<T>, r: nat) -> bool {
    forall|i: int|
        0 <= i < m.pulls.len() ==> #[trigger] m.pulls[i] == r + (if i < m.cursor {
            1nat
        } else {
            0nat
        })
}

/// The pull counts are what a round-robin scan produces: some whole number
/// of completed rounds, plus one extra pull for the producers the cursor has
/// already passed.
pub open spec fn balanced<T>(m: MergerModel<T>) -> bool {
    exists|r: nat| balanced_from(m, r)
}

/// A fresh merger is balanced: nothing has been pulled yet.
pub proof fn lemma_initial_balanced<T>(streams: Seq<Stream<T>>)
    ensures
        balanced(initial_model(streams)),
{
    assert(balanced_from(initial_model(streams), 0));
}

/// One call keeps the pull counts balanced: the call pulls each producer it
/// visits exactly once, in cursor order.
pub proof fn lemma_step_balanced<T>(m: MergerModel<T>)
    requires
        wf(m),
        balanced(m),
    ensures
        balanced(step(m).0),
    decreases (if m.round_empty { 0int } else { 1int }), m.streams.len() - m.cursor,
{
    let r: nat = choose|r: nat| balanced_from(m, r);
    if m.cursor < m.streams.len() {
        let s = m.streams[m.cursor as int];
        let m2 = MergerModel {
            streams: if s.exhausted() {
                m.streams
            } else {
                m.streams.update(m.cursor as int, s.tail())
            },
            cursor: (m.cursor + 1) as nat,
            round_empty: if s.exhausted() {
                m.round_empty
            } else {
                false
            },
            pulls: bump(m.pulls, m.cursor),
        };
        assert(balanced_from(m2, r));
        if s.exhausted() {
            lemma_step_balanced(m2);
        }
    } else {
        let m2 = MergerModel {
            streams: m.streams,
            cursor: 0,
            round_empty: true,
            pulls: m.pulls,
        };
        assert(balanced_from(m2, (r + 1) as nat));
        if !m.round_empty {
            lemma_step_balanced(m2);
        } else {
            assert(balanced_from(step(m).0, (r + 1) as nat));
        }
    }
}

/// The drift bound: in a balanced state, no producer has been pulled more
/// than one time beyond any other.
pub proof fn lemma_balanced_drift<T>(m: MergerModel<T>, i: int, j: int)
    requires
        balanced(m),
        0 <= i < m.pulls.len(),
        0 <= j < m.pulls.len(),
    ensures
        m.pulls[i] <= m.pulls[j] + 1,
{
    let r: nat = choose|r: nat| balanced_from(m, r);
    assert(m.pulls[i] == r + (if i < m.cursor { 1nat } else { 0nat }));
    assert(m.pulls[j] == r + (if j < m.cursor { 1nat } else { 0nat }));
}

/// The drift bound at any call count: starting from a fresh merger, after
/// any number of calls in a row no producer's pull count exceeds another's
/// by more than one.
pub proof fn lemma_run_drift_bound<T>(m: MergerModel<T>, k: nat, i: int, j: int)
    requires
        wf(m),
        balanced(m),
        0 <= i < m.streams.len(),
        0 <= j < m.streams.len(),
    ensures
        wf(run(m, k).0),
        balanced(run(m, k).0),
        run(m, k).0.pulls.len() == m.pulls.len(),
        run(m, k).0.pulls[i] <= run(m, k).0.pulls[j] + 1,
    decreases k,
{
    if k == 0 {
        lemma_balanced_drift(m, i, j);
    } else {
        lemma_run_drift_bound(m, (k - 1) as nat, i, j);
        let mk = run(m, (k - 1) as nat).0;
        lemma_step_wf(mk);
        lemma_step_balanced(mk);
        lemma_balanced_drift(run(m, k).0, i, j);
    }
}

/// The state after [`crate::merger::MultiIter::push`]: one more producer at
/// the end of the collection, never pulled yet; cursor and pass untouched.
pub open spec fn append_model<T>(m: MergerModel<T>, s: Stream<T>) -> MergerModel<T> {
    MergerModel {
        streams: m.streams.push(s),
        cursor: m.cursor,
        round_empty: m.round_empty,
        pulls: m.pulls.push(0nat),
    }
}

/// When every producer from the cursor up to the last-but-one is exhausted
/// and the last is not, the call skips forward and hands out the last
/// producer's next element.
proof fn lemma_skip_to_last_live<T>(m: MergerModel<T>)
    requires
        wf(m),
        m.streams.len() > 0,
        m.cursor < m.streams.len(),
        !m.streams.last().exhausted(),
        forall|i: int|
            m.cursor <= i < m.streams.len() - 1 ==> (#[trigger] m.streams[i]).exhausted(),
    ensures
        step(m).1 == m.streams.last().index(0),
        !step(m).0.round_empty,
        step(m).0.cursor == m.streams.len(),
    decreases m.streams.len() - m.cursor,
{
    if m.cursor < m.streams.len() - 1 {
        lemma_skip_to_last_live(MergerModel {
            streams: m.streams,
            cursor: (m.cursor + 1) as nat,
            round_empty: m.round_empty,
            pulls: bump(m.pulls, m.cursor),
        });
    }
}

/// Appending a producer to a terminated merger revives it: the very next
/// call hands out the new producer's first element.
pub proof fn lemma_append_revives<T>(m: MergerModel<T>, s: Stream<T>)
    requires
        wf(m),
        terminal(m),
        !s.exhausted(),
    ensures
        step(append_model(m, s)).1 == s.index(0),
        !step(append_model(m, s)).0.round_empty,
{
    let m2 = append_model(m, s);
    assert(m2.streams.last() == s);
    lemma_skip_to_last_live(m2);
}

/// The first `2 * n` answers a merger over exactly two producers gives:
/// their elements strictly alternating, the first producer first.
pub open spec fn interleaved_pair<T>(s0: Stream<T>, s1: Stream<T>, n: nat) -> Seq<Option<T>> {
    Seq::new(2 * n, |k: int|
        if k % 2 == 0 {
            s0.index((k / 2) as nat)
        } else {
            s1.index((k / 2) as nat)
        })
}

/// The state a two-producer merger rests in after `t` alternating rounds:
/// each producer advanced `t` elements and pulled `t` times, the cursor just
/// past the second producer.
spec fn pair_state<T>(s0: Stream<T>, s1: Stream<T>, t: nat) -> MergerModel<T> {
    MergerModel {
        streams: seq![s0.advanced(t), s1.advanced(t)],
        cursor: 2,
        round_empty: false,
        pulls: seq![t, t],
    }
}

/// After `2 * t` calls, a merger over two producers that both still have a
/// `t`-th element has handed the first `t` elements of each out alternately.
proof fn lemma_pair_progress<T>(s0: Stream<T>, s1: Stream<T>, n: nat, t: nat)
    requires
        1 <= t <= n,
        s0.yields_exactly(n),
        s1.yields_exactly(n),
    ensures
        run(initial_model(seq![s0, s1]), 2 * t) == (pair_state(s0, s1, t), interleaved_pair(
            s0,
            s1,
            t,
        )),
    decreases t,
{
    let m0 = initial_model(seq![s0, s1]);
    if t == 1 {
        crate::stream::lemma_advanced_index(s0, 0, 0);
        crate::stream::lemma_advanced_index(s1, 0, 0);
        assert(!s0.exhausted());
        assert(!s1.exhausted());
        let m1 = step(m0).0;
        assert(step(m0).1 == s0.index(0));
        assert(m1.streams =~= seq![s0.tail(), s1]);
        assert(m1.pulls =~= seq![1nat, 0nat]);
        let m2 = step(m1).0;
        assert(step(m1).1 == s1.index(0));
        assert(m2 =~~= pair_state(s0, s1, 1));
        assert(run(m0, 0) == (m0, Seq::<Option<T>>::empty()));
        assert(run(m0, 1).0 == m1);
        assert(run(m0, 2).0 == m2);
        assert(run(m0, 2).1 =~= interleaved_pair(s0, s1, 1));
    } else {
        lemma_pair_progress(s0, s1, n, (t - 1) as nat);
        let mp = pair_state(s0, s1, (t - 1) as nat);
        let u0 = s0.advanced((t - 1) as nat);
        let u1 = s1.advanced((t - 1) as nat);
        crate::stream::lemma_advanced_index(s0, (t - 1) as nat, 0);
        crate::stream::lemma_advanced_index(s1, (t - 1) as nat, 0);
        assert(u0.index(0) == s0.index((t - 1) as nat));
        assert(!u0.exhausted());
        assert(!u1.exhausted());
        let mw = MergerModel {
            streams: mp.streams,
            cursor: 0,
            round_empty: true,
            pulls: mp.pulls,
        };
        assert(step(mp) == step(mw));
        let ma = step(mw).0;
        assert(step(mw).1 == u0.index(0));
        assert(ma.streams =~= seq![u0.tail(), u1]);
        assert(ma.pulls =~= seq![t, (t - 1) as nat]);
        let mb = step(ma).0;
        assert(step(ma).1 == u1.index(0));
        assert(mb =~~= pair_state(s0, s1, t));
        assert(2 * t - 1 == 2 * (t - 1) + 1);
        assert(run(m0, 2 * (t - 1) as nat).0 == mp);
        assert(run(m0, (2 * t - 1) as nat).0 == ma);
        assert(run(m0, 2 * t).0 == mb);
        assert(run(m0, 2 * t).1 =~= interleaved_pair(s0, s1, t));
    }
}

/// Round-robin order over two producers of equal length: a merger over
/// producers that each yield exactly `n` elements answers, over its first
/// `2 * n` calls, the two sources' elements in strict alternation — first
/// producer first — and signals the end of the sequence on the call after
/// that.
pub proof fn lemma_round_robin_pair<T>(s0: Stream<T>, s1: Stream<T>, n: nat)
    requires
        s0.yields_exactly(n),
        s1.yields_exactly(n),
    ensures
        run(initial_model(seq![s0, s1]), 2 * n).1 == interleaved_pair(s0, s1, n),
        step(run(initial_model(seq![s0, s1]), 2 * n).0).1 is None,
{
    let m0 = initial_model(seq![s0, s1]);
    if n == 0 {
        assert(run(m0, 0).1 =~= interleaved_pair(s0, s1, 0));
        assert(s0.index(0) is None);
        assert(s1.index(0) is None);
        assert(all_exhausted(m0));
        lemma_all_exhausted_step(m0);
    } else {
        lemma_pair_progress(s0, s1, n, n);
        let mf = pair_state(s0, s1, n);
        crate::stream::lemma_advanced_index(s0, n, 0);
        crate::stream::lemma_advanced_index(s1, n, 0);
        assert(s0.advanced(n).index(0) == s0.index(n));
        assert(all_exhausted(mf));
        lemma_all_exhausted_step(mf);
    }
}

} // verus!

