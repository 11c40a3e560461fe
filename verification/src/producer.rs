//! Sources of elements, each exposed through a single pull capability.

use vstd::prelude::*;

use crate::stream::Stream;

verus! {

/// How one pull relates a producer's remaining output before the call
/// (`pre`), after the call (`post`), and the value it returned (`r`):
/// an exhausted producer yields nothing and stays as it was; otherwise the
/// head element comes out and exactly the tail remains.
pub open spec fn pull_post<T>(pre: Stream<T>, post: Stream<T>, r: Option<T>) -> bool {
    if pre.exhausted() {
        r is None && post == pre
    } else {
        r == pre.index(0) && post == pre.tail()
    }
}

/// A source of a sequence of elements, exposed only through [`Producer::pull`]:
/// each call either yields the next element or signals exhaustion.  Producers
/// never fail; once exhausted they stay exhausted and may be pulled again at
/// no cost.
pub trait Producer: Sized {
    type Item;

    /// The elements this producer has yet to yield.
    spec fn rem(&self) -> Stream<Self::Item>;

    /// Yield the next element, or `None` once the source is exhausted.
    fn pull(&mut self) -> (r: Option<Self::Item>)
        ensures
            pull_post(old(self).rem(), final(self).rem(), r),
    ;
}

/// The stream of the `i64` values `lo`, `lo + 1`, ... strictly below `hi`
/// (empty when `hi <= lo`).
pub open spec fn range_stream(lo: int, hi: int) -> Stream<i64> {
    Stream { at: |i: nat| if lo + i < hi { Some((lo + i) as i64) } else { None } }
}

/// The stream of every `i64` value from `lo` upward, in order.
pub open spec fn count_stream(lo: int) -> Stream<i64> {
    Stream { at: |i: nat| if lo + i <= i64::MAX { Some((lo + i) as i64) } else { None } }
}

/// A producer that counts upward through a half-open range of `i64` values.
pub struct RangeProducer {
    next_value: i64,
    limit: i64,
}

impl RangeProducer {
    /// A producer that will yield `start`, `start + 1`, ... strictly below
    /// `end`, then be exhausted; it starts exhausted when `end <= start`.
    pub fn new(start: i64, end: i64) -> (p: RangeProducer)
        ensures
            p.rem() == range_stream(start as int, end as int),
    {
        RangeProducer { next_value: start, limit: end }
    }
}

impl Producer for RangeProducer {
    type Item = i64;

    closed spec fn rem(&self) -> Stream<i64> {
        range_stream(self.next_value as int, self.limit as int)
    }

    fn pull(&mut self) -> (r: Option<i64>)
        ensures
            pull_post(old(self).rem(), final(self).rem(), r),
    {
        if self.next_value < self.limit {
            let v: i64 = self.next_value;
            self.next_value = self.next_value + 1;
            proof {
                assert(self.rem() =~= old(self).rem().tail());
            }
            Some(v)
        } else {
            None
        }
    }
}

/// A producer that counts upward from a starting `i64` value without an upper
/// bound of its own; it only stops after yielding `i64::MAX`, the last value
/// its element type can carry.
pub struct CountProducer {
    next_value: i64,
    done: bool,
}

impl CountProducer {
    /// A producer that will yield `start`, `start + 1`, `start + 2`, ...
    pub fn new(start: i64) -> (p: CountProducer)
        ensures
            p.rem() == count_stream(start as int),
    {
        CountProducer { next_value: start, done: false }
    }
}

impl Producer for CountProducer {
    type Item = i64;

    closed spec fn rem(&self) -> Stream<i64> {
        if self.done {
            Stream::empty()
        } else {
            count_stream(self.next_value as int)
        }
    }

    fn pull(&mut self) -> (r: Option<i64>)
        ensures
            pull_post(old(self).rem(), final(self).rem(), r),
    {
        if self.done {
            None
        } else {
            let v: i64 = self.next_value;
            if self.next_value == i64::MAX {
                self.done = true;
            } else {
                self.next_value = self.next_value + 1;
            }
            proof {
                assert(self.rem() =~= old(self).rem().tail());
            }
            Some(v)
        }
    }
}

/// A producer that yields the elements of a vector in order.  Any finite
/// sequence of any copyable element type can be merged through it.
pub struct VecProducer<T> {
    items: Vec<T>,
    pos: usize,
}

impl<T: Copy> VecProducer<T> {
    /// A producer that will yield the elements of `items`, first to last.
    pub fn new(items: Vec<T>) -> (p: VecProducer<T>)
        ensures
            p.rem() == Stream::of_seq(items@),
    {
        let p = VecProducer { items, pos: 0 };
        proof {
            assert(p.rem() =~= Stream::of_seq(p.items@));
        }
        p
    }
}

impl<T: Copy> Producer for VecProducer<T> {
    type Item = T;

    closed spec fn rem(&self) -> Stream<T> {
        Stream {
            at: |i: nat|
                if self.pos + i < self.items@.len() {
                    Some(self.items@[(self.pos + i) as int])
                } else {
                    None
                },
        }
    }

    fn pull(&mut self) -> (r: Option<T>)
        ensures
            pull_post(old(self).rem(), final(self).rem(), r),
    {
        if self.pos < self.items.len() {
            let v = self.items[self.pos];
            self.pos = self.pos + 1;
            proof {
                assert(self.rem() =~= old(self).rem().tail());
            }
            Some(v)
        } else {
            None
        }
    }
}

} // verus!
