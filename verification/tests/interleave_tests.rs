use interleave::CountProducer;
use interleave::MultiIter;
use interleave::Producer;
use interleave::RangeProducer;
use interleave::VecProducer;

#[test]
fn simple() {
    let mut iter = MultiIter::new(vec![RangeProducer::new(0, 10)]);
    assert_eq!(iter.next(), Some(0));
    assert_eq!(iter.next(), Some(1));
}

#[test]
fn simple_infer() {
    let mut iter = MultiIter::new(vec![RangeProducer::new(0, 10)]);
    assert_eq!(iter.next(), Some(0));
    assert_eq!(iter.next(), Some(1));
}

#[test]
fn di_iter() {
    let mut iter = MultiIter::new(vec![RangeProducer::new(0, 10), RangeProducer::new(5, 15)]);
    assert_eq!(iter.next(), Some(0));
    assert_eq!(iter.next(), Some(5));
    assert_eq!(iter.next(), Some(1));
    assert_eq!(iter.next(), Some(6));
}

#[test]
fn di_iter_infer() {
    let mut iter = MultiIter::new(vec![RangeProducer::new(0, 10), RangeProducer::new(5, 15)]);
    assert_eq!(iter.next(), Some(0));
    assert_eq!(iter.next(), Some(5));
    assert_eq!(iter.next(), Some(1));
    assert_eq!(iter.next(), Some(6));
}

#[test]
fn tri_iter() {
    let mut iter = MultiIter::new(vec![
        CountProducer::new(0),
        CountProducer::new(0),
        CountProducer::new(0),
    ]);
    for expected in [0, 0, 0, 1, 1, 1, 2, 2, 2] {
        assert_eq!(iter.next(), Some(expected));
    }
}

#[test]
fn quad_iter() {
    let mut iter = MultiIter::new(vec![
        VecProducer::new(vec![(0, 0), (0, 1), (0, 2)]),
        VecProducer::new(vec![(0, 0), (1, 0), (2, 0)]),
    ]);
    for expected in [(0, 0), (0, 0), (0, 1), (1, 0), (0, 2), (2, 0)] {
        assert_eq!(iter.next(), Some(expected));
    }
}

fn check_diff_len(mut iter: MultiIter<RangeProducer>) {
    let expected: Vec<i64> = vec![
        0, 0, 0, 0, 1, 1, 1, 1, 2, 2, 2, 3, 3, 3, 4, 4, 4, 5, 5, 6, 6, 7, 8, 9,
    ];
    for e in expected {
        assert_eq!(iter.next(), Some(e));
    }
}

#[test]
fn diff_len() {
    check_diff_len(MultiIter::new(vec![
        RangeProducer::new(0, 10),
        RangeProducer::new(0, 5),
        RangeProducer::new(0, 2),
        RangeProducer::new(0, 7),
    ]));
    check_diff_len(MultiIter::new(vec![
        RangeProducer::new(0, 5),
        RangeProducer::new(0, 2),
        RangeProducer::new(0, 7),
        RangeProducer::new(0, 10),
    ]));
    check_diff_len(MultiIter::new(vec![
        RangeProducer::new(0, 5),
        RangeProducer::new(0, 7),
        RangeProducer::new(0, 2),
        RangeProducer::new(0, 10),
    ]));
}

#[test]
fn two_equal_ranges() {
    let mut iter = MultiIter::new(vec![RangeProducer::new(0, 3), RangeProducer::new(0, 3)]);
    for expected in [0, 0, 1, 1, 2, 2] {
        assert_eq!(iter.next(), Some(expected));
    }
    assert_eq!(iter.next(), None);
}

#[test]
fn empty_merger() {
    let mut iter: MultiIter<RangeProducer> = MultiIter::new(vec![]);
    assert_eq!(iter.next(), None);
    assert_eq!(iter.next(), None);
    assert_eq!(iter.next(), None);
}

#[test]
fn default_merger() {
    let mut iter: MultiIter<RangeProducer> = MultiIter::default();
    assert_eq!(iter.next(), None);
    assert_eq!(iter.next(), None);
}

#[test]
fn termination_is_idempotent() {
    let mut iter = MultiIter::new(vec![RangeProducer::new(0, 2)]);
    assert_eq!(iter.next(), Some(0));
    assert_eq!(iter.next(), Some(1));
    assert_eq!(iter.next(), None);
    assert_eq!(iter.next(), None);
    assert_eq!(iter.next(), None);
}

#[test]
fn one_round_per_producer() {
    let mut iter = MultiIter::new(vec![
        RangeProducer::new(0, 2),
        RangeProducer::new(10, 12),
        RangeProducer::new(20, 22),
    ]);
    for expected in [0, 10, 20, 1, 11, 21] {
        assert_eq!(iter.next(), Some(expected));
    }
    assert_eq!(iter.next(), None);
}

#[test]
fn push_before_exhaustion() {
    let mut iter = MultiIter::new(vec![RangeProducer::new(0, 2)]);
    assert_eq!(iter.next(), Some(0));
    iter.push(RangeProducer::new(10, 12));
    assert_eq!(iter.next(), Some(10));
    assert_eq!(iter.next(), Some(1));
    assert_eq!(iter.next(), Some(11));
    assert_eq!(iter.next(), None);
}

#[test]
fn push_after_termination_revives() {
    let mut iter = MultiIter::new(vec![RangeProducer::new(0, 1)]);
    assert_eq!(iter.next(), Some(0));
    assert_eq!(iter.next(), None);
    iter.push(RangeProducer::new(5, 7));
    assert_eq!(iter.next(), Some(5));
    assert_eq!(iter.next(), Some(6));
    assert_eq!(iter.next(), None);
    assert_eq!(iter.next(), None);
}

#[test]
fn push_onto_default() {
    let mut iter = MultiIter::default();
    iter.push(RangeProducer::new(3, 5));
    assert_eq!(iter.next(), Some(3));
    assert_eq!(iter.next(), Some(4));
    assert_eq!(iter.next(), None);
}

#[test]
fn range_producer_pulls() {
    let mut p = RangeProducer::new(7, 9);
    assert_eq!(p.pull(), Some(7));
    assert_eq!(p.pull(), Some(8));
    assert_eq!(p.pull(), None);
    assert_eq!(p.pull(), None);
}

#[test]
fn range_producer_reversed_bounds() {
    let mut p = RangeProducer::new(5, 2);
    assert_eq!(p.pull(), None);
}

#[test]
fn count_producer_pulls() {
    let mut p = CountProducer::new(-2);
    assert_eq!(p.pull(), Some(-2));
    assert_eq!(p.pull(), Some(-1));
    assert_eq!(p.pull(), Some(0));
    assert_eq!(p.pull(), Some(1));
}

#[test]
fn count_producer_stops_at_the_top() {
    let mut p = CountProducer::new(i64::MAX - 1);
    assert_eq!(p.pull(), Some(i64::MAX - 1));
    assert_eq!(p.pull(), Some(i64::MAX));
    assert_eq!(p.pull(), None);
    assert_eq!(p.pull(), None);
}

#[test]
fn vec_producer_pulls() {
    let mut p = VecProducer::new(vec![4, 9]);
    assert_eq!(p.pull(), Some(4));
    assert_eq!(p.pull(), Some(9));
    assert_eq!(p.pull(), None);
}

#[test]
fn vec_producer_empty() {
    let mut p: VecProducer<i64> = VecProducer::new(vec![]);
    assert_eq!(p.pull(), None);
}

#[test]
fn negative_range() {
    let mut iter = MultiIter::new(vec![RangeProducer::new(1, 5), RangeProducer::new(-3, 2)]);
    for expected in [1, -3, 2, -2, 3, -1, 4, 0, 1] {
        assert_eq!(iter.next(), Some(expected));
    }
    assert_eq!(iter.next(), None);
}
