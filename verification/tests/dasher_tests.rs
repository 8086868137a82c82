// Tests for the path dasher. Distances are integer length units; one unit
// stands for 1/10 of the geometric unit, so the pattern [1.0, 2.0] becomes
// [10, 20] and a line of length 10.0 becomes 100 units.

use dasher::dasher::{DashOrGap, DashPathEvent, FlattenedEventIterator};
use dasher::pattern::{DashError, DashOptions};

fn make_iterator(initial_offset: i64, array: Vec<i64>) -> FlattenedEventIterator {
    let options = DashOptions::new(initial_offset, array).unwrap();
    FlattenedEventIterator::new(&options)
}

fn dash(from: i64, to: i64) -> DashOrGap {
    DashOrGap::Dash {
        from,
        to,
        distance: to - from,
    }
}

fn gap(distance: i64) -> DashOrGap {
    DashOrGap::Gap { distance }
}

#[test]
fn test_single_line_dashing() {
    // A straight line from (0,0) to (10,0), pattern [1.0, 2.0], offset 0.0:
    // dashes (0,0)-(1,0), (3,0)-(4,0), (6,0)-(7,0), (9,0)-(10,0) with gaps
    // of 2.0 between them; positions are distances along the line.
    let mut it = make_iterator(0, vec![10, 20]);
    it.next_event(DashPathEvent::Begin).unwrap();
    let outputs = it.next_event(DashPathEvent::Line { length: 100 }).unwrap();
    assert_eq!(
        vec![
            dash(0, 10),
            gap(20),
            dash(30, 40),
            gap(20),
            dash(60, 70),
            gap(20),
            dash(90, 100),
        ],
        outputs
    );
    let total: i64 = outputs
        .iter()
        .map(|o| match o {
            DashOrGap::Dash { distance, .. } => *distance,
            DashOrGap::Gap { distance } => *distance,
        })
        .sum();
    assert_eq!(100, total);
}

#[test]
fn test_phase_continuous_within_subpath() {
    // The second line of a subpath continues the pattern phase: after 100
    // units the cycle position is 10, inside the first gap.
    let mut it = make_iterator(0, vec![10, 20]);
    it.next_event(DashPathEvent::Begin).unwrap();
    it.next_event(DashPathEvent::Line { length: 100 }).unwrap();
    let outputs = it.next_event(DashPathEvent::Line { length: 40 }).unwrap();
    assert_eq!(vec![gap(20), dash(20, 30), gap(10)], outputs);
}

#[test]
fn test_phase_resets_at_subpath_begin() {
    // A new subpath begin rewinds the phase: the outputs equal those of a
    // fresh traversal of the same line.
    let mut it = make_iterator(0, vec![10, 20]);
    it.next_event(DashPathEvent::Begin).unwrap();
    it.next_event(DashPathEvent::Line { length: 15 }).unwrap();
    let begin_outputs = it.next_event(DashPathEvent::Begin).unwrap();
    assert!(begin_outputs.is_empty());
    let outputs = it.next_event(DashPathEvent::Line { length: 100 }).unwrap();

    let mut fresh = make_iterator(0, vec![10, 20]);
    fresh.next_event(DashPathEvent::Begin).unwrap();
    let fresh_outputs = fresh.next_event(DashPathEvent::Line { length: 100 }).unwrap();
    assert_eq!(fresh_outputs, outputs);
}

#[test]
fn test_closing_edge_is_dashed() {
    // A close event dashes the closing edge exactly as a line of the same
    // length.
    let mut it = make_iterator(0, vec![10, 20]);
    it.next_event(DashPathEvent::Begin).unwrap();
    let outputs = it.next_event(DashPathEvent::Close { length: 35 }).unwrap();
    assert_eq!(vec![dash(0, 10), gap(20), dash(30, 35)], outputs);
}

#[test]
fn test_zero_length_line_is_a_no_op() {
    let mut it = make_iterator(0, vec![10, 20]);
    it.next_event(DashPathEvent::Begin).unwrap();
    let outputs = it.next_event(DashPathEvent::Line { length: 0 }).unwrap();
    assert!(outputs.is_empty());
    // The phase is untouched: the next line starts at the pattern start.
    let outputs = it.next_event(DashPathEvent::Line { length: 10 }).unwrap();
    assert_eq!(vec![dash(0, 10)], outputs);
}

#[test]
fn test_unclosed_end_is_a_no_op() {
    let mut it = make_iterator(0, vec![10, 20]);
    it.next_event(DashPathEvent::Begin).unwrap();
    let outputs = it.next_event(DashPathEvent::End).unwrap();
    assert!(outputs.is_empty());
}

#[test]
fn test_curved_events_are_rejected() {
    let mut it = make_iterator(0, vec![10, 20]);
    it.next_event(DashPathEvent::Begin).unwrap();
    assert_eq!(
        Err(DashError::UnsupportedSegmentKind),
        it.next_event(DashPathEvent::Quadratic)
    );
    assert_eq!(
        Err(DashError::UnsupportedSegmentKind),
        it.next_event(DashPathEvent::Cubic)
    );
    // Rejection leaves the dasher usable and its phase untouched.
    let outputs = it.next_event(DashPathEvent::Line { length: 10 }).unwrap();
    assert_eq!(vec![dash(0, 10)], outputs);
}

#[test]
fn test_initial_offset_shifts_dashes() {
    // Offset 0.5 (5 units) into the pattern [1.0, 2.0]: the first dash is
    // the tail of pattern segment 0.
    let mut it = make_iterator(5, vec![10, 20]);
    it.next_event(DashPathEvent::Begin).unwrap();
    let outputs = it.next_event(DashPathEvent::Line { length: 40 }).unwrap();
    assert_eq!(vec![dash(0, 5), gap(20), dash(25, 35), gap(5)], outputs);
}
