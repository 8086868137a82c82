// Tests for pattern validation and the dash cursor. Distances are integer
// length units; one unit stands for 1/100 of the geometric unit in the
// construction tests and 1/10 of it in the advance tests.

use dasher::cursor::{DashAction, DashActionType, DashCursor};
use dasher::pattern::{DashError, DashOptions};

fn make_options(initial_offset: i64, array: Vec<i64>) -> DashOptions {
    DashOptions::new(initial_offset, array).unwrap()
}

#[test]
fn test_cursor_construction() {
    // Unit scales standing in for pattern scale factors of 1.0 and 0.01.
    for factor in vec![100i64, 1i64] {
        for phase in vec![-2i64, -1, 1, 2] {
            let options = make_options(
                5 - phase * factor * 16,
                vec![factor * 10, factor * 1, factor * 2, factor * 3],
            );
            let cursor = DashCursor::new(&options);
            assert_eq!(
                vec![factor * 10, factor * 11, factor * 13, factor * 16],
                cursor.cumulative_array
            );
            assert_eq!(5, cursor.current_offset);
            assert_eq!(0, cursor.current_index);
        }
    }
}

fn make_dash(length: i64, remaining_distance: i64) -> DashAction {
    DashAction {
        length,
        remaining_distance,
        dash_action_type: DashActionType::Dash,
    }
}

fn make_gap(length: i64, remaining_distance: i64) -> DashAction {
    DashAction {
        length,
        remaining_distance,
        dash_action_type: DashActionType::Gap,
    }
}

#[test]
fn test_no_segment_cross() {
    let options = make_options(0, vec![10, 20]);
    let mut cursor = DashCursor::new(&options);
    let action = cursor.progress_by(5);
    assert_eq!(make_dash(5, 0), action);
}

#[test]
fn test_segment_cross() {
    let options = make_options(0, vec![10, 20]);
    let mut cursor = DashCursor::new(&options);
    let action = cursor.progress_by(15);
    assert_eq!(make_dash(10, 5), action);
    let action = cursor.progress_by(action.remaining_distance);
    assert_eq!(make_gap(5, 0), action);
}

#[test]
fn test_invalid_pattern_rejected() {
    // Empty list, a zero element, and a negative element must each fail.
    assert_eq!(
        DashOptions::new(0, Vec::new()),
        Err(DashError::InvalidPattern)
    );
    assert_eq!(
        DashOptions::new(0, vec![10, 0, 20]),
        Err(DashError::InvalidPattern)
    );
    assert_eq!(
        DashOptions::new(0, vec![-1]),
        Err(DashError::InvalidPattern)
    );
    assert_eq!(
        DashOptions::new(7, vec![10, -20, 30]),
        Err(DashError::InvalidPattern)
    );
    // A total beyond the representable range is also rejected.
    assert_eq!(
        DashOptions::new(0, vec![i64::MAX, 1]),
        Err(DashError::InvalidPattern)
    );
}

#[test]
fn test_cumulative_array_strictly_increasing() {
    let options = make_options(0, vec![7, 3, 11]);
    let cursor = DashCursor::new(&options);
    assert_eq!(vec![7, 10, 21], cursor.cumulative_array);
    for i in 1..cursor.cumulative_array.len() {
        assert!(cursor.cumulative_array[i - 1] < cursor.cumulative_array[i]);
    }
    let total: i64 = options.array.iter().sum();
    assert_eq!(total, *cursor.cumulative_array.last().unwrap());
}

#[test]
fn test_offset_normalization() {
    // Cycle length 30: negative, zero, positive and multi-cycle offsets all
    // normalize into [0, 30), bracketed by the right segment index.
    let cases: Vec<(i64, i64, usize)> = vec![
        (0, 0, 0),
        (5, 5, 0),
        (10, 10, 1),
        (29, 29, 1),
        (30, 0, 0),
        (65, 5, 0),
        (-1, 29, 1),
        (-30, 0, 0),
        (-61, 29, 1),
    ];
    for (initial_offset, expected_offset, expected_index) in cases {
        let options = make_options(initial_offset, vec![10, 20]);
        let cursor = DashCursor::new(&options);
        assert_eq!(expected_offset, cursor.current_offset);
        assert_eq!(expected_index, cursor.current_index);
    }
}

#[test]
fn test_reset_restores_initial_state() {
    let options = make_options(45, vec![10, 20]);
    let mut cursor = DashCursor::new(&options);
    let offset_after_construction = cursor.current_offset;
    let index_after_construction = cursor.current_index;
    cursor.progress_by(7);
    cursor.progress_by(12);
    cursor.progress_by(100);
    assert_ne!(offset_after_construction, cursor.current_offset);
    cursor.reset();
    assert_eq!(offset_after_construction, cursor.current_offset);
    assert_eq!(index_after_construction, cursor.current_index);
    // Idempotent: a second reset changes nothing.
    cursor.reset();
    assert_eq!(offset_after_construction, cursor.current_offset);
    assert_eq!(index_after_construction, cursor.current_index);
}

#[test]
fn test_distance_conservation() {
    // Chaining advance calls until nothing remains consumes exactly the
    // requested distance.
    let options = make_options(4, vec![7, 3, 11]);
    let mut cursor = DashCursor::new(&options);
    let requested: i64 = 100;
    let mut remaining = requested;
    let mut consumed: i64 = 0;
    while remaining > 0 {
        let action = cursor.progress_by(remaining);
        assert!(action.length >= 0);
        assert_eq!(remaining, action.length + action.remaining_distance);
        consumed += action.length;
        remaining = action.remaining_distance;
    }
    assert_eq!(requested, consumed);
}

#[test]
fn test_even_pattern_full_cycle_round_trip() {
    // Even-length pattern: walking exactly one cycle length returns the
    // cursor to its starting position, and every reported kind matches the
    // parity of the segment it was consumed from.
    let options = make_options(5, vec![10, 20]);
    let mut cursor = DashCursor::new(&options);
    let start_offset = cursor.current_offset;
    let start_index = cursor.current_index;
    let mut remaining: i64 = 30;
    while remaining > 0 {
        let index_before = cursor.current_index;
        let action = cursor.progress_by(remaining);
        let expected = if index_before % 2 == 0 {
            DashActionType::Dash
        } else {
            DashActionType::Gap
        };
        assert_eq!(expected, action.dash_action_type);
        remaining = action.remaining_distance;
    }
    assert_eq!(start_offset, cursor.current_offset);
    assert_eq!(start_index, cursor.current_index);
}

#[test]
fn test_odd_pattern_wraparound_kind_discrepancy() {
    // Documented discrepancy: for an odd-length pattern, the wraparound step
    // computes the kind from the post-wrap index and reports Gap, although
    // the span it consumed lay in segment 0, a dash.
    let options = make_options(0, vec![10]);
    let mut cursor = DashCursor::new(&options);
    let action = cursor.progress_by(10);
    assert_eq!(10, action.length);
    assert_eq!(0, action.remaining_distance);
    assert_eq!(DashActionType::Gap, action.dash_action_type);
}
