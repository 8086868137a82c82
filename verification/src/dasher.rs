//! The path dasher: drives a `DashCursor` across the straight-line segments
//! of a path, splitting each line at every dash/gap boundary. Positions are
//! distances along the current line, in the same length units as the
//! pattern; a geometric caller interpolates them back into endpoints.

use vstd::prelude::*;

use crate::cursor::{
    advance_chain, chain_state, lemma_advance_properties, spec_reset, DashAction, DashActionType,
    DashCursor,
};
use crate::pattern::{DashError, DashOptions};

verus! {

/// One emitted sub-segment: a drawn dash with its start and end positions
/// along the current line, or a skipped gap of which only the length is
/// reported, since gaps are not drawn.
#[derive(Clone, Copy, Debug, PartialEq, Eq, Structural)]
pub enum DashOrGap {
    Dash { from: i64, to: i64, distance: i64 },
    Gap { distance: i64 },
}

/// A path traversal event, already flattened: lengths stand in for geometry.
/// `Line` carries the length of a straight segment; `Close` the length of
/// the closing edge back to the subpath's first point. Curved events carry
/// nothing, since the dasher rejects them.
#[derive(Clone, Copy, Debug, PartialEq, Eq, Structural)]
pub enum DashPathEvent {
    Begin,
    Line { length: i64 },
    Close { length: i64 },
    End,
    Quadratic,
    Cubic,
}

/// The sequence of dash/gap items that a chain of actions produces when it
/// starts at position `pos` along a line.
pub open spec fn outputs_from_actions(actions: Seq<DashAction>, pos: int) -> Seq<DashOrGap>
    decreases actions.len(),
{
    if actions.len() == 0 {
        Seq::empty()
    } else {
        let a = actions[0];
        let item = if a.dash_action_type == DashActionType::Dash {
            DashOrGap::Dash { from: pos as i64, to: (pos + a.length) as i64, distance: a.length }
        } else {
            DashOrGap::Gap { distance: a.length }
        };
        seq![item] + outputs_from_actions(actions.skip(1), pos + a.length)
    }
}

/// Walks a cursor across flattened path events and emits dash/gap
/// sub-segments, one run of them per line.
pub struct FlattenedEventIterator {
    pub cursor: DashCursor,
    /// Length of the line currently being walked.
    pub line_length: i64,
    /// Distance already consumed along the current line.
    pub current_relative_distance: i64,
    /// Distance still to consume on the current line.
    pub remaining_distance: i64,
}

impl FlattenedEventIterator {
    /// Well-formedness: a well-formed cursor and line bookkeeping whose
    /// running total cannot overflow.
    pub open spec fn wf(self) -> bool {
        &&& self.cursor.wf()
        &&& 0 <= self.current_relative_distance
        &&& 0 <= self.remaining_distance
        &&& self.current_relative_distance + self.remaining_distance <= i64::MAX
    }

    /// Creates a dasher over a fresh cursor for the given pattern.
    pub fn new(options: &DashOptions) -> (it: FlattenedEventIterator)
        requires
            options.wf(),
        ensures
            it.wf(),
            it.cursor.array@ == options.array@,
            it.cursor.initial_offset == it.cursor.current_offset,
            it.cursor.initial_index == it.cursor.current_index,
            it.cursor.current_offset == options.initial_offset as int % it.cursor.cycle_length(),
            it.line_length == 0,
            it.current_relative_distance == 0,
            it.remaining_distance == 0,
    {
        FlattenedEventIterator {
            cursor: DashCursor::new(options),
            line_length: 0,
            current_relative_distance: 0,
            remaining_distance: 0,
        }
    }

    fn initialize_line_loop(&mut self, length: i64)
        requires
            old(self).wf(),
            0 <= length,
        ensures
            *final(self) == (FlattenedEventIterator {
                line_length: length,
                current_relative_distance: 0,
                remaining_distance: length,
                ..*old(self)
            }),
            final(self).wf(),
    {
        self.line_length = length;
        self.current_relative_distance = 0;
        self.remaining_distance = length;
    }

    fn inner_line_loop(&mut self) -> (output: DashOrGap)
        requires
            old(self).wf(),
            old(self).remaining_distance > 0,
        ensures
            final(self).wf(),
            final(self).cursor == old(self).cursor.advance_state(old(self).remaining_distance),
            final(self).line_length == old(self).line_length,
            ({
                let action = old(self).cursor.advance_action(old(self).remaining_distance);
                &&& final(self).remaining_distance == action.remaining_distance
                &&& final(self).remaining_distance < old(self).remaining_distance
                &&& final(self).current_relative_distance == old(self).current_relative_distance
                    + action.length
                &&& output == (if action.dash_action_type == DashActionType::Dash {
                    DashOrGap::Dash {
                        from: old(self).current_relative_distance,
                        to: (old(self).current_relative_distance + action.length) as i64,
                        distance: action.length,
                    }
                } else {
                    DashOrGap::Gap { distance: action.length }
                })
            }),
    {
        proof {
            lemma_advance_properties(old(self).cursor, old(self).remaining_distance);
        }
        let action = self.cursor.progress_by(self.remaining_distance);
        let previous_relative_distance = self.current_relative_distance;
        let next_relative_distance = self.current_relative_distance + action.length;
        self.remaining_distance = action.remaining_distance;
        self.current_relative_distance = next_relative_distance;
        match action.dash_action_type {
            DashActionType::Dash => DashOrGap::Dash {
                from: previous_relative_distance,
                to: next_relative_distance,
                distance: action.length,
            },
            DashActionType::Gap => DashOrGap::Gap { distance: action.length },
        }
    }

    fn handle_line(&mut self, length: i64) -> (outputs: Vec<DashOrGap>)
        requires
            old(self).wf(),
            0 <= length,
        ensures
            final(self).wf(),
            final(self).cursor == chain_state(old(self).cursor, length),
            outputs@ == outputs_from_actions(advance_chain(old(self).cursor, length), 0),
            final(self).line_length == length,
            final(self).remaining_distance == 0,
            final(self).current_relative_distance == length,
    {
        self.initialize_line_loop(length);
        let ghost start_cursor = self.cursor;
        let mut outputs: Vec<DashOrGap> = Vec::new();
        proof {
            assert(Seq::<DashOrGap>::empty() + outputs_from_actions(
                advance_chain(start_cursor, length),
                0,
            ) =~= outputs_from_actions(advance_chain(start_cursor, length), 0));
        }
        while self.remaining_distance > 0
            invariant
                self.wf(),
                self.line_length == length,
                self.current_relative_distance + self.remaining_distance == length,
                chain_state(start_cursor, length) == chain_state(
                    self.cursor,
                    self.remaining_distance,
                ),
                outputs_from_actions(advance_chain(start_cursor, length), 0) == outputs@
                    + outputs_from_actions(
                    advance_chain(self.cursor, self.remaining_distance),
                    self.current_relative_distance as int,
                ),
            decreases self.remaining_distance,
        {
            let ghost prev = *self;
            let ghost prev_outputs = outputs@;
            let output = self.inner_line_loop();
            outputs.push(output);
            proof {
                lemma_advance_properties(prev.cursor, prev.remaining_distance);
                let action = prev.cursor.advance_action(prev.remaining_distance);
                let all = advance_chain(prev.cursor, prev.remaining_distance);
                let rest_actions = advance_chain(self.cursor, self.remaining_distance);
                assert(all.skip(1) =~= rest_actions);
                let p = prev.current_relative_distance as int;
                let rest_out = outputs_from_actions(rest_actions, p + action.length);
                assert(outputs_from_actions(all, p) == seq![output] + rest_out);
                assert(outputs@ =~= prev_outputs + seq![output]);
                assert((prev_outputs + seq![output]) + rest_out =~= prev_outputs + (seq![output]
                    + rest_out));
            }
        }
        proof {
            assert(advance_chain(self.cursor, 0) == Seq::<DashAction>::empty());
            assert(outputs@ + outputs_from_actions(
                Seq::empty(),
                self.current_relative_distance as int,
            ) =~= outputs@);
        }
        outputs
    }

    /// Feeds one path event to the dasher. A subpath begin rewinds the
    /// cursor; a line or a closing edge is walked and its dash/gap
    /// sub-segments are returned in order; an unclosed end does nothing; a
    /// curved event is rejected with `UnsupportedSegmentKind`, the one error
    /// this function can return.
    pub fn next_event(&mut self, event: DashPathEvent) -> (r: Result<Vec<DashOrGap>, DashError>)
        requires
            old(self).wf(),
            event matches DashPathEvent::Line { length } ==> 0 <= length,
            event matches DashPathEvent::Close { length } ==> 0 <= length,
        ensures
            final(self).wf(),
            r is Err <==> (event is Quadratic || event is Cubic),
            r matches Err(e) ==> e == DashError::UnsupportedSegmentKind && *final(self)
                == *old(self),
            event is Begin ==> *final(self) == (FlattenedEventIterator {
                cursor: spec_reset(old(self).cursor),
                ..*old(self)
            }),
            event is End ==> *final(self) == *old(self),
            (event is Begin || event is End) ==> (r matches Ok(outputs) && outputs@
                == Seq::<DashOrGap>::empty()),
            event matches DashPathEvent::Line { length } ==> (r matches Ok(outputs) && outputs@
                == outputs_from_actions(advance_chain(old(self).cursor, length), 0)
                && final(self).cursor == chain_state(old(self).cursor, length)),
            event matches DashPathEvent::Close { length } ==> (r matches Ok(outputs) && outputs@
                == outputs_from_actions(advance_chain(old(self).cursor, length), 0)
                && final(self).cursor == chain_state(old(self).cursor, length)),
    {
        match event {
            DashPathEvent::Begin => {
                self.cursor.reset();
                Ok(Vec::new())
            },
            DashPathEvent::Line { length } => Ok(self.handle_line(length)),
            DashPathEvent::Close { length } => Ok(self.handle_line(length)),
            DashPathEvent::End => Ok(Vec::new()),
            DashPathEvent::Quadratic => Err(DashError::UnsupportedSegmentKind),
            DashPathEvent::Cubic => Err(DashError::UnsupportedSegmentKind),
        }
    }
}

/// Total of the reported lengths of a sequence of dash/gap items.
pub open spec fn total_output_distance(outputs: Seq<DashOrGap>) -> int
    decreases outputs.len(),
{
    if outputs.len() == 0 {
        0
    } else {
        (match outputs[0] {
            DashOrGap::Dash { distance, .. } => distance as int,
            DashOrGap::Gap { distance } => distance as int,
        }) + total_output_distance(outputs.skip(1))
    }
}

/// Walking one line emits dash/gap items whose reported lengths add up to
/// exactly the line's length, wherever along the line the walk starts.
pub proof fn lemma_line_outputs_cover_line(c: DashCursor, pos: int, d: i64)
    requires
        c.wf(),
        0 <= d,
    ensures
        total_output_distance(outputs_from_actions(advance_chain(c, d), pos)) == d,
    decreases d,
{
    if d != 0 {
        lemma_advance_properties(c, d);
        let action = c.advance_action(d);
        let all = advance_chain(c, d);
        let rest_actions = advance_chain(c.advance_state(d), action.remaining_distance);
        assert(all.skip(1) =~= rest_actions);
        let item = outputs_from_actions(all, pos)[0];
        let rest_out = outputs_from_actions(rest_actions, pos + action.length);
        assert(outputs_from_actions(all, pos) == seq![item] + rest_out);
        assert((seq![item] + rest_out).skip(1) =~= rest_out);
        lemma_line_outputs_cover_line(c.advance_state(d), pos + action.length,
            action.remaining_distance);
    }
}

} // verus!
