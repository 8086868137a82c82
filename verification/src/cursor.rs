//! The dash cursor: a stateful tracker of the current position within the
//! pattern's cumulative-length space. Its one step operation, `progress_by`,
//! answers how far a requested distance reaches before the pattern state
//! changes, and whether the consumed span lies within a dash or a gap.

use vstd::prelude::*;

use crate::pattern::{lemma_prefix_total_increasing, prefix_total, valid_lengths, DashOptions};
use vstd::arithmetic::div_mod::{
    lemma_fundamental_div_mod, lemma_fundamental_div_mod_converse_mod,
};

verus! {

/// Whether a consumed span is drawn (`Dash`, even pattern index) or skipped
/// (`Gap`, odd pattern index).
#[derive(Clone, Copy, Debug, PartialEq, Eq, Structural)]
pub enum DashActionType {
    Dash,
    Gap,
}

/// The result of one `progress_by` step.
#[derive(Clone, Copy, Debug, PartialEq, Eq, Structural)]
pub struct DashAction {
    /// The portion of the requested distance consumed in this step.
    pub length: i64,
    /// Requested distance minus `length`; feed it to the next `progress_by`
    /// call to keep walking.
    pub remaining_distance: i64,
    /// The pattern-segment type of the portion just consumed.
    pub dash_action_type: DashActionType,
}

/// A distance-based cursor over the repeating pattern.
pub struct DashCursor {
    /// The pattern segment lengths.
    pub array: Vec<i64>,
    /// Prefix sums of `array`; the last element is the cycle length.
    pub cumulative_array: Vec<i64>,
    /// The normalized starting offset, kept so the cursor can be rewound.
    pub initial_offset: i64,
    /// The starting segment index, kept so the cursor can be rewound.
    pub initial_index: usize,
    /// Position within the cycle, in `[0, cycle_length)`.
    pub current_offset: i64,
    /// Index of the pattern segment the cursor currently occupies.
    pub current_index: usize,
}

/// Parity rule: even pattern indices are drawn, odd ones are skipped.
pub open spec fn spec_action_type(index: int) -> DashActionType {
    if index % 2 == 0 {
        DashActionType::Dash
    } else {
        DashActionType::Gap
    }
}

impl DashCursor {
    /// The cycle length: the total of all pattern segment lengths.
    pub open spec fn cycle_length(self) -> int {
        prefix_total(self.array@, self.array@.len() as int)
    }

    /// `index` is the pattern segment that brackets `offset`: the cumulative
    /// length before that segment is at most `offset`, the cumulative length
    /// through it exceeds `offset`.
    pub open spec fn pos_wf(self, offset: i64, index: usize) -> bool {
        &&& index < self.array@.len()
        &&& prefix_total(self.array@, index as int) <= offset
        &&& offset < prefix_total(self.array@, index as int + 1)
    }

    /// Cursor well-formedness: a valid pattern whose total fits in `i64`, a
    /// cumulative array that holds its prefix sums, and current and initial
    /// positions each bracketed by their segment index.
    pub open spec fn wf(self) -> bool {
        &&& valid_lengths(self.array@)
        &&& self.array@.len() <= usize::MAX
        &&& self.cycle_length() <= i64::MAX
        &&& self.cumulative_array@.len() == self.array@.len()
        &&& forall|i: int|
            0 <= i < self.array@.len() ==> self.cumulative_array@[i] == prefix_total(
                self.array@,
                i + 1,
            )
        &&& self.pos_wf(self.current_offset, self.current_index)
        &&& self.pos_wf(self.initial_offset, self.initial_index)
    }

    /// Distance from the current offset to the end of the current pattern
    /// segment.
    pub open spec fn boundary_distance(self) -> int {
        prefix_total(self.array@, self.current_index as int + 1) - self.current_offset
    }

    /// The cursor state after one `progress_by(d)` call.
    pub open spec fn advance_state(self, d: i64) -> DashCursor {
        if self.boundary_distance() <= d {
            if self.current_index + 1 < self.array@.len() {
                DashCursor {
                    current_offset: self.cumulative_array@[self.current_index as int],
                    current_index: (self.current_index + 1) as usize,
                    ..self
                }
            } else {
                DashCursor { current_offset: 0, current_index: 0, ..self }
            }
        } else {
            DashCursor { current_offset: (self.current_offset + d) as i64, ..self }
        }
    }

    /// The action one `progress_by(d)` call returns. When the request reaches
    /// the segment boundary, the reported type is the parity of the
    /// post-update index plus one; on a cycle wraparound (last segment back to
    /// the first) that computation reports `Gap` whatever the parity of the
    /// final segment really was, which is faithful only for even-length
    /// patterns.
    pub open spec fn advance_action(self, d: i64) -> DashAction {
        if self.boundary_distance() <= d {
            DashAction {
                length: (self.cumulative_array@[self.current_index as int]
                    - self.current_offset) as i64,
                remaining_distance: (d - (self.cumulative_array@[self.current_index as int]
                    - self.current_offset)) as i64,
                dash_action_type: spec_action_type(
                    self.advance_state(d).current_index as int + 1,
                ),
            }
        } else {
            DashAction {
                length: d,
                remaining_distance: 0,
                dash_action_type: spec_action_type(self.current_index as int),
            }
        }
    }

    /// Creates a cursor from a pattern: computes the cumulative array,
    /// normalizes the starting offset into `[0, cycle_length)` by Euclidean
    /// remainder, and finds the segment index bracketing it. The normalized
    /// pair is stored as both the current and the initial state.
    pub fn new(options: &DashOptions) -> (cursor: DashCursor)
        requires
            options.wf(),
        ensures
            cursor.wf(),
            cursor.array@ == options.array@,
            cursor.initial_offset == cursor.current_offset,
            cursor.initial_index == cursor.current_index,
            cursor.current_offset == options.initial_offset as int % cursor.cycle_length(),
            0 <= cursor.current_offset < cursor.cycle_length(),
    {
        let cumulative_array = DashCursor::cumulate_array(&options.array);
        let cycle_length = cumulative_array[cumulative_array.len() - 1];
        proof {
            lemma_prefix_total_increasing(options.array@, 0, options.array@.len() as int);
        }
        let current_offset = euclid_mod(options.initial_offset, cycle_length);
        let current_index = DashCursor::find_index_in_cumulative_array(
            current_offset,
            &cumulative_array,
        );
        let cursor = DashCursor {
            array: clone_lengths(&options.array),
            cumulative_array,
            initial_offset: current_offset,
            initial_index: current_index,
            current_offset,
            current_index,
        };
        proof {
            if current_index > 0 {
                assert(cursor.cumulative_array@[current_index as int - 1] <= current_offset);
            }
            assert(cursor.pos_wf(current_offset, current_index));
        }
        cursor
    }

    /// Rewinds the cursor to the state it had right after construction.
    /// Called at the start of each subpath, so the dash phase is continuous
    /// within a subpath but does not drift across subpaths.
    pub fn reset(&mut self)
        ensures
            *final(self) == spec_reset(*old(self)),
            old(self).wf() ==> final(self).wf(),
    {
        self.current_offset = self.initial_offset;
        self.current_index = self.initial_index;
    }

    fn cumulate_array(array: &Vec<i64>) -> (cumulative: Vec<i64>)
        requires
            valid_lengths(array@),
            prefix_total(array@, array@.len() as int) <= i64::MAX,
        ensures
            cumulative@.len() == array@.len(),
            forall|i: int| 0 <= i < array@.len() ==> cumulative@[i] == prefix_total(array@, i + 1),
    {
        let mut cumulative: Vec<i64> = Vec::new();
        let mut acc: i64 = 0;
        let mut i: usize = 0;
        while i < array.len()
            invariant
                0 <= i <= array@.len(),
                cumulative@.len() == i,
                acc == prefix_total(array@, i as int),
                0 <= acc,
                forall|j: int| 0 <= j < i ==> cumulative@[j] == prefix_total(array@, j + 1),
                valid_lengths(array@),
                prefix_total(array@, array@.len() as int) <= i64::MAX,
            decreases array@.len() - i,
        {
            proof {
                lemma_prefix_total_increasing(array@, i as int + 1, array@.len() as int);
            }
            let acc2 = acc + array[i];
            cumulative.push(acc2);
            acc = acc2;
            i = i + 1;
        }
        cumulative
    }

    fn find_index_in_cumulative_array(offset: i64, cumulative_array: &Vec<i64>) -> (index: usize)
        requires
            cumulative_array@.len() > 0,
            offset < cumulative_array@[cumulative_array@.len() - 1],
        ensures
            index < cumulative_array@.len(),
            cumulative_array@[index as int] > offset,
            forall|j: int| 0 <= j < index ==> cumulative_array@[j] <= offset,
    {
        let mut current_index: usize = 0;
        while current_index < cumulative_array.len() - 1 && cumulative_array[current_index]
            <= offset
            invariant
                current_index < cumulative_array@.len(),
                offset < cumulative_array@[cumulative_array@.len() - 1],
                forall|j: int| 0 <= j < current_index ==> cumulative_array@[j] <= offset,
            decreases cumulative_array@.len() - current_index,
        {
            current_index = current_index + 1;
        }
        current_index
    }

    fn make_dash_action_type(index: usize) -> (t: DashActionType)
        ensures
            t == spec_action_type(index as int),
    {
        if index % 2 == 0 {
            DashActionType::Dash
        } else {
            DashActionType::Gap
        }
    }

    /// The core step: tries to progress by the given distance, or until the
    /// next pattern-segment delimiter, whichever comes first. The returned
    /// action says how much was consumed, how much of the request is left for
    /// a follow-up call, and whether the consumed span was a dash or a gap.
    pub fn progress_by(&mut self, progress_distance: i64) -> (action: DashAction)
        requires
            old(self).wf(),
            0 <= progress_distance,
        ensures
            *final(self) == old(self).advance_state(progress_distance),
            action == old(self).advance_action(progress_distance),
            final(self).wf(),
            action.length + action.remaining_distance == progress_distance,
            0 <= action.length <= progress_distance,
    {
        proof {
            lemma_advance_properties(*old(self), progress_distance);
        }
        let distance_to_next = self.cumulative_array[self.current_index] - self.current_offset;
        if distance_to_next <= progress_distance {
            // The request reaches a segment delimiter before the line end.
            let dash_length = distance_to_next;
            if self.current_index < self.cumulative_array.len() - 1 {
                self.current_offset = self.cumulative_array[self.current_index];
                self.current_index = self.current_index + 1;
            } else {
                // Wrap the cycle.
                self.current_index = 0;
                self.current_offset = 0;
            }
            DashAction {
                length: dash_length,
                remaining_distance: progress_distance - distance_to_next,
                dash_action_type: DashCursor::make_dash_action_type(self.current_index + 1),
            }
        } else {
            // The request ends within the current segment.
            self.current_offset = self.current_offset + progress_distance;
            DashAction {
                length: progress_distance,
                remaining_distance: 0,
                dash_action_type: DashCursor::make_dash_action_type(self.current_index),
            }
        }
    }
}

/// The cursor state that `reset` restores: the stored initial position, with
/// everything else unchanged.
pub open spec fn spec_reset(c: DashCursor) -> DashCursor {
    DashCursor { current_offset: c.initial_offset, current_index: c.initial_index, ..c }
}

/// Euclidean remainder on `i64`: the result is always in `[0, modulus)`,
/// also for negative values.
fn euclid_mod(value: i64, modulus: i64) -> (r: i64)
    requires
        modulus > 0,
    ensures
        0 <= r < modulus,
        r == value as int % modulus as int,
{
    if value >= 0 {
        let r = ((value as u64) % (modulus as u64)) as i64;
        proof {
            lemma_fundamental_div_mod(value as int, modulus as int);
            lemma_fundamental_div_mod_converse_mod(
                value as int,
                modulus as int,
                value as int / modulus as int,
                value as int % modulus as int,
            );
        }
        r
    } else {
        let negated = -(value + 1);
        let rem = ((negated as u64) % (modulus as u64)) as i64;
        let r = modulus - 1 - rem;
        proof {
            let m = modulus as int;
            let q = negated as int / m;
            lemma_fundamental_div_mod(negated as int, m);
            assert(negated as int == q * m + rem);
            assert(value as int == (-q - 1) * m + (m - 1 - rem)) by (nonlinear_arith)
                requires
                    negated as int == q * m + rem,
                    value as int == -(negated as int) - 1,
            ;
            lemma_fundamental_div_mod_converse_mod(value as int, m, -q - 1, m - 1 - rem);
        }
        r
    }
}

fn clone_lengths(array: &Vec<i64>) -> (r: Vec<i64>)
    ensures
        r@ == array@,
{
    let mut r: Vec<i64> = Vec::new();
    let mut i: usize = 0;
    while i < array.len()
        invariant
            0 <= i <= array@.len(),
            r@.len() == i,
            forall|j: int| 0 <= j < i ==> r@[j] == array@[j],
        decreases array@.len() - i,
    {
        r.push(array[i]);
        i = i + 1;
    }
    proof {
        assert(r@ =~= array@);
    }
    r
}

/// One `progress_by` step on a well-formed cursor: the state stays well
/// formed, the pattern and the stored initial position are untouched, the
/// consumed and remaining distances split the request, and the new offset is
/// the old one advanced by the consumed length, modulo the cycle length.
pub proof fn lemma_advance_properties(c: DashCursor, d: i64)
    requires
        c.wf(),
        0 <= d,
    ensures
        c.advance_state(d).wf(),
        c.advance_state(d).array == c.array,
        c.advance_state(d).cumulative_array == c.cumulative_array,
        c.advance_state(d).initial_offset == c.initial_offset,
        c.advance_state(d).initial_index == c.initial_index,
        c.advance_action(d).length + c.advance_action(d).remaining_distance == d,
        0 <= c.advance_action(d).length <= d,
        d > 0 ==> c.advance_action(d).remaining_distance < d,
        c.advance_state(d).current_offset as int == (c.current_offset + c.advance_action(d).length)
            % c.cycle_length(),
        0 <= prefix_total(c.array@, c.current_index as int),
        prefix_total(c.array@, c.current_index as int + 1) <= c.cycle_length(),
        0 < c.cycle_length() <= i64::MAX,
        0 <= c.current_offset < c.cycle_length(),
{
    let arr = c.array@;
    let n = arr.len() as int;
    let idx = c.current_index as int;
    let cycle = c.cycle_length();
    lemma_prefix_total_increasing(arr, 0, idx);
    lemma_prefix_total_increasing(arr, idx + 1, n);
    lemma_prefix_total_increasing(arr, 1, n);
    if c.boundary_distance() <= d {
        if idx + 1 < n {
            lemma_prefix_total_increasing(arr, idx + 2, n);
            assert(prefix_total(arr, idx + 2) == prefix_total(arr, idx + 1) + arr[idx + 1]);
            assert(c.advance_state(d).pos_wf(
                c.cumulative_array@[idx],
                (c.current_index + 1) as usize,
            ));
            lemma_fundamental_div_mod_converse_mod(
                prefix_total(arr, idx + 1),
                cycle,
                0,
                prefix_total(arr, idx + 1),
            );
        } else {
            assert(prefix_total(arr, 0) == 0);
            assert(prefix_total(arr, 1) == prefix_total(arr, 0) + arr[0]);
            assert(c.advance_state(d).pos_wf(0, 0));
            lemma_fundamental_div_mod_converse_mod(cycle, cycle, 1, 0);
        }
    } else {
        lemma_fundamental_div_mod_converse_mod(
            c.current_offset + d,
            cycle,
            0,
            c.current_offset + d,
        );
    }
}

/// The cumulative array of a well-formed cursor is strictly increasing, and
/// its last element is the cycle length: the sum of all pattern lengths.
pub proof fn lemma_cumulative_array_strictly_increasing(c: DashCursor)
    requires
        c.wf(),
    ensures
        forall|i: int, j: int|
            0 <= i < j < c.cumulative_array@.len() ==> c.cumulative_array@[i]
                < c.cumulative_array@[j],
        c.cumulative_array@[c.cumulative_array@.len() - 1] == c.cycle_length(),
{
    assert forall|i: int, j: int| 0 <= i < j < c.cumulative_array@.len() implies c.cumulative_array@[i]
        < c.cumulative_array@[j] by {
        lemma_prefix_total_increasing(c.array@, i + 1, j + 1);
    }
}

/// At most one pattern segment index brackets a given offset.
pub proof fn lemma_position_index_unique(c: DashCursor, offset: i64, i1: usize, i2: usize)
    requires
        valid_lengths(c.array@),
        c.pos_wf(offset, i1),
        c.pos_wf(offset, i2),
    ensures
        i1 == i2,
{
    if i1 < i2 {
        lemma_prefix_total_increasing(c.array@, i1 as int + 1, i2 as int);
    }
    if i2 < i1 {
        lemma_prefix_total_increasing(c.array@, i2 as int + 1, i1 as int);
    }
}

/// The cursor after a sequence of `progress_by` calls with the given
/// requested distances.
pub open spec fn advance_state_seq(c: DashCursor, distances: Seq<i64>) -> DashCursor
    decreases distances.len(),
{
    if distances.len() == 0 {
        c
    } else {
        advance_state_seq(c.advance_state(distances[0]), distances.skip(1))
    }
}

/// Resetting is idempotent, and it restores exactly the post-construction
/// state — the stored initial position — no matter what sequence of advances
/// happened in between.
pub proof fn lemma_reset_restores_initial_state(c: DashCursor, distances: Seq<i64>)
    ensures
        spec_reset(spec_reset(c)) == spec_reset(c),
        spec_reset(advance_state_seq(c, distances)) == spec_reset(c),
    decreases distances.len(),
{
    if distances.len() > 0 {
        lemma_reset_restores_initial_state(c.advance_state(distances[0]), distances.skip(1));
    }
}

/// The chain of actions produced by repeated `progress_by` calls that start
/// with a request of `d` and feed each call's `remaining_distance` into the
/// next, until nothing remains.
pub open spec fn advance_chain(c: DashCursor, d: i64) -> Seq<DashAction>
    decreases d
        when c.wf() && 0 <= d
        via advance_chain_decreases
{
    if d == 0 {
        Seq::empty()
    } else {
        seq![c.advance_action(d)] + advance_chain(
            c.advance_state(d),
            c.advance_action(d).remaining_distance,
        )
    }
}

#[via_fn]
proof fn advance_chain_decreases(c: DashCursor, d: i64) {
    if c.wf() && 0 <= d && d != 0 {
        lemma_advance_properties(c, d);
    }
}

/// The cursor state at the end of such a chain.
pub open spec fn chain_state(c: DashCursor, d: i64) -> DashCursor
    decreases d
        when c.wf() && 0 <= d
        via chain_state_decreases
{
    if d == 0 {
        c
    } else {
        chain_state(c.advance_state(d), c.advance_action(d).remaining_distance)
    }
}

#[via_fn]
proof fn chain_state_decreases(c: DashCursor, d: i64) {
    if c.wf() && 0 <= d && d != 0 {
        lemma_advance_properties(c, d);
    }
}

/// Total of the `length` fields of a sequence of actions.
pub open spec fn total_consumed(actions: Seq<DashAction>) -> int
    decreases actions.len(),
{
    if actions.len() == 0 {
        0
    } else {
        actions[0].length + total_consumed(actions.skip(1))
    }
}

/// Conservation of distance: a chain of `progress_by` calls that feeds each
/// call's `remaining_distance` into the next consumes, in total, exactly the
/// distance requested at the start of the chain.
pub proof fn lemma_advance_chain_conservation(c: DashCursor, d: i64)
    requires
        c.wf(),
        0 <= d,
    ensures
        total_consumed(advance_chain(c, d)) == d,
    decreases d,
{
    if d != 0 {
        lemma_advance_properties(c, d);
        let a = c.advance_action(d);
        let rest = advance_chain(c.advance_state(d), a.remaining_distance);
        lemma_advance_chain_conservation(c.advance_state(d), a.remaining_distance);
        assert((seq![a] + rest).skip(1) =~= rest);
    }
}

/// The chained cursor state stays well formed, leaves the pattern and the
/// stored initial position untouched, and ends at the starting offset
/// advanced by the whole chained distance, modulo the cycle length.
pub proof fn lemma_chain_state_offset(c: DashCursor, d: i64)
    requires
        c.wf(),
        0 <= d,
    ensures
        chain_state(c, d).wf(),
        chain_state(c, d).array == c.array,
        chain_state(c, d).cumulative_array == c.cumulative_array,
        chain_state(c, d).initial_offset == c.initial_offset,
        chain_state(c, d).initial_index == c.initial_index,
        chain_state(c, d).current_offset as int == (c.current_offset + d) % c.cycle_length(),
    decreases d,
{
    let cycle = c.cycle_length();
    lemma_prefix_total_increasing(c.array@, 0, c.current_index as int);
    lemma_prefix_total_increasing(c.array@, c.current_index as int + 1, c.array@.len() as int);
    if d == 0 {
        lemma_fundamental_div_mod_converse_mod(
            c.current_offset as int,
            cycle,
            0,
            c.current_offset as int,
        );
    } else {
        lemma_advance_properties(c, d);
        let a = c.advance_action(d);
        let c2 = c.advance_state(d);
        lemma_chain_state_offset(c2, a.remaining_distance);
        vstd::arithmetic::div_mod::lemma_add_mod_noop_right(
            a.remaining_distance as int,
            c.current_offset + a.length,
            cycle,
        );
    }
}

/// For an even-length pattern, the parity-based dash/gap classification is
/// faithful on every step: the reported type is exactly the parity of the
/// pattern segment the consumed span lies in, wraparound included.
pub proof fn lemma_even_pattern_kind_stable(c: DashCursor, d: i64)
    requires
        c.wf(),
        0 <= d,
        c.array@.len() % 2 == 0,
    ensures
        c.advance_action(d).dash_action_type == spec_action_type(c.current_index as int),
{
    let idx = c.current_index as int;
    let n = c.array@.len() as int;
    if c.boundary_distance() <= d {
        if idx + 1 < n {
            vstd::arithmetic::div_mod::lemma_mod_add_multiples_vanish(idx, 2);
        } else {
            // Wraparound: the cursor is on the last segment, whose index is
            // odd since the pattern length is even, and the reported type is
            // the constant `spec_action_type(1)`, also odd.
            lemma_fundamental_div_mod(idx, 2);
            vstd::arithmetic::div_mod::lemma_mod_division_less_than_divisor(idx, 2);
            let q = idx / 2;
            let r = idx % 2;
            if r == 0 {
                lemma_fundamental_div_mod_converse_mod(n, 2, q, 1);
                assert(n == q * 2 + 1) by (nonlinear_arith)
                    requires
                        idx == 2 * q,
                        n == idx + 1,
                ;
                assert(false);
            }
            lemma_fundamental_div_mod_converse_mod(1, 2, 0, 1);
        }
    }
}

/// Advancing a well-formed, even-length pattern cursor by exactly one full
/// cycle length returns it to its starting index and offset.
pub proof fn lemma_full_cycle_round_trip(c: DashCursor)
    requires
        c.wf(),
        c.array@.len() % 2 == 0,
    ensures
        chain_state(c, c.cycle_length() as i64) == c,
{
    let cycle = c.cycle_length();
    lemma_prefix_total_increasing(c.array@, 1, c.array@.len() as int);
    lemma_prefix_total_increasing(c.array@, 0, c.current_index as int);
    lemma_prefix_total_increasing(c.array@, c.current_index as int + 1, c.array@.len() as int);
    let c2 = chain_state(c, cycle as i64);
    lemma_chain_state_offset(c, cycle as i64);
    vstd::arithmetic::div_mod::lemma_mod_add_multiples_vanish(c.current_offset as int, cycle);
    lemma_fundamental_div_mod_converse_mod(
        c.current_offset as int,
        cycle,
        0,
        c.current_offset as int,
    );
    assert(c2.current_offset == c.current_offset);
    lemma_position_index_unique(c, c.current_offset, c2.current_index, c.current_index);
}

} // verus!
