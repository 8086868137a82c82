//! The dash pattern: a starting phase offset and a non-empty list of strictly
//! positive segment lengths that repeat cyclically.

use vstd::prelude::*;

verus! {

/// The ways this kernel can fail.
#[derive(Clone, Copy, Debug, PartialEq, Eq, Structural)]
pub enum DashError {
    /// The pattern length list is empty, holds a non-positive element, or its
    /// total does not fit in `i64`.
    InvalidPattern,
    /// The path dasher was handed a curved segment event; callers must
    /// flatten curves to straight lines first.
    UnsupportedSegmentKind,
}

/// Sum of the first `n` elements of `arr` (a prefix sum, as a mathematical
/// integer).
pub open spec fn prefix_total(arr: Seq<i64>, n: int) -> int
    decreases n,
{
    if n <= 0 {
        0
    } else {
        prefix_total(arr, n - 1) + arr[n - 1]
    }
}

/// A pattern length list is valid when it is non-empty and every element is
/// strictly positive.
pub open spec fn valid_lengths(arr: Seq<i64>) -> bool {
    &&& arr.len() > 0
    &&& forall|i: int| 0 <= i < arr.len() ==> arr[i] > 0
}

/// Prefix sums of a list of positive elements grow strictly with the prefix
/// length.
pub proof fn lemma_prefix_total_increasing(arr: Seq<i64>, n1: int, n2: int)
    requires
        0 <= n1 <= n2 <= arr.len(),
        forall|i: int| 0 <= i < arr.len() ==> arr[i] > 0,
    ensures
        prefix_total(arr, n1) <= prefix_total(arr, n2),
        n1 < n2 ==> prefix_total(arr, n1) < prefix_total(arr, n2),
    decreases n2 - n1,
{
    if n1 < n2 {
        lemma_prefix_total_increasing(arr, n1, n2 - 1);
    }
}

/// Immutable dash configuration: the starting phase offset (in length units;
/// may be negative or exceed the cycle length) and the cyclic list of
/// segment lengths.
#[derive(Clone, Debug, PartialEq)]
pub struct DashOptions {
    pub initial_offset: i64,
    pub array: Vec<i64>,
}

impl DashOptions {
    /// The pattern is well formed: valid lengths whose total (the cycle
    /// length) fits in `i64`.
    pub open spec fn wf(self) -> bool {
        &&& valid_lengths(self.array@)
        &&& prefix_total(self.array@, self.array@.len() as int) <= i64::MAX
    }

    /// Validating constructor. Succeeds exactly when the length list is
    /// non-empty, every element is strictly positive, and the total fits in
    /// `i64`; every rejected input yields `InvalidPattern`.
    pub fn new(initial_offset: i64, array: Vec<i64>) -> (r: Result<DashOptions, DashError>)
        ensures
            r is Ok <==> (valid_lengths(array@) && prefix_total(
                array@,
                array@.len() as int,
            ) <= i64::MAX),
            r matches Ok(options) ==> {
                &&& options.wf()
                &&& options.initial_offset == initial_offset
                &&& options.array@ == array@
            },
            r matches Err(e) ==> e == DashError::InvalidPattern,
    {
        if array.len() == 0 {
            return Err(DashError::InvalidPattern);
        }
        let mut total: i64 = 0;
        let mut i: usize = 0;
        while i < array.len()
            invariant
                0 <= i <= array@.len(),
                total == prefix_total(array@, i as int),
                0 <= total,
                forall|j: int| 0 <= j < i ==> array@[j] > 0,
            decreases array@.len() - i,
        {
            let x = array[i];
            if x <= 0 {
                return Err(DashError::InvalidPattern);
            }
            if x > i64::MAX - total {
                proof {
                    if valid_lengths(array@) {
                        lemma_prefix_total_increasing(array@, i + 1, array@.len() as int);
                    }
                }
                return Err(DashError::InvalidPattern);
            }
            total = total + x;
            i = i + 1;
        }
        Ok(DashOptions { initial_offset, array })
    }
}

} // verus!
