//! Where the lines of the world grid lie.

use crate::cell::CELL_SIZE;
use vstd::prelude::*;

verus! {

/// Whether a grid line lies at `k`: whether `k` is a multiple of the cell size.
pub open spec fn on_grid(k: int) -> bool {
    k % (CELL_SIZE as int) == 0
}

/// The first grid line at or after `min`: the least multiple of the cell
/// size that is not less than `min`.
pub open spec fn first_line(min: int) -> int {
    min + (-min) % (CELL_SIZE as int)
}

/// How many grid lines lie in the span from `min` to `max`, both included.
pub open spec fn line_count(min: int, max: int) -> nat {
    if first_line(min) > max {
        0
    } else {
        ((max - first_line(min)) / (CELL_SIZE as int) + 1) as nat
    }
}

/// The grid lines within a span, in ascending order.
pub open spec fn lines_within(min: int, max: int) -> Seq<i32> {
    Seq::new(line_count(min, max), |i: int| (first_line(min) + i * CELL_SIZE) as i32)
}

/// The lines of a span are the multiples of the cell size within it, each
/// once, in ascending order: none is left out.
pub proof fn lemma_lines_are_the_multiples(min: i32, max: i32)
    ensures
        forall|i: int|
            0 <= i < lines_within(min as int, max as int).len() ==> {
                let line = #[trigger] lines_within(min as int, max as int)[i];
                &&& min <= line <= max
                &&& on_grid(line as int)
                &&& i > 0 ==> line == lines_within(min as int, max as int)[i - 1] + CELL_SIZE
            },
        forall|k: i32|
            min <= k <= max && #[trigger] on_grid(k as int) ==> lines_within(
                min as int,
                max as int,
            ).contains(k),
{
    let first = first_line(min as int);
    let lines = lines_within(min as int, max as int);
    assert(min <= first < min + 16 && first % 16 == 0);
    assert forall|i: int| 0 <= i < lines.len() implies {
        let line = #[trigger] lines[i];
        &&& min <= line <= max
        &&& on_grid(line as int)
        &&& i > 0 ==> line == lines[i - 1] + CELL_SIZE
    } by {
        assert(first + i * 16 <= max);
        assert((first + i * 16) % 16 == 0);
    }
    assert forall|k: i32| min <= k <= max && #[trigger] on_grid(k as int) implies lines.contains(
        k,
    ) by {
        let i = (k - first) / 16;
        assert(k >= first);
        assert(first + i * 16 == k);
        assert(0 <= i < lines.len());
        assert(lines[i] == k);
    }
}

/// The grid lines within the span from `min` to `max`, in ascending order.
pub fn grid_lines(min: i32, max: i32) -> (lines: Vec<i32>)
    ensures
        lines@ == lines_within(min as int, max as int),
{
    let size: i64 = CELL_SIZE as i64;
    assert(size == 16);
    let shifted: i64 = min as i64 + 0x8000_0000;
    let first: i64 = (shifted + (size - 1)) / size * size - 0x8000_0000;
    assert(first == first_line(min as int));
    let mut lines: Vec<i32> = Vec::new();
    let mut line: i64 = first;
    while line <= max as i64
        invariant
            size == 16,
            first == first_line(min as int),
            min <= first,
            line == first + lines@.len() * 16,
            lines@.len() == 0 || line <= max + 16,
            forall|i: int| 0 <= i < lines@.len() ==> #[trigger] lines@[i] == first + i * 16,
        decreases max + 16 - line,
    {
        lines.push(line as i32);
        line = line + size;
    }
    assert(lines@ =~= lines_within(min as int, max as int));
    lines
}

} // verus!
