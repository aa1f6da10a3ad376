//! Highlight-run coalescing for the result list: the match engine reports
//! the character positions of a row that matched the pattern, and the
//! renderer wants maximal stretches of equally-styled characters instead
//! of one span per character.
//!
//! The positions arrive as the engine produced them — unordered, possibly
//! with duplicates — so a run's style is defined by membership alone.
use vstd::prelude::*;

verus! {

/// Whether character position `i` is one of the reported match positions.
pub open spec fn is_highlighted(indices: Seq<u32>, i: int) -> bool {
    exists|k: int| 0 <= k < indices.len() && indices[k] == i
}

/// Whether position `i` of the row is among `indices`.
fn index_matched(indices: &Vec<u32>, i: u32) -> (r: bool)
    ensures
        r == is_highlighted(indices@, i as int),
{
    let n = indices.len();
    let mut k: usize = 0;
    while k < n
        invariant
            k <= n,
            n == indices@.len(),
            forall|j: int| 0 <= j < k ==> indices@[j] != i,
        decreases n - k,
    {
        if indices[k] == i {
            return true;
        }
        k += 1;
    }
    false
}

/// Splits the character positions `0..text_len` of one row into maximal
/// runs `(start, end, highlighted)`: the runs tile the row in order, each
/// is nonempty, neighbouring runs differ in style, and a position is in a
/// highlighted run exactly when the engine reported it as a match
/// position.
pub fn highlight_runs(text_len: u32, indices: &Vec<u32>) -> (runs: Vec<(u32, u32, bool)>)
    ensures
        (runs@.len() == 0) == (text_len == 0),
        runs@.len() > 0 ==> runs@[0].0 == 0 && runs@.last().1 == text_len,
        forall|k: int| 0 <= k < runs@.len() ==> (#[trigger] runs@[k]).0 < runs@[k].1,
        forall|k: int| 0 <= k < runs@.len() - 1 ==> (#[trigger] runs@[k]).1 == runs@[k + 1].0,
        forall|k: int| 0 <= k < runs@.len() - 1 ==> (#[trigger] runs@[k]).2 != runs@[k + 1].2,
        forall|k: int, i: int|
            0 <= k < runs@.len() && runs@[k].0 <= i < runs@[k].1 ==> (#[trigger] is_highlighted(
                indices@,
                i,
            ) == (#[trigger] runs@[k]).2),
{
    let mut runs: Vec<(u32, u32, bool)> = Vec::new();
    let mut i: u32 = 0;
    while i < text_len
        invariant
            i <= text_len,
            (runs@.len() == 0) == (i == 0),
            runs@.len() > 0 ==> runs@[0].0 == 0 && runs@.last().1 == i,
            forall|k: int| 0 <= k < runs@.len() ==> (#[trigger] runs@[k]).0 < runs@[k].1,
            forall|k: int| 0 <= k < runs@.len() - 1 ==> (#[trigger] runs@[k]).1 == runs@[k + 1].0,
            forall|k: int| 0 <= k < runs@.len() - 1 ==> (#[trigger] runs@[k]).2 != runs@[k + 1].2,
            forall|k: int, j: int|
                0 <= k < runs@.len() && runs@[k].0 <= j < runs@[k].1 ==> (#[trigger] is_highlighted(
                    indices@,
                    j,
                ) == (#[trigger] runs@[k]).2),
        decreases text_len - i,
    {
        let hl = index_matched(indices, i);
        let extend = if runs.len() == 0 {
            false
        } else {
            let last = &runs[runs.len() - 1];
            last.2 == hl
        };
        if extend {
            let ghost runs0 = runs@;
            let at = runs.len() - 1;
            let last = runs[at];
            runs.set(at, (last.0, i + 1, last.2));
            proof {
                assert(runs@.len() == runs0.len());
                assert(forall|k: int| 0 <= k < runs@.len() - 1 ==> runs@[k] == runs0[k]);
            }
        } else {
            runs.push((i, i + 1, hl));
        }
        i += 1;
    }
    runs
}

} // verus!
