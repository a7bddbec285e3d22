//! A model of the editor's closed folds.
//!
//! The host editor reports, for any line, the first and the last line of the
//! closed fold covering it, or that no closed fold covers it. Here the closed
//! folds are an explicit table of line ranges, and the same queries are
//! functions over that table.

use vstd::prelude::*;

verus! {

/// A closed fold: a contiguous, inclusive range of 1-indexed buffer lines
/// that the editor displays as a single row and that a move skips over as a
/// unit.
#[derive(Clone, Copy, Debug, PartialEq, Eq, Structural)]
pub struct FoldRange {
    /// First line of the fold (1-indexed, inclusive).
    pub start: usize,
    /// Last line of the fold (1-indexed, inclusive).
    pub end: usize,
}

/// Whether the fold `f` covers the 1-indexed line `line`.
pub open spec fn fold_covers(f: FoldRange, line: int) -> bool {
    f.start <= line <= f.end
}

/// The first fold among `folds[i..]` that covers `line`, if any.
pub open spec fn first_fold_covering_from(
    folds: Seq<FoldRange>,
    line: int,
    i: int,
) -> Option<FoldRange>
    decreases folds.len() - i,
{
    if i < 0 || i >= folds.len() {
        None
    } else if fold_covers(folds[i], line) {
        Some(folds[i])
    } else {
        first_fold_covering_from(folds, line, i + 1)
    }
}

/// The first fold in `folds` that covers `line`, if any.
pub open spec fn first_fold_covering(folds: Seq<FoldRange>, line: int) -> Option<FoldRange> {
    first_fold_covering_from(folds, line, 0)
}

/// Every fold in `folds` is a well-formed interval within lines `1..=last`.
pub open spec fn folds_within(folds: Seq<FoldRange>, last: int) -> bool {
    forall|j: int|
        0 <= j < folds.len() ==> 1 <= (#[trigger] folds[j]).start <= folds[j].end <= last
}

/// A fold returned by `first_fold_covering_from` covers the queried line and
/// is an element of the table.
pub proof fn lemma_first_fold_covering_from_some(folds: Seq<FoldRange>, line: int, i: int)
    requires
        first_fold_covering_from(folds, line, i) is Some,
    ensures
        fold_covers(first_fold_covering_from(folds, line, i)->Some_0, line),
        exists|j: int|
            0 <= j < folds.len() && folds[j] == first_fold_covering_from(folds, line, i)->Some_0,
    decreases folds.len() - i,
{
    assert(0 <= i < folds.len());
    if !fold_covers(folds[i], line) {
        lemma_first_fold_covering_from_some(folds, line, i + 1);
    }
}

/// The first fold in `folds` covering `line`, scanning the table in order.
fn first_covering(folds: &Vec<FoldRange>, line: usize) -> (r: Option<FoldRange>)
    ensures
        r == first_fold_covering(folds@, line as int),
{
    let mut i: usize = 0;
    while i < folds.len()
        invariant
            i <= folds.len(),
            first_fold_covering(folds@, line as int) == first_fold_covering_from(
                folds@,
                line as int,
                i as int,
            ),
        decreases folds.len() - i,
    {
        let f = folds[i];
        if f.start <= line && line <= f.end {
            return Some(f);
        }
        i = i + 1;
    }
    None
}

/// The first line of the closed fold covering `line`, or `None` when no
/// closed fold covers it.
pub fn foldclosed(folds: &Vec<FoldRange>, line: usize) -> (r: Option<usize>)
    ensures
        r == match first_fold_covering(folds@, line as int) {
            Some(f) => Some(f.start),
            None => None::<usize>,
        },
{
    match first_covering(folds, line) {
        Some(f) => Some(f.start),
        None => None,
    }
}

/// The last line of the closed fold covering `line`, or `None` when no
/// closed fold covers it.
pub fn foldclosedend(folds: &Vec<FoldRange>, line: usize) -> (r: Option<usize>)
    ensures
        r == match first_fold_covering(folds@, line as int) {
            Some(f) => Some(f.end),
            None => None::<usize>,
        },
{
    match first_covering(folds, line) {
        Some(f) => Some(f.end),
        None => None,
    }
}

/// The fold boundary a relative move must respect: the far end of the closed
/// fold covering `line + offset`, in the direction of the move.
pub open spec fn calc_fold_spec(folds: Seq<FoldRange>, line: int, offset: int) -> Option<usize> {
    match first_fold_covering(folds, line + offset) {
        Some(f) => if offset > 0 {
            Some(f.end)
        } else {
            Some(f.start)
        },
        None => None,
    }
}

/// For a move of `offset` lines, the boundary of the closed fold at the
/// arrival line `line + offset`: its last line when moving down, its first
/// line when moving up, or `None` when no closed fold covers it.
pub fn calc_fold(folds: &Vec<FoldRange>, line: usize, offset: isize) -> (r: Option<usize>)
    requires
        0 <= line + offset <= usize::MAX,
    ensures
        r == calc_fold_spec(folds@, line as int, offset as int),
{
    let l = ((line as i128) + (offset as i128)) as usize;
    if offset > 0 {
        foldclosedend(folds, l)
    } else {
        foldclosed(folds, l)
    }
}

} // verus!
