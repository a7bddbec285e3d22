//! Moving the current line of a buffer up or down.
//!
//! A buffer is a vector of byte lines, 1-indexed as the host editor addresses
//! them. A move resolves a target line from the direction, the repeat count
//! and the closed folds, relocates the current line there by deleting it and
//! re-inserting it, re-indents it to the width the host's structural indent
//! query suggests, and places the cursor on the moved line.

use vstd::prelude::*;
use vstd::string::StringExecFns;

use crate::fold::FoldRange;
use crate::fold::first_fold_covering;
use crate::fold::fold_covers;
use crate::fold::foldclosed;
use crate::fold::foldclosedend;
use crate::fold::folds_within;
use crate::fold::lemma_first_fold_covering_from_some;
use crate::indent::indent_bytes;
use crate::indent::make_indent;
use crate::indent::reindent_line;
use crate::indent::reindented;

verus! {

/// The direction of a move.
#[derive(Clone, Copy, Debug, PartialEq, Eq, Structural)]
pub enum Direction {
    Up,
    Down,
}

/// What a move did: whether a line moved at all, whether the structural
/// indent query was unavailable (a diagnostic is then owed to the user), and
/// where the cursor stands afterwards.
#[derive(Clone, Copy, Debug, PartialEq, Eq, Structural)]
pub struct MoveResult {
    /// Whether the buffer changed. False exactly when the move was an edge
    /// no-op: the first line up, or the last line down.
    pub moved: bool,
    /// Whether the moved line kept its whitespace because the host has no
    /// structural indent support for the buffer's language.
    pub parser_missing: bool,
    /// The cursor line after the move (1-indexed).
    pub cursor_line: usize,
    /// The cursor column after the move (0-indexed).
    pub cursor_col: usize,
}

/// The contents of a buffer: each line as a sequence of bytes.
pub open spec fn buf_view(b: Seq<Vec<u8>>) -> Seq<Seq<u8>> {
    Seq::new(b.len(), |i: int| b[i]@)
}

/// The repeat count actually applied: a count of zero (unset) means one.
pub open spec fn effective_count(raw: usize) -> int {
    if raw == 0 {
        1
    } else {
        raw as int
    }
}

/// Whether a move from `line` is an edge no-op: the first line cannot move
/// up, the last line cannot move down.
pub open spec fn at_edge(dir: Direction, line: int, last: int) -> bool {
    (dir == Direction::Up && line == 1) || (dir == Direction::Down && line == last)
}

/// The target of a move of `count` lines ignoring folds: exactly `count`
/// lines away, clamped to the buffer bounds `[1, last]`.
pub open spec fn naive_target(dir: Direction, line: int, count: int, last: int) -> int {
    match dir {
        Direction::Down => if line + count > last {
            last
        } else {
            line + count
        },
        Direction::Up => if line - count < 1 {
            1
        } else {
            line - count
        },
    }
}

/// The resolved target of a move: the naive target, unless a closed fold
/// covers it, in which case the fold's far boundary — its last line when
/// moving down, its first line when moving up — so that one step jumps over
/// the whole fold.
pub open spec fn resolved_target(
    dir: Direction,
    line: int,
    count: int,
    last: int,
    folds: Seq<FoldRange>,
) -> int {
    let naive = naive_target(dir, line, count, last);
    match first_fold_covering(folds, naive) {
        Some(f) => if dir == Direction::Down {
            f.end as int
        } else {
            f.start as int
        },
        None => naive,
    }
}

/// The buffer after the line at 1-indexed position `from` is deleted and
/// re-inserted at 1-indexed position `to`: the lines in between shift by one
/// to fill the gap, and the line count is unchanged.
pub open spec fn moved_lines(buf: Seq<Seq<u8>>, from: int, to: int) -> Seq<Seq<u8>> {
    buf.remove(from - 1).insert(to - 1, buf[from - 1])
}

/// The cursor column after re-indentation shifted the line horizontally by
/// `target - initial` columns: the old column plus that signed difference,
/// clamped to a non-negative column.
pub open spec fn shifted_col(col: int, initial: int, target: int) -> int {
    if col + target - initial < 0 {
        0
    } else {
        col + target - initial
    }
}

proof fn lemma_remove_insert_is_update<A>(s: Seq<A>, i: int, v: A)
    requires
        0 <= i < s.len(),
    ensures
        s.remove(i).insert(i, v) == s.update(i, v),
{
    s.remove_ensures(i);
    s.remove(i).insert_ensures(i, v);
    assert(s.remove(i).insert(i, v) =~= s.update(i, v));
}

proof fn lemma_insert_remove<A>(s: Seq<A>, i: int, v: A)
    requires
        0 <= i <= s.len(),
    ensures
        s.insert(i, v).remove(i) == s,
{
    s.insert_ensures(i, v);
    s.insert(i, v).remove_ensures(i);
    assert(s.insert(i, v).remove(i) =~= s);
}

proof fn lemma_buf_view_remove(b: Seq<Vec<u8>>, i: int)
    requires
        0 <= i < b.len(),
    ensures
        buf_view(b.remove(i)) == buf_view(b).remove(i),
{
    b.remove_ensures(i);
    buf_view(b).remove_ensures(i);
    assert(buf_view(b.remove(i)) =~= buf_view(b).remove(i));
}

proof fn lemma_buf_view_insert(b: Seq<Vec<u8>>, i: int, v: Vec<u8>)
    requires
        0 <= i <= b.len(),
    ensures
        buf_view(b.insert(i, v)) == buf_view(b).insert(i, v@),
{
    b.insert_ensures(i, v);
    buf_view(b).insert_ensures(i, v@);
    assert(buf_view(b.insert(i, v)) =~= buf_view(b).insert(i, v@));
}

/// Deletes the line at 1-indexed position `from` and re-inserts it at
/// 1-indexed position `to`; the lines in between shift by one to fill the
/// gap.
pub fn relocate(buffer: &mut Vec<Vec<u8>>, from: usize, to: usize)
    requires
        1 <= from <= old(buffer).len(),
        1 <= to <= old(buffer).len(),
    ensures
        final(buffer)@.len() == old(buffer)@.len(),
        buf_view(final(buffer)@) == moved_lines(buf_view(old(buffer)@), from as int, to as int),
{
    let text = buffer.remove(from - 1);
    buffer.insert(to - 1, text);
    proof {
        lemma_buf_view_remove(old(buffer)@, from - 1);
        lemma_buf_view_insert(old(buffer)@.remove(from - 1), to - 1, text);
    }
}

/// Resolves where a move of `count` lines (zero meaning one) from `line`
/// lands: the naive clamped target, or the far boundary of the closed fold
/// covering it.
pub fn resolve_target(
    dir: Direction,
    line: usize,
    count: usize,
    last: usize,
    folds: &Vec<FoldRange>,
) -> (t: usize)
    requires
        1 <= line <= last,
        dir == Direction::Up ==> 2 <= line,
        dir == Direction::Down ==> line < last,
        folds_within(folds@, last as int),
    ensures
        t as int == resolved_target(dir, line as int, effective_count(count), last as int, folds@),
        1 <= t <= last,
        dir == Direction::Down ==> line < t,
        dir == Direction::Up ==> t < line,
{
    let c = if count == 0 {
        1
    } else {
        count
    };
    let naive = match dir {
        Direction::Down => if c > last - line {
            last
        } else {
            line + c
        },
        Direction::Up => if c >= line {
            1
        } else {
            line - c
        },
    };
    let fold_bound = match dir {
        Direction::Down => foldclosedend(folds, naive),
        Direction::Up => foldclosed(folds, naive),
    };
    proof {
        if first_fold_covering(folds@, naive as int) is Some {
            lemma_first_fold_covering_from_some(folds@, naive as int, 0);
            let f = first_fold_covering(folds@, naive as int)->Some_0;
            let j = choose|j: int| 0 <= j < folds@.len() && folds@[j] == f;
            assert(1 <= folds@[j].start <= folds@[j].end <= last);
            assert(fold_covers(f, naive as int));
        }
    }
    match fold_bound {
        Some(b) => b,
        None => naive,
    }
}

/// The new cursor column after the moved line shifted horizontally from an
/// indent of `initial_indent` columns to one of `target_indent` columns: the
/// old column plus the signed difference, clamped to a non-negative column.
pub fn cursor_after(col: usize, initial_indent: isize, target_indent: isize) -> (r: usize)
    requires
        -1 <= initial_indent,
        0 <= target_indent,
        col + target_indent - initial_indent <= usize::MAX,
    ensures
        r as int == shifted_col(col as int, initial_indent as int, target_indent as int),
{
    let diff = (target_indent as i128) - (initial_indent as i128);
    if diff >= 0 {
        col + (diff as usize)
    } else {
        let back = (-diff) as usize;
        if back > col {
            0
        } else {
            col - back
        }
    }
}

/// Moves the cursor line of `buffer` one fold-aware step of `count` lines
/// (zero meaning one) in direction `dir`, re-indents it to `target_indent`
/// columns, and reports where the cursor lands.
///
/// Moving the first line up or the last line down is a silent no-op. A
/// `target_indent` of `-1` means the host has no structural indent support:
/// the line still moves, its whitespace stays untouched, and the result owes
/// the user a diagnostic. `initial_indent` is the host's indent suggestion
/// for the line before the move; the cursor column follows the horizontal
/// shift between the two suggestions.
pub fn move_line(
    dir: Direction,
    buffer: &mut Vec<Vec<u8>>,
    cursor_line: usize,
    cursor_col: usize,
    count: usize,
    folds: &Vec<FoldRange>,
    initial_indent: isize,
    target_indent: isize,
    expandtab: bool,
    tabstop: usize,
) -> (r: MoveResult)
    requires
        1 <= cursor_line <= old(buffer).len(),
        folds_within(folds@, old(buffer).len() as int),
        -1 <= initial_indent,
        -1 <= target_indent,
        1 <= tabstop,
        target_indent >= 0 ==> cursor_col as int + target_indent as int - initial_indent as int
            <= usize::MAX as int,
    ensures
        final(buffer)@.len() == old(buffer)@.len(),
        r.moved == !at_edge(dir, cursor_line as int, old(buffer)@.len() as int),
        !r.moved ==> buf_view(final(buffer)@) == buf_view(old(buffer)@) && r == (MoveResult {
            moved: false,
            parser_missing: false,
            cursor_line,
            cursor_col,
        }),
        r.moved ==> r.cursor_line as int == resolved_target(
            dir,
            cursor_line as int,
            effective_count(count),
            old(buffer)@.len() as int,
            folds@,
        ),
        r.moved ==> r.parser_missing == (target_indent == -1),
        r.moved && target_indent == -1 ==> buf_view(final(buffer)@) == moved_lines(
            buf_view(old(buffer)@),
            cursor_line as int,
            r.cursor_line as int,
        ) && r.cursor_col == cursor_col,
        r.moved && target_indent >= 0 ==> buf_view(final(buffer)@) == moved_lines(
            buf_view(old(buffer)@),
            cursor_line as int,
            r.cursor_line as int,
        ).update(
            r.cursor_line as int - 1,
            reindented(
                buf_view(old(buffer)@)[cursor_line as int - 1],
                indent_bytes(target_indent as nat, expandtab, tabstop as nat),
            ),
        ) && r.cursor_col as int == shifted_col(
            cursor_col as int,
            initial_indent as int,
            target_indent as int,
        ),
{
    let ghost bv0: Seq<Seq<u8>> = buf_view(buffer@);
    let last = buffer.len();
    if (dir == Direction::Up && cursor_line == 1) || (dir == Direction::Down && cursor_line
        == last) {
        return MoveResult { moved: false, parser_missing: false, cursor_line, cursor_col };
    }
    let target = resolve_target(dir, cursor_line, count, last, folds);
    relocate(buffer, cursor_line, target);
    if target_indent == -1 {
        return MoveResult { moved: true, parser_missing: true, cursor_line: target, cursor_col };
    }
    let ghost m1: Seq<Vec<u8>> = buffer@;
    let indent = make_indent(target_indent as usize, expandtab, tabstop);
    let old_line = buffer.remove(target - 1);
    let new_line = reindent_line(&old_line, &indent);
    let ghost nl: Vec<u8> = new_line;
    buffer.insert(target - 1, new_line);
    proof {
        lemma_buf_view_remove(m1, target - 1);
        lemma_buf_view_insert(m1.remove(target - 1), target - 1, nl);
        lemma_remove_insert_is_update(buf_view(m1), target - 1, nl@);
        bv0.remove(cursor_line - 1).insert_ensures(target - 1, bv0[cursor_line - 1]);
        assert(buf_view(m1)[target - 1] == bv0[cursor_line - 1]);
    }
    let col = cursor_after(cursor_col, initial_indent, target_indent);
    MoveResult { moved: true, parser_missing: false, cursor_line: target, cursor_col: col }
}

/// With no fold present, a move of `count` lines (one or more) lands exactly
/// `count` lines away, clamped to the buffer bounds `[1, last]`.
pub proof fn lemma_no_fold_exact_target(dir: Direction, line: int, count: int, last: int)
    ensures
        dir == Direction::Down ==> resolved_target(dir, line, count, last, Seq::empty())
            == if line + count <= last {
            line + count
        } else {
            last
        },
        dir == Direction::Up ==> resolved_target(dir, line, count, last, Seq::empty())
            == if line - count >= 1 {
            line - count
        } else {
            1
        },
{
}

/// The moved line lands exactly at the target position, and the move never
/// changes the number of lines.
pub proof fn lemma_moved_line_lands(buf: Seq<Seq<u8>>, from: int, to: int)
    requires
        1 <= from <= buf.len(),
        1 <= to <= buf.len(),
    ensures
        moved_lines(buf, from, to).len() == buf.len(),
        moved_lines(buf, from, to)[to - 1] == buf[from - 1],
{
    buf.remove_ensures(from - 1);
    buf.remove(from - 1).insert_ensures(to - 1, buf[from - 1]);
}

/// When a closed fold covers the naive arithmetic target, the move lands on
/// the fold's far boundary — its last line moving down, its first line moving
/// up — rather than on the naive target.
pub proof fn lemma_fold_far_boundary(
    dir: Direction,
    line: int,
    count: int,
    last: int,
    folds: Seq<FoldRange>,
)
    requires
        first_fold_covering(folds, naive_target(dir, line, count, last)) is Some,
    ensures
        ({
            let f = first_fold_covering(folds, naive_target(dir, line, count, last))->Some_0;
            resolved_target(dir, line, count, last, folds) == if dir == Direction::Down {
                f.end as int
            } else {
                f.start as int
            }
        }),
{
}

/// Moving an interior line down one step and then up one step, with no folds
/// present and no re-indentation, restores the original buffer exactly.
pub proof fn lemma_down_up_round_trip(buf: Seq<Seq<u8>>, line: int)
    requires
        1 <= line < buf.len(),
    ensures
        resolved_target(Direction::Down, line, 1, buf.len() as int, Seq::empty()) == line + 1,
        resolved_target(Direction::Up, line + 1, 1, buf.len() as int, Seq::empty()) == line,
        moved_lines(moved_lines(buf, line, line + 1), line + 1, line) == buf,
{
    let m1 = moved_lines(buf, line, line + 1);
    let s = buf.remove(line - 1);
    buf.remove_ensures(line - 1);
    s.insert_ensures(line, buf[line - 1]);
    assert(m1[line] == buf[line - 1]);
    lemma_insert_remove(s, line, buf[line - 1]);
    assert(moved_lines(m1, line + 1, line) == s.insert(line - 1, buf[line - 1]));
    lemma_remove_insert_is_update(buf, line - 1, buf[line - 1]);
    assert(buf.update(line - 1, buf[line - 1]) =~= buf);
}

/// The diagnostic owed when the host has no structural indent support for
/// the buffer's language; it names the buffer's file type.
pub fn parser_missing_message(filetype: &str) -> (r: String)
    ensures
        r@ == "treesitter parser for "@ + filetype@ + " not installed"@,
{
    let mut msg = "treesitter parser for ".to_owned();
    msg.append(filetype);
    msg.append(" not installed");
    msg
}

} // verus!
