//! Indentation synthesis and transfer.
//!
//! A buffer line is a sequence of bytes. Its indentation is its leading run
//! of spaces and tabs. Re-indenting a line replaces that run with a freshly
//! rendered one, except that a blank line (nothing but spaces and tabs) stays
//! empty: re-indentation never injects whitespace into it.

use vstd::prelude::*;

verus! {

/// Whether `b` is an indentation byte: a space or a tab.
pub open spec fn is_indent_byte(b: u8) -> bool {
    b == 32 || b == 9
}

/// `s` without its leading spaces and tabs.
pub open spec fn trimmed(s: Seq<u8>) -> Seq<u8>
    decreases s.len(),
{
    if s.len() > 0 && is_indent_byte(s[0]) {
        trimmed(s.drop_first())
    } else {
        s
    }
}

/// Indentation rendered `width` columns wide: spaces only under `expandtab`,
/// otherwise full tabs of width `tabstop` followed by a remainder of spaces.
pub open spec fn indent_bytes(width: nat, expandtab: bool, tabstop: nat) -> Seq<u8>
    recommends
        tabstop >= 1,
{
    if expandtab {
        Seq::new(width, |i: int| 32u8)
    } else {
        Seq::new(width / tabstop, |i: int| 9u8) + Seq::new(width % tabstop, |i: int| 32u8)
    }
}

/// The text of a line after re-indentation: a blank line stays empty; any
/// other line is the new indentation followed by the line's trimmed content.
pub open spec fn reindented(line: Seq<u8>, indent: Seq<u8>) -> Seq<u8> {
    if trimmed(line).len() == 0 {
        Seq::empty()
    } else {
        indent + trimmed(line)
    }
}

/// Re-indentation never injects leading whitespace into a line whose trimmed
/// content is empty: such a line comes out empty, whatever the indentation.
pub proof fn lemma_blank_line_stays_blank(line: Seq<u8>, indent: Seq<u8>)
    requires
        trimmed(line).len() == 0,
    ensures
        reindented(line, indent) == Seq::<u8>::empty(),
{
}

/// Renders an indentation `width` columns wide, as spaces when `expandtab`
/// is set, otherwise as full tabs plus a `tabstop`-aligned spaces remainder.
pub fn make_indent(width: usize, expandtab: bool, tabstop: usize) -> (r: Vec<u8>)
    requires
        tabstop >= 1,
    ensures
        r@ == indent_bytes(width as nat, expandtab, tabstop as nat),
{
    let mut r: Vec<u8> = Vec::new();
    if expandtab {
        let mut i: usize = 0;
        while i < width
            invariant
                i <= width,
                r@ == Seq::new(i as nat, |k: int| 32u8),
            decreases width - i,
        {
            r.push(32);
            i = i + 1;
        }
    } else {
        let tabs = width / tabstop;
        let spaces = width % tabstop;
        let mut i: usize = 0;
        while i < tabs
            invariant
                i <= tabs,
                r@ == Seq::new(i as nat, |k: int| 9u8),
            decreases tabs - i,
        {
            r.push(9);
            i = i + 1;
        }
        let mut j: usize = 0;
        while j < spaces
            invariant
                j <= spaces,
                tabs == width as nat / tabstop as nat,
                r@ == Seq::new(tabs as nat, |k: int| 9u8) + Seq::new(j as nat, |k: int| 32u8),
            decreases spaces - j,
        {
            r.push(32);
            j = j + 1;
        }
    }
    r
}

/// Rewrites the leading whitespace of `line` to `indent`: strips the leading
/// spaces and tabs, then prepends `indent` — unless the line is blank, in
/// which case the result is empty.
pub fn reindent_line(line: &Vec<u8>, indent: &Vec<u8>) -> (r: Vec<u8>)
    ensures
        r@ == reindented(line@, indent@),
{
    let mut i: usize = 0;
    proof {
        assert(line@.skip(0) =~= line@);
    }
    while i < line.len() && (line[i] == 32 || line[i] == 9)
        invariant
            i <= line.len(),
            trimmed(line@) == trimmed(line@.skip(i as int)),
        decreases line.len() - i,
    {
        proof {
            assert(line@.skip(i as int)[0] == line@[i as int]);
            assert(line@.skip(i as int).drop_first() =~= line@.skip(i as int + 1));
        }
        i = i + 1;
    }
    let ghost start: int = i as int;
    proof {
        if i < line.len() {
            assert(line@.skip(start)[0] == line@[start]);
        }
        assert(trimmed(line@) =~= line@.skip(start));
    }
    if i == line.len() {
        return Vec::new();
    }
    let mut r: Vec<u8> = Vec::new();
    let mut j: usize = 0;
    while j < indent.len()
        invariant
            j <= indent.len(),
            r@ == indent@.subrange(0, j as int),
        decreases indent.len() - j,
    {
        r.push(indent[j]);
        j = j + 1;
    }
    proof {
        assert(r@ =~= indent@);
    }
    while i < line.len()
        invariant
            0 <= start <= i <= line.len(),
            r@ == indent@ + line@.subrange(start, i as int),
        decreases line.len() - i,
    {
        r.push(line[i]);
        proof {
            assert(r@ =~= indent@ + line@.subrange(start, i as int + 1));
        }
        i = i + 1;
    }
    proof {
        assert(line@.subrange(start, line@.len() as int) =~= line@.skip(start));
        assert(r@ =~= reindented(line@, indent@));
    }
    r
}

} // verus!
