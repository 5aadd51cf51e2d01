//! Screen-column arithmetic: tab stops and East Asian wide characters.

use unicode_width::UnicodeWidthChar;
use vstd::prelude::*;

verus! {

/// Distance between tab stops used by the editor.
pub const TAB_SIZE: usize = 8;

/// The column width that `unicode_width` assigns to a character
/// (`None` for control characters).
pub uninterp spec fn unicode_width_of(c: char) -> Option<usize>;

/// Calls `unicode_width::UnicodeWidthChar::width`. Claims that the result is
/// the named width of `c`; that exactly the control characters below U+0020
/// and in U+007F..U+009F have no width; that the printable ASCII range is
/// one column wide; and that no width exceeds 3 (the largest entry in the
/// crate's tables).
#[verifier::external_body]
fn unicode_char_width(c: char) -> (r: Option<usize>)
    ensures
        r == unicode_width_of(c),
        r is None <==> ((c as u32) < 0x20 || (0x7F <= (c as u32) && (c as u32) < 0xA0)),
        (0x20 <= (c as u32) && (c as u32) < 0x7F) ==> r == Some(1usize),
        r matches Some(w) ==> w <= 3,
{
    UnicodeWidthChar::width(c)
}

/// Width of `c` when it starts at display column `at_col`: a tab reaches the
/// next tab stop, a control character counts as one column.
pub open spec fn spec_char_width(c: char, at_col: int, tab_size: int) -> int {
    if c == '\t' {
        tab_size - at_col % tab_size
    } else {
        match unicode_width_of(c) {
            Some(w) => w as int,
            None => 1,
        }
    }
}

/// Display column reached after laying out all of `s` from column 0.
pub open spec fn spec_row_width(s: Seq<char>, tab_size: int) -> int
    decreases s.len(),
{
    if s.len() == 0 {
        0
    } else {
        let before = spec_row_width(s.drop_last(), tab_size);
        before + spec_char_width(s.last(), before, tab_size)
    }
}

/// Number of characters of `chars` that lie before index `upto`.
pub open spec fn prefix_len(len: int, upto: int) -> int {
    if upto < len {
        upto
    } else {
        len
    }
}

/// Display column of the character at index `upto` of `chars`.
pub open spec fn spec_display_width(chars: Seq<char>, upto: int, tab_size: int) -> int {
    spec_row_width(chars.take(prefix_len(chars.len() as int, upto)), tab_size)
}

/// Width of the character `c` when it starts at display column `at_col`
/// (tabs need to know their current column to know how far they extend).
pub fn char_display_width(c: char, at_col: usize, tab_size: usize) -> (r: usize)
    requires
        tab_size > 0,
    ensures
        r == spec_char_width(c, at_col as int, tab_size as int),
        r <= tab_size + 3,
        (0x20 <= (c as u32) && (c as u32) < 0x7F) ==> r == 1,
{
    if c == '\t' {
        tab_size - (at_col % tab_size)
    } else {
        match unicode_char_width(c) {
            Some(w) => w,
            None => 1,
        }
    }
}

/// The on-screen column of the character at index `upto` of `chars`,
/// honoring tab stops (rounded up to the next multiple of `tab_size`) and
/// double-width East Asian characters.
pub fn display_width(chars: &[char], upto: usize, tab_size: usize) -> (r: usize)
    requires
        tab_size > 0,
        prefix_len(chars@.len() as int, upto as int) * (tab_size + 3) <= usize::MAX,
    ensures
        r == spec_display_width(chars@, upto as int, tab_size as int),
{
    let n: usize = if upto < chars.len() { upto } else { chars.len() };
    let ghost step: int = tab_size + 3;
    let mut col: usize = 0;
    let mut i: usize = 0;
    while i < n
        invariant
            n == prefix_len(chars@.len() as int, upto as int),
            n <= chars@.len(),
            i <= n,
            tab_size > 0,
            step == tab_size + 3,
            n * step <= usize::MAX,
            col == spec_row_width(chars@.take(i as int), tab_size as int),
            col <= i * step,
        decreases n - i,
    {
        let c = chars[i];
        let w = char_display_width(c, col, tab_size);
        proof {
            assert(chars@.take(i + 1).drop_last() =~= chars@.take(i as int));
            assert((i + 1) * step == i * step + step) by (nonlinear_arith);
            assert((i + 1) * step <= n * step) by (nonlinear_arith)
                requires
                    i + 1 <= n,
                    step >= 0;
        }
        col = col + w;
        i = i + 1;
    }
    col
}

/// Laying out characters never moves back to an earlier column.
pub proof fn lemma_row_width_nonneg(s: Seq<char>, tab_size: int)
    requires
        tab_size > 0,
    ensures
        spec_row_width(s, tab_size) >= 0,
    decreases s.len(),
{
    if s.len() > 0 {
        lemma_row_width_nonneg(s.drop_last(), tab_size);
        let before = spec_row_width(s.drop_last(), tab_size);
        if s.last() == '\t' {
            assert(before % tab_size < tab_size);
        }
    }
}

/// A tab always ends on a tab stop: the column after it is the next
/// multiple of the tab size.
pub proof fn lemma_tab_reaches_stop(s: Seq<char>, tab_size: int)
    requires
        tab_size > 0,
    ensures
        spec_row_width(s.push('\t'), tab_size) % tab_size == 0,
        spec_row_width(s, tab_size) < spec_row_width(s.push('\t'), tab_size) <= spec_row_width(s, tab_size)
            + tab_size,
{
    let t = s.push('\t');
    assert(t.drop_last() =~= s);
    let before = spec_row_width(s, tab_size);
    lemma_row_width_nonneg(s, tab_size);
    let q = before / tab_size;
    let r = before % tab_size;
    vstd::arithmetic::div_mod::lemma_fundamental_div_mod(before, tab_size);
    assert(before + (tab_size - r) == (q + 1) * tab_size) by (nonlinear_arith)
        requires
            before == tab_size * q + r,
    ;
    vstd::arithmetic::div_mod::lemma_mod_multiples_basic(q + 1, tab_size);
}

} // verus!
