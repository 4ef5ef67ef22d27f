//! Display width of characters and strings, measured in terminal cells.

use vstd::prelude::*;
use vstd::string::StrSliceExecFns;
use unicode_width::UnicodeWidthChar;

verus! {

/// Number of terminal cells one character occupies.
pub uninterp spec fn cell_width(c: char) -> nat;

/// Display width of a string: the sum of the cell widths of its characters.
pub open spec fn str_width(s: Seq<char>) -> nat
    decreases s.len(),
{
    if s.len() == 0 {
        0
    } else {
        str_width(s.drop_last()) + cell_width(s.last())
    }
}

/// Length bound under which every width sum and label built here fits in
/// `usize` arithmetic, even on 32-bit machines.
pub open spec fn len_ok(s: Seq<char>) -> bool {
    s.len() <= 0x0FFF_FFFF
}

/// Relies on unicode_width's `UnicodeWidthChar::width`: the cell width of
/// a character per the Unicode east-asian-width tables, a function of the
/// character alone; `None` (zero cells) for control characters, exactly
/// one cell for printable ASCII, and never more than three cells (the
/// tables pack each width into two bits, and the one width-3 entry is
/// KHMER SIGN BEYYAL).
#[verifier::external_body]
fn char_cells(c: char) -> (r: usize)
    ensures
        r == cell_width(c),
        r <= 3,
        ' ' <= c && c <= '~' ==> r == 1,
{
    UnicodeWidthChar::width(c).unwrap_or(0)
}

pub proof fn lemma_str_width_concat(a: Seq<char>, b: Seq<char>)
    ensures
        str_width(a + b) == str_width(a) + str_width(b),
    decreases b.len(),
{
    if b.len() == 0 {
        assert(a + b =~= a);
    } else {
        assert((a + b).drop_last() =~= a + b.drop_last());
        assert((a + b).last() == b.last());
        lemma_str_width_concat(a, b.drop_last());
    }
}

/// Computes the display width of a string.
pub fn display_width(s: &str) -> (r: usize)
    requires
        s@.len() <= 0x4FFF_FFFF,
    ensures
        r == str_width(s@),
        r <= 3 * s@.len(),
{
    let n: usize = s.unicode_len();
    let mut i: usize = 0;
    let mut acc: usize = 0;
    while i < n
        invariant
            0 <= i <= n,
            n == s@.len(),
            s@.len() <= 0x4FFF_FFFF,
            acc == str_width(s@.take(i as int)),
            acc <= 3 * i,
        decreases n - i,
    {
        let w = char_cells(s.get_char(i));
        proof {
            assert(s@.take(i + 1).drop_last() =~= s@.take(i as int));
            assert(s@.take(i + 1).last() == s@[i as int]);
        }
        acc = acc + w;
        i = i + 1;
    }
    proof {
        assert(s@.take(n as int) =~= s@);
    }
    acc
}

/// The width of one space cell is one; obtained by measuring, so that
/// proofs may use it.
pub fn space_cell_width() -> (r: usize)
    ensures
        r == 1,
        cell_width(' ') == 1,
{
    char_cells(' ')
}

} // verus!
