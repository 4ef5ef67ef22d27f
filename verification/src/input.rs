//! The input box: fixed-width character chunking of the in-progress
//! message, the box height, and the absolute cursor cell.

use vstd::prelude::*;
use vstd::string::StrSliceExecFns;
use vstd::arithmetic::div_mod::lemma_basic_div;
use vstd::arithmetic::div_mod::lemma_div_by_self;
use vstd::arithmetic::div_mod::lemma_div_plus_one;
use vstd::arithmetic::div_mod::lemma_div_is_ordered;
use vstd::arithmetic::div_mod::lemma_div_multiples_vanish_fancy;
use vstd::arithmetic::div_mod::lemma_fundamental_div_mod;
use vstd::arithmetic::div_mod::lemma_mod_division_less_than_divisor;
use crate::geometry::Rect;

verus! {

/// How many chunks of `w` characters a text of `len` characters splits
/// into; zero for an empty text.
pub open spec fn num_chunks(len: int, w: int) -> int
    decreases len,
{
    if len <= 0 || w <= 0 {
        0
    } else if len <= w {
        1
    } else {
        1 + num_chunks(len - w, w)
    }
}

/// Chunking is exactly the rounded-up division.
pub proof fn lemma_num_chunks_ceil(len: int, w: int)
    requires
        len >= 0,
        w >= 1,
    ensures
        num_chunks(len, w) == (len + w - 1) / w,
    decreases len,
{
    if len == 0 {
        lemma_basic_div(w - 1, w);
    } else if len <= w {
        lemma_basic_div(len - 1, w);
        lemma_div_plus_one(len - 1, w);
    } else {
        lemma_num_chunks_ceil(len - w, w);
        lemma_div_plus_one(len - w + w - 1, w);
    }
}

/// The chunk at index `j`: the characters from `j * w` on, at most `w` of
/// them, clamped to the text.
pub open spec fn chunk_at(s: Seq<char>, w: int, j: int) -> Seq<char> {
    let lo = if j * w < 0 {
        0
    } else if j * w <= s.len() {
        j * w
    } else {
        s.len() as int
    };
    let hi = if (j + 1) * w <= s.len() {
        (j + 1) * w
    } else {
        s.len() as int
    };
    if hi < lo {
        s.subrange(lo, lo)
    } else {
        s.subrange(lo, hi)
    }
}

/// Number of lines the input box shows: at least one, even when empty.
pub open spec fn spec_input_lines(len: int, w: int) -> int {
    if num_chunks(len, w) >= 1 {
        num_chunks(len, w)
    } else {
        1
    }
}

/// One extra line is reserved when the cursor sits just past a full line,
/// so it never overlaps the border.
pub open spec fn spec_extra_line(cursor: int, w: int) -> int {
    if cursor > 0 && cursor % w == 0 {
        1
    } else {
        0
    }
}

/// Full height of the input box, borders included.
pub open spec fn spec_box_height(len: int, cursor: int, w: int) -> int {
    spec_input_lines(len, w) + 2 + spec_extra_line(cursor, w)
}

/// Splits the input into chunks of exactly `text_width` characters (the
/// last chunk possibly shorter): a new chunk starts whenever the running
/// character index is a multiple of `text_width`.
pub fn wrap_input(input: &str, text_width: usize) -> (r: Vec<String>)
    requires
        text_width >= 1,
    ensures
        r@.len() == num_chunks(input@.len() as int, text_width as int),
        forall|j: int|
            0 <= j < r@.len() ==> (#[trigger] r@[j])@ == chunk_at(
                input@,
                text_width as int,
                j,
            ),
{
    let n = input.unicode_len();
    let w = text_width;
    let mut r: Vec<String> = Vec::new();
    let mut start: usize = 0;
    proof {
        assert(r@.len() * w == 0) by (nonlinear_arith)
            requires
                r@.len() == 0,
        ;
    }
    while start < n
        invariant
            text_width >= 1,
            w == text_width,
            n == input@.len(),
            start as int == if r@.len() * w <= n {
                r@.len() * w
            } else {
                n as int
            },
            num_chunks(n as int, w as int) == r@.len() + num_chunks(n - start, w as int),
            forall|j: int|
                0 <= j < r@.len() ==> (#[trigger] r@[j])@ == chunk_at(input@, w as int, j),
        decreases n - start,
    {
        let end = if n - start > w {
            start + w
        } else {
            n
        };
        let chunk = input.substring_char(start, end).to_owned();
        proof {
            let j0 = r@.len() as int;
            assert(j0 * w <= n);
            assert(start as int == j0 * w);
            assert((j0 + 1) * w == j0 * w + w) by (nonlinear_arith);
            assert(chunk@ =~= chunk_at(input@, w as int, j0));
        }
        r.push(chunk);
        start = end;
    }
    r
}

/// Executable input-box height, saturated at the largest cell coordinate.
pub fn input_box_height(input: &str, cursor: usize, text_width: usize) -> (r: u16)
    requires
        text_width >= 1,
    ensures
        r as int == if spec_box_height(input@.len() as int, cursor as int, text_width as int)
            <= u16::MAX as int {
            spec_box_height(input@.len() as int, cursor as int, text_width as int)
        } else {
            u16::MAX as int
        },
{
    let lines = wrap_input(input, text_width);
    let nl = if lines.len() >= 1 {
        lines.len()
    } else {
        1
    };
    let extra: usize = if cursor > 0 && cursor % text_width == 0 {
        1
    } else {
        0
    };
    if nl > 65532 {
        65535
    } else {
        (nl + 2 + extra) as u16
    }
}

/// The absolute cursor cell: one cell right and one cell down of the box
/// corner, `cursor` characters into the wrapped text, each coordinate
/// saturated at the largest cell.
pub fn cursor_cell(input_rect: Rect, cursor: usize, text_width: usize) -> (r: (u16, u16))
    requires
        1 <= text_width <= u16::MAX,
    ensures
        r.0 as int == if input_rect.x + 1 + (cursor as int) % (text_width as int) <= u16::MAX {
            input_rect.x + 1 + (cursor as int) % (text_width as int)
        } else {
            u16::MAX as int
        },
        r.1 as int == if input_rect.y + 1 + (cursor as int) / (text_width as int) <= u16::MAX {
            input_rect.y + 1 + (cursor as int) / (text_width as int)
        } else {
            u16::MAX as int
        },
{
    let col: usize = cursor % text_width;
    let x: usize = input_rect.x as usize + 1 + col;
    let cx: u16 = if x > 65535 {
        65535
    } else {
        x as u16
    };
    let q: usize = cursor / text_width;
    let cy: u16 = if q > 65535 {
        65535
    } else if input_rect.y as usize + 1 + q > 65535 {
        65535
    } else {
        (input_rect.y as usize + 1 + q) as u16
    };
    (cx, cy)
}

/// The wrapped line count is the rounded-up division (one line when
/// empty), and the cursor cell sits strictly inside the box borders.
pub proof fn lemma_input_cursor_in_box(len: int, cursor: int, w: int)
    requires
        w >= 1,
        0 <= cursor <= len,
    ensures
        spec_input_lines(len, w) == if len == 0 {
            1int
        } else {
            (len + w - 1) / w
        },
        1 + cursor % w <= w,
        1 + cursor / w < spec_box_height(len, cursor, w) - 1,
{
    lemma_num_chunks_ceil(len, w);
    lemma_mod_division_less_than_divisor(cursor, w);
    let lines = spec_input_lines(len, w);
    let extra = spec_extra_line(cursor, w);
    if len == 0 {
        lemma_basic_div(cursor, w);
    } else {
        let ceil = (len + w - 1) / w;
        assert(ceil >= 1) by {
            lemma_div_by_self(w);
            lemma_div_is_ordered(w, len + w - 1, w);
        }
        assert(lines == ceil);
        let q = len / w;
        let m = len % w;
        lemma_fundamental_div_mod(len, w);
        lemma_mod_division_less_than_divisor(len, w);
        if m == 0 {
            assert(ceil == q) by {
                lemma_div_multiples_vanish_fancy(q, w - 1, w);
            }
            if cursor == len {
                assert(extra == 1) by {
                    vstd::arithmetic::div_mod::lemma_mod_multiples_basic(q, w);
                }
                assert(cursor / w == q) by {
                    lemma_div_multiples_vanish_fancy(q, 0, w);
                }
            } else {
                assert(q >= 0) by {
                    vstd::arithmetic::div_mod::lemma_div_pos_is_pos(len, w);
                }
                assert(q >= 1) by (nonlinear_arith)
                    requires
                        len == w * q,
                        len >= 1,
                        w >= 1,
                        q >= 0,
                ;
                assert((len - 1) / w == q - 1) by {
                    lemma_div_multiples_vanish_fancy(q - 1, w - 1, w);
                    assert(w * q + 0 - 1 == w * (q - 1) + (w - 1)) by (nonlinear_arith);
                }
                lemma_div_is_ordered(cursor, len - 1, w);
            }
        } else {
            assert(ceil == q + 1) by {
                lemma_div_multiples_vanish_fancy(q + 1, m - 1, w);
                assert(w * q + m + w - 1 == w * (q + 1) + (m - 1)) by (nonlinear_arith);
            }
            lemma_div_is_ordered(cursor, len, w);
        }
    }
}

} // verus!
