//! Terminal colors and the deterministic per-username color assignment.

use vstd::prelude::*;
use vstd::string::StringSliceAdditionalSpecFns;

verus! {

/// The colors the renderer emits.  A rendering backend maps them onto its
/// own palette.
#[derive(Clone, Copy, PartialEq, Eq, Structural, Debug)]
pub enum Color {
    /// The backend's default foreground.
    Reset,
    Black,
    Red,
    Green,
    Yellow,
    Blue,
    Magenta,
    Cyan,
    Gray,
    White,
}

/// The fixed palette usernames are mapped into.
pub open spec fn palette() -> Seq<Color> {
    seq![
        Color::Red,
        Color::Green,
        Color::Yellow,
        Color::Blue,
        Color::Magenta,
        Color::Cyan,
        Color::Gray,
    ]
}

/// Sum, over the UTF-8 bytes of a username, of each byte value modulo 7.
pub open spec fn color_sum(bs: Seq<u8>) -> int
    decreases bs.len(),
{
    if bs.len() == 0 {
        0
    } else {
        color_sum(bs.drop_last()) + bs.last() as int % 7
    }
}

/// The color a username is assigned: the byte-sum-modulo-7 palette index.
pub open spec fn spec_user_color(bs: Seq<u8>) -> Color {
    palette()[color_sum(bs) % 7]
}

proof fn lemma_color_sum_nonneg(bs: Seq<u8>)
    ensures
        color_sum(bs) >= 0,
    decreases bs.len(),
{
    if bs.len() > 0 {
        lemma_color_sum_nonneg(bs.drop_last());
    }
}

/// Deterministically chooses a color for a username: the same string gets
/// the same color on every call, in every process.
pub fn user_color(username: &str) -> (c: Color)
    ensures
        c == spec_user_color(username.spec_bytes()),
{
    let bytes: &[u8] = username.as_bytes();
    let n: usize = bytes.len();
    let mut i: usize = 0;
    let mut acc: usize = 0;
    while i < n
        invariant
            0 <= i <= n,
            n == bytes@.len(),
            bytes@ == username.spec_bytes(),
            acc == color_sum(bytes@.take(i as int)) % 7,
        decreases n - i,
    {
        let b: u8 = bytes[i];
        proof {
            assert(bytes@.take(i + 1).drop_last() =~= bytes@.take(i as int));
            assert(bytes@.take(i + 1).last() == bytes@[i as int]);
            lemma_color_sum_nonneg(bytes@.take(i as int));
            vstd::arithmetic::div_mod::lemma_add_mod_noop(
                color_sum(bytes@.take(i as int)),
                bytes@[i as int] as int % 7,
                7,
            );
            assert((bytes@[i as int] as int % 7) % 7 == bytes@[i as int] as int % 7);
        }
        acc = (acc + (b as usize) % 7) % 7;
        i = i + 1;
    }
    proof {
        assert(bytes@.take(n as int) =~= bytes@);
        lemma_color_sum_nonneg(bytes@);
    }
    let c = if acc == 0 {
        Color::Red
    } else if acc == 1 {
        Color::Green
    } else if acc == 2 {
        Color::Yellow
    } else if acc == 3 {
        Color::Blue
    } else if acc == 4 {
        Color::Magenta
    } else if acc == 5 {
        Color::Cyan
    } else {
        Color::Gray
    };
    c
}

} // verus!
