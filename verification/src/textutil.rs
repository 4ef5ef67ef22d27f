//! Small text helpers: decimal formatting, character repetition, and the
//! first-name prefix of a display name.

use vstd::prelude::*;
use vstd::string::StrSliceExecFns;
use vstd::string::StringExecFns;

verus! {

/// The digit character for a value below ten.
pub open spec fn spec_digit(d: int) -> char {
    if d == 0 {
        '0'
    } else if d == 1 {
        '1'
    } else if d == 2 {
        '2'
    } else if d == 3 {
        '3'
    } else if d == 4 {
        '4'
    } else if d == 5 {
        '5'
    } else if d == 6 {
        '6'
    } else if d == 7 {
        '7'
    } else if d == 8 {
        '8'
    } else {
        '9'
    }
}

/// The usual decimal rendering of a non-negative integer, most significant
/// digit first, with no leading zeros (except for zero itself).
pub open spec fn spec_dec(n: int) -> Seq<char>
    decreases n,
{
    if n < 10 {
        seq![spec_digit(n)]
    } else {
        spec_dec(n / 10) + seq![spec_digit(n % 10)]
    }
}

fn digit_str(d: usize) -> (r: &'static str)
    requires
        d < 10,
    ensures
        r@ =~= seq![spec_digit(d as int)],
{
    proof {
        reveal_strlit("0");
        reveal_strlit("1");
        reveal_strlit("2");
        reveal_strlit("3");
        reveal_strlit("4");
        reveal_strlit("5");
        reveal_strlit("6");
        reveal_strlit("7");
        reveal_strlit("8");
        reveal_strlit("9");
    }
    if d == 0 {
        "0"
    } else if d == 1 {
        "1"
    } else if d == 2 {
        "2"
    } else if d == 3 {
        "3"
    } else if d == 4 {
        "4"
    } else if d == 5 {
        "5"
    } else if d == 6 {
        "6"
    } else if d == 7 {
        "7"
    } else if d == 8 {
        "8"
    } else {
        "9"
    }
}

/// Renders a non-negative integer in decimal.
pub fn dec_string(n: usize) -> (r: String)
    ensures
        r@ == spec_dec(n as int),
    decreases n,
{
    if n < 10 {
        let r = digit_str(n).to_owned();
        proof {
            assert(r@ =~= spec_dec(n as int));
        }
        r
    } else {
        let mut r = dec_string(n / 10);
        r.append(digit_str(n % 10));
        proof {
            assert(r@ =~= spec_dec(n as int));
        }
        r
    }
}

/// `k` copies of one character.
pub open spec fn repeated(c: char, k: int) -> Seq<char> {
    Seq::new(k as nat, |i: int| c)
}

/// Builds a string of `k` copies of the single character in `unit`.
pub fn repeat_str(unit: &str, k: usize) -> (r: String)
    requires
        unit@.len() == 1,
    ensures
        r@ == repeated(unit@[0], k as int),
{
    let mut r = String::new();
    let mut i: usize = 0;
    while i < k
        invariant
            0 <= i <= k,
            unit@.len() == 1,
            r@ =~= repeated(unit@[0], i as int),
        decreases k - i,
    {
        r.append(unit);
        proof {
            assert(r@ =~= repeated(unit@[0], i + 1));
        }
        i = i + 1;
    }
    r
}

/// Index of the first space in a string, or its length if there is none.
pub open spec fn first_space_idx(s: Seq<char>) -> int
    decreases s.len(),
{
    if s.len() == 0 {
        0
    } else if s[0] == ' ' {
        0
    } else {
        1 + first_space_idx(s.drop_first())
    }
}

pub proof fn lemma_first_space_idx(s: Seq<char>)
    ensures
        0 <= first_space_idx(s) <= s.len(),
        forall|j: int| 0 <= j < first_space_idx(s) ==> s[j] != ' ',
        first_space_idx(s) < s.len() ==> s[first_space_idx(s)] == ' ',
    decreases s.len(),
{
    if s.len() > 0 && s[0] != ' ' {
        lemma_first_space_idx(s.drop_first());
        assert forall|j: int| 0 <= j < first_space_idx(s) implies s[j] != ' ' by {
            if j > 0 {
                assert(s.drop_first()[j - 1] != ' ');
            }
        }
    }
}

pub proof fn lemma_first_name_len(s: Seq<char>)
    ensures
        spec_first_name(s).len() <= s.len(),
{
    lemma_first_space_idx(s);
}

/// The part of a display name before the first space: the first name, or
/// the whole string when it holds no space.
pub open spec fn spec_first_name(s: Seq<char>) -> Seq<char> {
    s.take(first_space_idx(s))
}

/// The name a message sender is shown under: the first name when
/// `first_name_only` is set, otherwise the name unchanged.
pub fn displayed_name(name: &str, first_name_only: bool) -> (r: &str)
    ensures
        first_name_only ==> r@ == spec_first_name(name@),
        !first_name_only ==> r@ == name@,
{
    if first_name_only {
        let n: usize = name.unicode_len();
        let mut i: usize = 0;
        let mut found: bool = false;
        while i < n && !found
            invariant
                0 <= i <= n,
                n == name@.len(),
                forall|j: int| 0 <= j < i ==> name@[j] != ' ',
                found ==> i < n && name@[i as int] == ' ',
            decreases n - i + (if found { 0int } else { 1int }),
        {
            let c = name.get_char(i);
            if c == ' ' {
                found = true;
            } else {
                i = i + 1;
            }
        }
        proof {
            lemma_first_space_idx(name@);
            if found {
                assert(first_space_idx(name@) == i as int);
            } else {
                assert(first_space_idx(name@) == n as int);
            }
        }
        name.substring_char(0, i)
    } else {
        name
    }
}

} // verus!
