//! Channel-list labels: the unread suffix, and width-aware truncation that
//! never splits a multi-byte character.

use vstd::prelude::*;
use vstd::string::StrSliceExecFns;
use vstd::string::StringExecFns;
use crate::textutil::spec_dec;
use crate::textutil::dec_string;
use crate::width::str_width;
use crate::width::len_ok;
use crate::width::display_width;
use crate::geometry::Rect;

verus! {

/// Bytes a character takes in UTF-8.
pub open spec fn utf8_len(c: char) -> int {
    if (c as u32) < 0x80 {
        1
    } else if (c as u32) < 0x800 {
        2
    } else if (c as u32) < 0x10000 {
        3
    } else {
        4
    }
}

fn char_utf8_len(c: char) -> (r: usize)
    ensures
        r == utf8_len(c),
{
    let u = c as u32;
    if u < 0x80 {
        1
    } else if u < 0x800 {
        2
    } else if u < 0x10000 {
        3
    } else {
        4
    }
}

/// The truncation point: starting at position `i` with `rem` byte-width
/// units still to cover, the first character index at or past which the
/// running UTF-8 byte count reaches the requested cut — a cut that lands
/// inside a character moves forward to the next character boundary.
pub open spec fn boundary_cut_from(s: Seq<char>, i: int, rem: int) -> int
    decreases s.len() - i,
{
    if i < 0 || i >= s.len() || rem <= 0 {
        i
    } else {
        boundary_cut_from(s, i + 1, rem - utf8_len(s[i]))
    }
}

/// Character count kept when the name is cut at UTF-8 byte position `end`,
/// rounded up to a character boundary.
pub open spec fn boundary_cut(s: Seq<char>, end: int) -> int {
    boundary_cut_from(s, 0, end)
}

pub proof fn lemma_boundary_cut_bounds(s: Seq<char>, i: int, rem: int)
    requires
        0 <= i <= s.len(),
    ensures
        i <= boundary_cut_from(s, i, rem) <= s.len(),
    decreases s.len() - i,
{
    if 0 <= i < s.len() && rem > 0 {
        lemma_boundary_cut_bounds(s, i + 1, rem - utf8_len(s[i]));
    }
}

/// The ` (n)` unread-count suffix, empty when nothing is unread.
pub open spec fn unread_suffix(unread: int) -> Seq<char> {
    if unread == 0 {
        Seq::empty()
    } else {
        seq![' ', '('] + spec_dec(unread) + seq![')']
    }
}

/// The display line for one channel in a column of interior width `width`:
/// the name, followed by the unread suffix when the count is non-zero.  A
/// label too wide for the column has the name portion truncated from the
/// right by the overflow in display-width units, the cut moved up to a
/// character boundary, with the suffix re-appended whole; a label with no
/// suffix to protect is passed through unmodified.
pub open spec fn spec_channel_label(name: Seq<char>, unread: int, width: int) -> Seq<char> {
    let label = name + unread_suffix(unread);
    if str_width(label) <= width || unread == 0 {
        label
    } else {
        let diff = str_width(label) - width;
        let end = if str_width(name) > diff {
            str_width(name) - diff
        } else {
            0
        };
        name.take(boundary_cut(name, end)) + unread_suffix(unread)
    }
}

fn unread_suffix_string(unread: usize) -> (r: String)
    ensures
        r@ == unread_suffix(unread as int),
        r@.len() <= 23 + spec_dec(unread as int).len(),
{
    if unread == 0 {
        let r = String::new();
        proof {
            assert(r@ =~= unread_suffix(unread as int));
        }
        r
    } else {
        let mut r = String::new();
        r.append(" (");
        r.append(dec_string(unread).as_str());
        r.append(")");
        proof {
            reveal_strlit(" (");
            reveal_strlit(")");
            assert(r@ =~= unread_suffix(unread as int));
        }
        r
    }
}

spec fn pow10(k: nat) -> int
    decreases k,
{
    if k == 0 {
        1
    } else {
        10 * pow10((k - 1) as nat)
    }
}

proof fn lemma_dec_len_aux(n: int, k: nat)
    requires
        0 <= n < pow10(k),
        k >= 1,
    ensures
        spec_dec(n).len() <= k,
    decreases k,
{
    if n >= 10 {
        lemma_dec_len_aux(n / 10, (k - 1) as nat);
    }
}

proof fn lemma_dec_len(n: int)
    requires
        0 <= n <= u64::MAX,
    ensures
        spec_dec(n).len() <= 30,
{
    assert(pow10(30) > u64::MAX as int) by {
        reveal_with_fuel(pow10, 31);
    }
    lemma_dec_len_aux(n, 30);
}

/// Formats one channel's label for a column of interior width `width`.
pub fn channel_label(name: &str, unread: usize, width: usize) -> (r: String)
    requires
        len_ok(name@),
    ensures
        r@ == spec_channel_label(name@, unread as int, width as int),
{
    let suffix = unread_suffix_string(unread);
    let label = name.to_owned().concat(suffix.as_str());
    proof {
        lemma_dec_len(unread as int);
        assert(label@ =~= name@ + unread_suffix(unread as int));
    }
    let label_width = display_width(label.as_str());
    if label_width <= width || unread == 0 {
        label
    } else {
        let diff = label_width - width;
        let name_width = display_width(name);
        let end = if name_width > diff {
            name_width - diff
        } else {
            0
        };
        let n = name.unicode_len();
        let mut k: usize = 0;
        let mut cum: usize = 0;
        while k < n && cum < end
            invariant
                0 <= k <= n,
                n == name@.len(),
                len_ok(name@),
                cum <= end + 3,
                end <= 3 * name@.len(),
                boundary_cut(name@, end as int) == boundary_cut_from(
                    name@,
                    k as int,
                    end - cum,
                ),
            decreases n - k,
        {
            let w = char_utf8_len(name.get_char(k));
            cum = cum + w;
            k = k + 1;
        }
        let prefix = name.substring_char(0, k);
        let r = prefix.to_owned().concat(suffix.as_str());
        proof {
            assert(boundary_cut(name@, end as int) == k as int);
            assert(prefix@ =~= name@.take(k as int));
            assert(r@ =~= spec_channel_label(name@, unread as int, width as int));
        }
        r
    }
}

/// A chat channel as the renderer sees it: its display name, free-text
/// description, messages oldest-first, members, and how many trailing
/// messages are unread.
pub struct Channel {
    pub name: String,
    pub description: String,
    pub messages: Vec<crate::messages::Message>,
    pub members: Vec<crate::members::Member>,
    pub unread_messages: usize,
}

impl Channel {
    /// The channel's strings are short enough for width arithmetic.
    pub open spec fn wf(self) -> bool {
        &&& len_ok(self.name@)
        &&& crate::messages::msgs_ok(self.messages@)
    }
}

/// The channel column: its rectangle, one label per channel, and which
/// row is highlighted.
pub struct ChannelListPane {
    pub area: Rect,
    pub labels: Vec<String>,
    pub selected: Option<usize>,
}

/// Every channel got its label for the column's interior width.
pub open spec fn labels_ok(labels: Seq<String>, channels: Seq<Channel>, width: int) -> bool {
    &&& labels.len() == channels.len()
    &&& forall|i: int|
        0 <= i < channels.len() ==> (#[trigger] labels[i])@ == spec_channel_label(
            channels[i].name@,
            channels[i].unread_messages as int,
            width,
        )
}

/// Formats the whole channel list for a column of interior width `width`.
pub fn format_channel_list(channels: &Vec<Channel>, width: usize) -> (r: Vec<String>)
    requires
        forall|i: int| 0 <= i < channels@.len() ==> (#[trigger] channels@[i]).wf(),
    ensures
        labels_ok(r@, channels@, width as int),
{
    let mut r: Vec<String> = Vec::new();
    let mut i: usize = 0;
    let n = channels.len();
    while i < n
        invariant
            0 <= i <= n,
            n == channels@.len(),
            forall|k: int| 0 <= k < channels@.len() ==> (#[trigger] channels@[k]).wf(),
            r@.len() == i,
            forall|k: int|
                0 <= k < i ==> (#[trigger] r@[k])@ == spec_channel_label(
                    channels@[k].name@,
                    channels@[k].unread_messages as int,
                    width as int,
                ),
        decreases n - i,
    {
        let c = &channels[i];
        let label = channel_label(c.name.as_str(), c.unread_messages, width);
        r.push(label);
        i = i + 1;
    }
    r
}

/// The truncation never splits a multi-byte character and keeps the unread
/// suffix verbatim: whenever the unread count is non-zero, the label is a
/// whole-character prefix of the name followed by the full suffix.
pub proof fn lemma_label_keeps_suffix(name: Seq<char>, unread: int, width: int)
    requires
        unread != 0,
    ensures
        exists|k: int|
            0 <= k <= name.len() && spec_channel_label(name, unread, width) == name.take(k)
                + unread_suffix(unread),
{
    let label = name + unread_suffix(unread);
    if str_width(label) <= width {
        assert(name.take(name.len() as int) =~= name);
        assert(spec_channel_label(name, unread, width) == name.take(name.len() as int)
            + unread_suffix(unread));
    } else {
        let diff = str_width(label) - width;
        let end = if str_width(name) > diff {
            str_width(name) - diff
        } else {
            0
        };
        lemma_boundary_cut_bounds(name, 0, end);
        let k = boundary_cut(name, end);
        assert(spec_channel_label(name, unread, width) == name.take(k) + unread_suffix(unread));
    }
}

} // verus!
