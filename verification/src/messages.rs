//! The message pane: newest-first message blocks with a timed, colored
//! prefix, word-wrapped bodies, and the unread divider.

use vstd::prelude::*;
use vstd::string::StrSliceExecFns;
use vstd::string::StringExecFns;
use crate::color::Color;
use crate::color::spec_user_color;
use crate::color::user_color;
use crate::geometry::Rect;
use crate::style::StyledLine;
use crate::style::StyledSpan;
use crate::textutil::displayed_name;
use crate::textutil::repeat_str;
use crate::textutil::repeated;
use crate::textutil::spec_first_name;
use crate::timefmt::format_time;
use crate::timefmt::local_hour_minute;
use crate::timefmt::spec_time;
use crate::width::cell_width;
use crate::width::display_width;
use crate::width::len_ok;
use crate::width::lemma_str_width_concat;
use crate::width::str_width;
use crate::wrap::wrap_text;
use crate::wrap::wrapped;

verus! {

/// One chat message: sender display string, body text, and the arrival
/// instant as a Unix timestamp in seconds.
pub struct Message {
    pub from: String,
    pub body: String,
    pub arrived_at: i64,
}

/// One entry of the rendered message pane: a message block of styled
/// lines, or the synthetic unread divider line.
pub enum MessageItem {
    Block(Vec<StyledLine>),
    Divider(String),
}

/// The rendered message pane: a title and the entries, newest message
/// first.  A backend stacks the entries from the bottom of the pane up.
pub struct MessagesPane {
    pub title: String,
    pub items: Vec<MessageItem>,
}

/// Strings of a message list are short enough for width arithmetic.
pub open spec fn msgs_ok(msgs: Seq<Message>) -> bool {
    forall|i: int|
        0 <= i < msgs.len() ==> len_ok((#[trigger] msgs[i]).from@) && len_ok(msgs[i].body@)
}

/// Widest first name over all the channel's messages.
pub open spec fn max_name_width(msgs: Seq<Message>) -> nat
    decreases msgs.len(),
{
    if msgs.len() == 0 {
        0
    } else {
        let rest = max_name_width(msgs.drop_last());
        let w = str_width(spec_first_name(msgs.last().from@));
        if w > rest {
            w
        } else {
            rest
        }
    }
}

/// The sender's first name, left-padded with spaces to the widest name.
pub open spec fn padded_name(from: Seq<char>, maxw: int) -> Seq<char> {
    let name = spec_first_name(from);
    let pad = if maxw > str_width(name) {
        maxw - str_width(name)
    } else {
        0
    };
    repeated(' ', pad) + name
}

/// The `": "` between the sender and the body.
pub open spec fn delim() -> Seq<char> {
    seq![':', ' ']
}

/// Display width of a message's time + padded sender + delimiter prefix.
pub open spec fn spec_prefix_width(h: int, m: int, from: Seq<char>, maxw: int) -> int {
    str_width(spec_time(h, m)) + str_width(padded_name(from, maxw)) + str_width(delim()) as int
}

/// The width the body is word-wrapped to: the pane interior minus the
/// prefix, clamped at zero.
pub open spec fn msg_wrap_width(interior: int, h: int, m: int, from: Seq<char>, maxw: int) -> int {
    let pw = spec_prefix_width(h, m, from, maxw);
    if interior > pw {
        interior - pw
    } else {
        0
    }
}

/// A message block, line by line: the first wrapped line carries the
/// yellow time, the color-keyed padded sender and the delimiter; each
/// further line is indented by the prefix width.
pub open spec fn spec_message_block(
    h: int,
    m: int,
    from: Seq<char>,
    body: Seq<char>,
    maxw: int,
    wrap_width: int,
) -> Seq<Seq<(Seq<char>, Color)>> {
    let time = spec_time(h, m);
    let name = padded_name(from, maxw);
    let pw = str_width(time) + str_width(name) + str_width(delim()) as int;
    let lines = wrapped(body, wrap_width);
    Seq::new(
        lines.len(),
        |i: int|
            if i == 0 {
                seq![
                    (time, Color::Yellow),
                    (name, spec_user_color(vstd::utf8::encode_utf8(from))),
                    (delim(), Color::Reset),
                    (lines[0], Color::Reset),
                ]
            } else {
                seq![(repeated(' ', pw as int) + lines[i], Color::Reset)]
            },
    )
}

/// The mathematical content of a block: its lines as colored text runs.
pub open spec fn block_view(lines: Vec<StyledLine>) -> Seq<Seq<(Seq<char>, Color)>> {
    lines@.map_values(|l: StyledLine| l.view_pairs())
}

/// An item renders the given message: a block whose lines are the
/// message's, for the (environment-dependent) local hour and minute its
/// timestamp resolved to.
pub open spec fn block_matches(item: MessageItem, msg: Message, maxw: int, interior: int) -> bool {
    &&& item is Block
    &&& exists|h: int, m: int|
        0 <= h < 24 && 0 <= m < 60 && block_view(item->Block_0) == spec_message_block(
            h,
            m,
            msg.from@,
            msg.body@,
            maxw,
            msg_wrap_width(interior, h, m, msg.from@, maxw),
        )
}

/// The unread divider: dashes, the label, dashes out to the interior
/// width (the right-hand dash count clamped at zero).
pub open spec fn spec_divider(maxw: int, interior: int) -> Seq<char> {
    let k = maxw + 8;
    let label = seq!['n', 'e', 'w', ' ', 'm', 'e', 's', 's', 'a', 'g', 'e', 's'];
    let right = if interior - k - 12 > 0 {
        interior - k - 12
    } else {
        0
    };
    repeated('-', k) + label + repeated('-', right)
}

/// The pane title when no channel or description is available.
pub open spec fn default_title() -> Seq<char> {
    seq!['M', 'e', 's', 's', 'a', 'g', 'e', 's']
}

fn max_name_width_exec(msgs: &Vec<Message>) -> (r: usize)
    requires
        msgs_ok(msgs@),
    ensures
        r == max_name_width(msgs@),
        r <= 0x2FFF_FFFD,
{
    let n = msgs.len();
    let mut i: usize = 0;
    let mut acc: usize = 0;
    while i < n
        invariant
            0 <= i <= n,
            n == msgs@.len(),
            msgs_ok(msgs@),
            acc == max_name_width(msgs@.take(i as int)),
            acc <= 0x2FFF_FFFD,
        decreases n - i,
    {
        let name = displayed_name(msgs[i].from.as_str(), true);
        proof {
            crate::textutil::lemma_first_name_len(msgs@[i as int].from@);
        }
        let w = display_width(name);
        proof {
            assert(msgs@.take(i + 1).drop_last() =~= msgs@.take(i as int));
            assert(msgs@.take(i + 1).last() == msgs@[i as int]);
        }
        if w > acc {
            acc = w;
        }
        i = i + 1;
    }
    proof {
        assert(msgs@.take(n as int) =~= msgs@);
    }
    acc
}

fn message_block(
    h: u32,
    m: u32,
    from: &str,
    body: &str,
    maxw: usize,
    wrap_width: usize,
) -> (r: Vec<StyledLine>)
    requires
        h < 24,
        m < 60,
        len_ok(from@),
        maxw <= 0x2FFF_FFFD,
    ensures
        block_view(r) == spec_message_block(
            h as int,
            m as int,
            from@,
            body@,
            maxw as int,
            wrap_width as int,
        ),
{
    let ghost gspec = spec_message_block(
        h as int,
        m as int,
        from@,
        body@,
        maxw as int,
        wrap_width as int,
    );
    let time_str = format_time(h, m);
    let name_first = displayed_name(from, true);
    proof {
        crate::textutil::lemma_first_name_len(from@);
        reveal_strlit(" ");
        reveal_strlit(": ");
    }
    let namew = display_width(name_first);
    let pad = if maxw > namew {
        maxw - namew
    } else {
        0
    };
    let padded = repeat_str(" ", pad).concat(name_first);
    proof {
        assert(padded@ =~= padded_name(from@, maxw as int));
    }
    let tw = display_width(time_str.as_str());
    let dw = display_width(": ");
    proof {
        assert((": ")@ =~= delim());
    }
    let nw = display_width(padded.as_str());
    let pw: usize = tw + nw + dw;
    let indent = repeat_str(" ", pw);
    let lines = wrap_text(body, wrap_width);
    let mut r: Vec<StyledLine> = Vec::new();
    let ghost wl = wrapped(body@, wrap_width as int);
    if lines.len() > 0 {
        proof {
            assert(wl[0] == lines@.map_values(|l: String| l@)[0]);
        }
        let mut spans: Vec<StyledSpan> = Vec::new();
        spans.push(StyledSpan { text: time_str, color: Color::Yellow });
        spans.push(StyledSpan { text: padded, color: user_color(from) });
        spans.push(StyledSpan { text: ": ".to_owned(), color: Color::Reset });
        spans.push(StyledSpan { text: lines[0].clone(), color: Color::Reset });
        let line = StyledLine { spans };
        proof {
            assert(line.view_pairs() =~= gspec[0]);
        }
        r.push(line);
        let mut i: usize = 1;
        while i < lines.len()
            invariant
                1 <= i <= lines@.len(),
                wl == wrapped(body@, wrap_width as int),
                wl.len() == lines@.len(),
                gspec == spec_message_block(
                    h as int,
                    m as int,
                    from@,
                    body@,
                    maxw as int,
                    wrap_width as int,
                ),
                forall|j: int| 0 <= j < lines@.len() ==> (#[trigger] lines@[j])@ == wl[j],
                indent@ == repeated(
                    ' ',
                    spec_prefix_width(h as int, m as int, from@, maxw as int),
                ),
                r@.len() == i,
                forall|j: int| 0 <= j < i ==> (#[trigger] r@[j]).view_pairs() == gspec[j],
            decreases lines@.len() - i,
        {
            let text = indent.clone().concat(lines[i].as_str());
            let mut spans: Vec<StyledSpan> = Vec::new();
            spans.push(StyledSpan { text, color: Color::Reset });
            let line = StyledLine { spans };
            proof {
                assert(line.view_pairs() =~= gspec[i as int]);
            }
            r.push(line);
            i = i + 1;
        }
    }
    proof {
        assert(block_view(r) =~= gspec);
    }
    r
}

fn divider_string(maxw: usize, interior: usize) -> (r: String)
    requires
        maxw <= 0x2FFF_FFFD,
        interior <= 0xFFFF,
    ensures
        r@ == spec_divider(maxw as int, interior as int),
{
    let k = maxw + 8;
    proof {
        reveal_strlit("-");
        reveal_strlit("new messages");
    }
    let mut r = repeat_str("-", k);
    r.append("new messages");
    let right = if interior > k + 12 {
        interior - k - 12
    } else {
        0
    };
    let tail = repeat_str("-", right);
    r.append(tail.as_str());
    proof {
        assert(r@ =~= spec_divider(maxw as int, interior as int));
    }
    r
}

/// Everything the message pane promises: the title rule; one block per
/// shown message, newest first; the unread divider exactly when
/// `0 < unread < shown`, at position `unread` from the top.
pub open spec fn pane_ok(
    p: MessagesPane,
    msgs: Seq<Message>,
    unread: int,
    description: Seq<char>,
    area: Rect,
) -> bool {
    let shown = if msgs.len() <= area.height {
        msgs.len() as int
    } else {
        area.height as int
    };
    let has_div = 0 < unread && unread < shown;
    let maxw = max_name_width(msgs) as int;
    let interior = area.spec_interior_width();
    &&& p.title@ == if description.len() == 0 {
        default_title()
    } else {
        description
    }
    &&& p.items@.len() == shown + if has_div {
        1int
    } else {
        0int
    }
    &&& (has_div ==> p.items@[unread] is Divider && (p.items@[unread]->Divider_0)@
        == spec_divider(maxw, interior))
    &&& forall|i: int|
        0 <= i < p.items@.len() && !(has_div && i == unread) ==> block_matches(
            #[trigger] p.items@[i],
            msgs[msgs.len() - 1 - (if has_div && i > unread {
                i - 1
            } else {
                i
            })],
            maxw,
            interior,
        )
}

/// Renders the message pane for the selected channel's messages (empty
/// when none is selected): the title is the channel description or
/// `Messages` when that is empty; the newest `max_lines` messages become
/// blocks, newest first; when `0 < unread < shown`, the unread divider
/// sits at position `unread` from the top; every block is the message's
/// wrapped, prefixed lines.
pub fn render_messages(
    msgs: &Vec<Message>,
    unread: usize,
    description: &str,
    area: Rect,
) -> (p: MessagesPane)
    requires
        msgs_ok(msgs@),
    ensures
        pane_ok(p, msgs@, unread as int, description@, area),
{
    let title = if description.is_empty() {
        "Messages".to_owned()
    } else {
        description.to_owned()
    };
    proof {
        reveal_strlit("Messages");
        assert(("Messages")@ =~= default_title());
    }
    let n = msgs.len();
    let shown: usize = if n <= area.height as usize {
        n
    } else {
        area.height as usize
    };
    let has_div = 0 < unread && unread < shown;
    let maxw = max_name_width_exec(msgs);
    let interior = area.interior_width() as usize;
    let mut items: Vec<MessageItem> = Vec::new();
    let mut idx: usize = 0;
    while idx < shown
        invariant
            0 <= idx <= shown,
            shown <= n,
            n == msgs@.len(),
            msgs_ok(msgs@),
            maxw == max_name_width(msgs@),
            maxw <= 0x2FFF_FFFD,
            interior == area.spec_interior_width(),
            has_div == (0 < unread && unread < shown),
            items@.len() == idx + if has_div && idx > unread {
                1int
            } else {
                0int
            },
            has_div && idx > unread ==> items@[unread as int] is Divider && (
            items@[unread as int]->Divider_0)@ == spec_divider(
                maxw as int,
                area.spec_interior_width(),
            ),
            forall|i: int|
                0 <= i < items@.len() && !(has_div && i == unread) ==> block_matches(
                    #[trigger] items@[i],
                    msgs@[msgs@.len() - 1 - (if has_div && i > unread {
                        i - 1
                    } else {
                        i
                    })],
                    maxw as int,
                    area.spec_interior_width(),
                ),
        decreases shown - idx,
    {
        if has_div && idx == unread {
            let d = divider_string(maxw, interior);
            items.push(MessageItem::Divider(d));
            proof {
                assert(items@[unread as int] is Divider);
                assert((items@[unread as int]->Divider_0)@ == spec_divider(
                    maxw as int,
                    area.spec_interior_width(),
                ));
            }
        }
        let msg = &msgs[n - 1 - idx];
        let hm = local_hour_minute(msg.arrived_at);
        let time_str_w = {
            let t = format_time(hm.0, hm.1);
            display_width(t.as_str())
        };
        proof {
            crate::textutil::lemma_first_name_len(msgs@[n - 1 - idx].from@);
            reveal_strlit(" ");
            reveal_strlit(": ");
        }
        let name_first = displayed_name(msg.from.as_str(), true);
        let namew = display_width(name_first);
        let pad = if maxw > namew {
            maxw - namew
        } else {
            0
        };
        let padded = repeat_str(" ", pad).concat(name_first);
        proof {
            assert(padded@ =~= padded_name(msgs@[n - 1 - idx].from@, maxw as int));
        }
        let nw = display_width(padded.as_str());
        let dw = display_width(": ");
        proof {
            assert((": ")@ =~= delim());
        }
        let pw: usize = time_str_w + nw + dw;
        let wrap_width = if interior > pw {
            interior - pw
        } else {
            0
        };
        let block = message_block(hm.0, hm.1, msg.from.as_str(), msg.body.as_str(), maxw, wrap_width);
        proof {
            let h0 = hm.0 as int;
            let m0 = hm.1 as int;
            let msgv = msgs@[msgs@.len() - 1 - idx];
            assert(wrap_width as int == msg_wrap_width(
                area.spec_interior_width(),
                h0,
                m0,
                msgv.from@,
                maxw as int,
            ));
        }
        items.push(MessageItem::Block(block));
        proof {
            let gi = items@.len() - 1;
            let h0 = hm.0 as int;
            let m0 = hm.1 as int;
            let msgv = msgs@[msgs@.len() - 1 - idx];
            assert(items@[gi] is Block);
            assert(items@[gi]->Block_0 == block);
            assert(block_view(block) == spec_message_block(
                h0,
                m0,
                msgv.from@,
                msgv.body@,
                maxw as int,
                msg_wrap_width(area.spec_interior_width(), h0, m0, msgv.from@, maxw as int),
            ));
            assert(exists|h: int, m: int|
                0 <= h < 24 && 0 <= m < 60 && block_view(items@[gi]->Block_0)
                    == spec_message_block(
                    h,
                    m,
                    msgv.from@,
                    msgv.body@,
                    maxw as int,
                    msg_wrap_width(area.spec_interior_width(), h, m, msgv.from@, maxw as int),
                ));
            assert(block_matches(items@[gi], msgv, maxw as int, area.spec_interior_width()));
        }
        idx = idx + 1;
    }
    MessagesPane { title, items }
}

proof fn lemma_repeated_width(c: char, k: int)
    requires
        k >= 0,
    ensures
        str_width(repeated(c, k)) == k * cell_width(c),
    decreases k,
{
    if k == 0 {
        assert(repeated(c, 0).len() == 0);
    } else {
        lemma_repeated_width(c, k - 1);
        assert(repeated(c, k).drop_last() =~= repeated(c, k - 1));
        assert(repeated(c, k).last() == c);
        assert(k * cell_width(c) == (k - 1) * cell_width(c) + cell_width(c)) by (nonlinear_arith);
    }
}

/// A continuation line fits the pane interior whenever the wrapped body
/// line it carries fits the wrap width: the indent contributes exactly
/// the prefix width, one cell per space.
proof fn lemma_indented_line_fits(interior: int, pw: int, line: Seq<char>)
    requires
        cell_width(' ') == 1,
        0 <= pw <= interior,
        str_width(line) <= interior - pw,
    ensures
        str_width(repeated(' ', pw) + line) <= interior,
{
    lemma_str_width_concat(repeated(' ', pw), line);
    lemma_repeated_width(' ', pw);
}

/// A first line fits the pane interior under the same condition: its
/// prefix occupies the prefix width and the body line the rest.
proof fn lemma_first_line_fits(
    interior: int,
    h: int,
    m: int,
    from: Seq<char>,
    maxw: int,
    line: Seq<char>,
)
    requires
        spec_prefix_width(h, m, from, maxw) <= interior,
        str_width(line) <= interior - spec_prefix_width(h, m, from, maxw),
    ensures
        str_width(spec_time(h, m) + padded_name(from, maxw) + delim() + line) <= interior,
{
    let t = spec_time(h, m);
    let nm = padded_name(from, maxw);
    lemma_str_width_concat(t, nm);
    lemma_str_width_concat(t + nm, delim());
    lemma_str_width_concat(t + nm + delim(), line);
}

/// A rendered line's text, spans concatenated left to right.
pub open spec fn line_text(l: Seq<(Seq<char>, Color)>) -> Seq<char>
    decreases l.len(),
{
    if l.len() == 0 {
        Seq::empty()
    } else {
        line_text(l.drop_last()) + l.last().0
    }
}

/// Every line of a message block fits the pane interior, provided the
/// prefix itself fits and each wrapped body line fits the wrap width
/// (one space cell per indent character).
pub proof fn lemma_block_lines_fit(
    h: int,
    m: int,
    from: Seq<char>,
    body: Seq<char>,
    maxw: int,
    interior: int,
)
    requires
        cell_width(' ') == 1,
        spec_prefix_width(h, m, from, maxw) <= interior,
        forall|i: int|
            0 <= i < wrapped(body, msg_wrap_width(interior, h, m, from, maxw)).len()
                ==> str_width(
                #[trigger] wrapped(body, msg_wrap_width(interior, h, m, from, maxw))[i],
            ) <= msg_wrap_width(interior, h, m, from, maxw),
    ensures
        forall|i: int|
            0 <= i < spec_message_block(
                h,
                m,
                from,
                body,
                maxw,
                msg_wrap_width(interior, h, m, from, maxw),
            ).len() ==> str_width(
                line_text(
                    #[trigger] spec_message_block(
                        h,
                        m,
                        from,
                        body,
                        maxw,
                        msg_wrap_width(interior, h, m, from, maxw),
                    )[i],
                ),
            ) <= interior,
{
    let ww = msg_wrap_width(interior, h, m, from, maxw);
    let blk = spec_message_block(h, m, from, body, maxw, ww);
    let lines = wrapped(body, ww);
    let time = spec_time(h, m);
    let name = padded_name(from, maxw);
    let pw = spec_prefix_width(h, m, from, maxw);
    assert forall|i: int| 0 <= i < blk.len() implies str_width(line_text(blk[i])) <= interior by {
        if i == 0 {
            assert(blk[0] == seq![
                (time, Color::Yellow),
                (name, spec_user_color(vstd::utf8::encode_utf8(from))),
                (delim(), Color::Reset),
                (lines[0], Color::Reset),
            ]);
            let s4 = blk[0];
            let s3 = s4.drop_last();
            let s2 = s3.drop_last();
            let s1 = s2.drop_last();
            let s0 = s1.drop_last();
            assert(s0 =~= Seq::<(Seq<char>, Color)>::empty());
            assert(s1 =~= seq![(time, Color::Yellow)]);
            assert(s2 =~= seq![
                (time, Color::Yellow),
                (name, spec_user_color(vstd::utf8::encode_utf8(from))),
            ]);
            assert(s3 =~= seq![
                (time, Color::Yellow),
                (name, spec_user_color(vstd::utf8::encode_utf8(from))),
                (delim(), Color::Reset),
            ]);
            assert(line_text(s1) == line_text(s0) + time);
            assert(line_text(s1) =~= time);
            assert(line_text(s2) == line_text(s1) + name);
            assert(line_text(s3) == line_text(s2) + delim());
            assert(line_text(s4) == line_text(s3) + lines[0]);
            assert(line_text(s4) =~= time + name + delim() + lines[0]);
            lemma_first_line_fits(interior, h, m, from, maxw, lines[0]);
        } else {
            assert(blk[i] == seq![(repeated(' ', pw) + lines[i], Color::Reset)]);
            assert(blk[i].drop_last() =~= Seq::<(Seq<char>, Color)>::empty());
            assert(line_text(blk[i].drop_last()) =~= Seq::<char>::empty());
            assert(line_text(blk[i]) == line_text(blk[i].drop_last()) + blk[i].last().0);
            assert(blk[i].last().0 == repeated(' ', pw) + lines[i]);
            assert(line_text(blk[i]) =~= repeated(' ', pw) + lines[i]);
            lemma_indented_line_fits(interior, pw, lines[i]);
        }
    }
}

} // verus!
