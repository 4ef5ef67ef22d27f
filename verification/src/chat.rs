//! The chat column: the message pane above, the input box below, and the
//! cursor cell.

use vstd::prelude::*;
use crate::geometry::Rect;
use crate::input::cursor_cell;
use crate::input::input_box_height;
use crate::input::wrap_input;
use crate::input::chunk_at;
use crate::input::num_chunks;
use crate::input::lemma_input_cursor_in_box;
use crate::input::spec_box_height;
use crate::input::spec_extra_line;
use crate::input::spec_input_lines;
use crate::messages::Message;
use crate::messages::MessagesPane;
use crate::messages::msgs_ok;
use crate::messages::pane_ok;
use crate::messages::render_messages;

verus! {

/// The rendered chat column.
pub struct ChatPane {
    pub messages_area: Rect,
    pub messages: MessagesPane,
    pub input_area: Rect,
    pub input_lines: Vec<String>,
    pub cursor: (u16, u16),
}

/// The character width the input is wrapped at: the column's interior
/// width, clamped to at least one.
pub open spec fn spec_text_width(area: Rect) -> int {
    if area.spec_interior_width() >= 1 {
        area.spec_interior_width()
    } else {
        1
    }
}

/// The input box height, saturated to cell coordinates and clamped to
/// the column.
pub open spec fn spec_input_height(area: Rect, input: Seq<char>, cursor: int) -> int {
    let h = spec_box_height(input.len() as int, cursor, spec_text_width(area));
    let h16 = if h <= u16::MAX as int {
        h
    } else {
        u16::MAX as int
    };
    if h16 <= area.height {
        h16
    } else {
        area.height as int
    }
}

/// Everything the chat column promises: the input box sits at the bottom
/// with its content-derived height, the message pane fills the rest, the
/// input is chunked at the text width, and the cursor cell follows the
/// division-and-remainder rule from the box corner.
pub open spec fn chat_ok(
    c: ChatPane,
    msgs: Seq<Message>,
    unread: int,
    description: Seq<char>,
    input: Seq<char>,
    input_cursor: int,
    area: Rect,
) -> bool {
    let w = spec_text_width(area);
    let ih = spec_input_height(area, input, input_cursor);
    &&& c.messages_area == (Rect {
        x: area.x,
        y: area.y,
        width: area.width,
        height: (area.height - ih) as u16,
    })
    &&& c.input_area == (Rect {
        x: area.x,
        y: (area.y + area.height - ih) as u16,
        width: area.width,
        height: ih as u16,
    })
    &&& pane_ok(c.messages, msgs, unread, description, c.messages_area)
    &&& c.input_lines.len() == num_chunks(input.len() as int, w)
    &&& forall|j: int|
        0 <= j < c.input_lines.len() ==> (#[trigger] c.input_lines[j])@ == chunk_at(input, w, j)
    &&& c.cursor.0 as int == if c.input_area.x + 1 + input_cursor % w <= u16::MAX {
        c.input_area.x + 1 + input_cursor % w
    } else {
        u16::MAX as int
    }
    &&& c.cursor.1 as int == if c.input_area.y + 1 + input_cursor / w <= u16::MAX {
        c.input_area.y + 1 + input_cursor / w
    } else {
        u16::MAX as int
    }
}

/// Renders the chat column: the input box's height follows from the
/// wrapped input and cursor, the message pane gets the remaining rows.
pub fn render_chat(
    msgs: &Vec<Message>,
    unread: usize,
    description: &str,
    input: &str,
    input_cursor: usize,
    area: Rect,
) -> (c: ChatPane)
    requires
        msgs_ok(msgs@),
        area.y + area.height <= u16::MAX,
    ensures
        chat_ok(c, msgs@, unread as int, description@, input@, input_cursor as int, area),
{
    let interior = area.interior_width();
    let text_width: usize = if interior >= 1 {
        interior as usize
    } else {
        1
    };
    let box_h = input_box_height(input, input_cursor, text_width);
    let input_h: u16 = if box_h <= area.height {
        box_h
    } else {
        area.height
    };
    let messages_area = Rect {
        x: area.x,
        y: area.y,
        width: area.width,
        height: area.height - input_h,
    };
    let input_area = Rect {
        x: area.x,
        y: area.y + (area.height - input_h),
        width: area.width,
        height: input_h,
    };
    let messages = render_messages(msgs, unread, description, messages_area);
    let input_lines = wrap_input(input, text_width);
    let cursor = cursor_cell(input_area, input_cursor, text_width);
    ChatPane { messages_area, messages, input_area, input_lines, cursor }
}

/// In a chat column wide enough for an interior (width at least three)
/// whose input box is not clipped by the column, the box height is the
/// wrapped line count — the rounded-up division, one for an empty input —
/// plus two border rows plus the reserved extra line, and the cursor cell
/// sits strictly inside the box borders, with neither coordinate
/// saturated.
pub proof fn lemma_cursor_inside_input_box(area: Rect, input: Seq<char>, cursor: int)
    requires
        0 <= cursor <= input.len(),
        area.x + area.width <= u16::MAX,
        area.y + area.height <= u16::MAX,
        area.width >= 3,
        spec_box_height(input.len() as int, cursor, spec_text_width(area)) <= area.height,
    ensures
        ({
            let w = spec_text_width(area);
            let ih = spec_input_height(area, input, cursor);
            let by = area.y + area.height - ih;
            &&& ih == spec_input_lines(input.len() as int, w) + 2 + spec_extra_line(cursor, w)
            &&& spec_input_lines(input.len() as int, w) == if input.len() == 0 {
                1int
            } else {
                (input.len() + w - 1) / w
            }
            &&& area.x + 1 <= area.x + 1 + cursor % w <= area.x + area.width - 2
            &&& area.x + 1 + cursor % w <= u16::MAX
            &&& by + 1 <= by + 1 + cursor / w <= by + ih - 2
            &&& by + 1 + cursor / w <= u16::MAX
        }),
{
    let w = spec_text_width(area);
    let ih = spec_input_height(area, input, cursor);
    lemma_input_cursor_in_box(input.len() as int, cursor, w);
    vstd::arithmetic::div_mod::lemma_mod_division_less_than_divisor(cursor, w);
    vstd::arithmetic::div_mod::lemma_div_pos_is_pos(cursor, w);
    assert(w == area.width - 2);
    assert(ih == spec_box_height(input.len() as int, cursor, w));
}

} // verus!
