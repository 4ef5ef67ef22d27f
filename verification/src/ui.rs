//! The top-level frame: one redraw of the whole screen from a state
//! snapshot.

use vstd::prelude::*;
use crate::channels::Channel;
use crate::channels::ChannelListPane;
use crate::channels::format_channel_list;
use crate::channels::labels_ok;
use crate::chat::ChatPane;
use crate::chat::chat_ok;
use crate::chat::render_chat;
use crate::geometry::Rect;
use crate::geometry::split_regions;
use crate::members::members_ok;
use crate::members::render_members;
use crate::messages::Message;
use crate::style::StyledSpan;

verus! {

/// Everything the renderer reads each frame.
pub struct AppState {
    pub channels: Vec<Channel>,
    pub selected: Option<usize>,
    pub input: String,
    pub input_cursor: usize,
    pub presences: Vec<(u64, bool)>,
    pub names: Vec<(u64, String)>,
}

impl AppState {
    /// A selected index that actually points at a channel.
    pub open spec fn spec_selected(self) -> Option<int> {
        match self.selected {
            Some(i) => if i < self.channels@.len() {
                Some(i as int)
            } else {
                None
            },
            None => None,
        }
    }

    /// Whether the selected channel has members (and so earns a pane).
    pub open spec fn spec_has_members(self) -> bool {
        match self.spec_selected() {
            Some(i) => self.channels@[i].members@.len() > 0,
            None => false,
        }
    }

    /// Strings are short enough for width arithmetic and the cursor sits
    /// inside the input buffer.
    pub open spec fn wf(self) -> bool {
        &&& forall|i: int| 0 <= i < self.channels@.len() ==> (#[trigger] self.channels@[i]).wf()
        &&& self.input_cursor <= self.input@.len()
    }
}

/// The member column, when it is drawn.
pub struct MembersPane {
    pub area: Rect,
    pub lines: Vec<StyledSpan>,
}

/// One full redraw: the channel column, the chat column, and the member
/// column when the selected channel has members.
pub struct UiFrame {
    pub channels: ChannelListPane,
    pub chat: ChatPane,
    pub members: Option<MembersPane>,
}

/// Computes one frame from a state snapshot.  The screen splits into the
/// channel column and chat column (plus a member column when the selected
/// channel has members); each pane's content follows its component's
/// contract, with empty message and member lists when nothing is
/// selected.
pub fn draw(state: &AppState, screen: Rect) -> (f: UiFrame)
    requires
        state.wf(),
        screen.x + screen.width <= u16::MAX,
        screen.y + screen.height <= u16::MAX,
    ensures
        ({
            let has_members = state.spec_has_members();
            let list_w = screen.width as int / 4;
            let member_w = if has_members {
                screen.width as int / 8
            } else {
                0
            };
            let chat_w = screen.width - list_w - member_w;
            let chat_area = Rect {
                x: (screen.x + list_w) as u16,
                y: screen.y,
                width: chat_w as u16,
                height: screen.height,
            };
            &&& f.channels.area == (Rect {
                x: screen.x,
                y: screen.y,
                width: list_w as u16,
                height: screen.height,
            })
            &&& labels_ok(
                f.channels.labels@,
                state.channels@,
                f.channels.area.spec_interior_width(),
            )
            &&& f.channels.selected == state.selected
            &&& ({
                match state.spec_selected() {
                    Some(i) => chat_ok(
                        f.chat,
                        state.channels@[i].messages@,
                        state.channels@[i].unread_messages as int,
                        state.channels@[i].description@,
                        state.input@,
                        state.input_cursor as int,
                        chat_area,
                    ),
                    None => chat_ok(
                        f.chat,
                        Seq::empty(),
                        0,
                        Seq::empty(),
                        state.input@,
                        state.input_cursor as int,
                        chat_area,
                    ),
                }
            })
            &&& (f.members is Some <==> has_members)
            &&& (has_members ==> {
                let mp = f.members->0;
                let i = state.spec_selected()->0;
                &&& mp.area == (Rect {
                    x: (screen.x + list_w + chat_w) as u16,
                    y: screen.y,
                    width: member_w as u16,
                    height: screen.height,
                })
                &&& members_ok(
                    mp.lines@,
                    state.channels@[i].members@,
                    state.names@,
                    state.presences@,
                    mp.area,
                )
            })
        }),
{
    let has_members = match state.selected {
        Some(i) => {
            if i < state.channels.len() {
                state.channels[i].members.len() > 0
            } else {
                false
            }
        },
        None => false,
    };
    let regions = split_regions(screen, has_members);
    let list_area = regions[0];
    let chat_area = regions[1];
    let labels = format_channel_list(&state.channels, list_area.interior_width() as usize);
    let channels_pane = ChannelListPane { area: list_area, labels, selected: state.selected };
    let empty_msgs: Vec<Message> = Vec::new();
    let chat = match state.selected {
        Some(i) => {
            if i < state.channels.len() {
                let ch = &state.channels[i];
                render_chat(
                    &ch.messages,
                    ch.unread_messages,
                    ch.description.as_str(),
                    state.input.as_str(),
                    state.input_cursor,
                    chat_area,
                )
            } else {
                render_chat(&empty_msgs, 0, "", state.input.as_str(), state.input_cursor, chat_area)
            }
        },
        None => {
            render_chat(&empty_msgs, 0, "", state.input.as_str(), state.input_cursor, chat_area)
        },
    };
    proof {
        reveal_strlit("");
        assert(("")@ =~= Seq::<char>::empty());
    }
    let members = if has_members {
        let member_area = regions[2];
        let i = match state.selected {
            Some(i) => i,
            None => 0,
        };
        let lines = render_members(
            &state.channels[i].members,
            &state.names,
            &state.presences,
            member_area,
        );
        Some(MembersPane { area: member_area, lines })
    } else {
        None
    };
    UiFrame { channels: channels_pane, chat, members }
}

} // verus!
