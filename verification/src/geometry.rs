//! Screen rectangles and the top-level column split.

use vstd::prelude::*;

verus! {

/// A rectangle of character cells on the screen.
#[derive(Clone, Copy, PartialEq, Eq, Structural, Debug)]
pub struct Rect {
    pub x: u16,
    pub y: u16,
    pub width: u16,
    pub height: u16,
}

impl Rect {
    /// Interior width: the width minus one border cell on each side,
    /// clamped at zero.
    pub open spec fn spec_interior_width(self) -> int {
        if self.width >= 2 {
            self.width - 2
        } else {
            0
        }
    }

    /// Executable interior width.
    pub fn interior_width(&self) -> (r: u16)
        ensures
            r == self.spec_interior_width(),
    {
        if self.width >= 2 {
            self.width - 2
        } else {
            0
        }
    }
}

/// Partitions the screen into side-by-side columns: channel list and chat,
/// plus a member column when the selected channel has members.
///
/// With members the widths are `1/4 : 5/8 : 1/8` of the screen width
/// (integer division, the middle column absorbing the remainder); without,
/// `1/4 : 3/4`.  The columns are contiguous, cover the full width, and all
/// keep the screen's y position and height.
pub fn split_regions(screen: Rect, has_members: bool) -> (r: Vec<Rect>)
    requires
        screen.x + screen.width <= u16::MAX,
    ensures
        r.len() == if has_members { 3int } else { 2int },
        forall|i: int| 0 <= i < r.len() ==> (#[trigger] r[i]).y == screen.y,
        forall|i: int| 0 <= i < r.len() ==> (#[trigger] r[i]).height == screen.height,
        r[0].x == screen.x,
        r[0].width == screen.width as int / 4,
        r[1].x == screen.x + r[0].width,
        has_members ==> r[2].width == screen.width as int / 8,
        has_members ==> r[1].width == screen.width - r[0].width - r[2].width,
        has_members ==> r[2].x == r[1].x + r[1].width,
        !has_members ==> r[1].width == screen.width - r[0].width,
{
    let list_width: u16 = screen.width / 4;
    let mut r: Vec<Rect> = Vec::new();
    r.push(Rect { x: screen.x, y: screen.y, width: list_width, height: screen.height });
    if has_members {
        let member_width: u16 = screen.width / 8;
        let chat_width: u16 = screen.width - list_width - member_width;
        r.push(
            Rect { x: screen.x + list_width, y: screen.y, width: chat_width, height: screen.height },
        );
        r.push(
            Rect {
                x: screen.x + list_width + chat_width,
                y: screen.y,
                width: member_width,
                height: screen.height,
            },
        );
    } else {
        let chat_width: u16 = screen.width - list_width;
        r.push(
            Rect { x: screen.x + list_width, y: screen.y, width: chat_width, height: screen.height },
        );
    }
    r
}

} // verus!
