//! Layout engine for a terminal chat client.
//!
//! Given a snapshot of application state (channels, the selected channel's
//! messages and members, the input buffer, a presence map), the library
//! computes exactly what text appears in each screen region and where the
//! text cursor sits.  Everything is pure: state in, styled lines and
//! rectangles out.

pub mod channels;
pub mod chat;
pub mod color;
pub mod geometry;
pub mod input;
pub mod members;
pub mod messages;
pub mod style;
pub mod textutil;
pub mod timefmt;
pub mod ui;
pub mod width;
pub mod wrap;

pub use color::Color;
pub use geometry::Rect;
pub use geometry::split_regions;
pub use ui::AppState;
pub use ui::UiFrame;
pub use ui::draw;
