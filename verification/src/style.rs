//! Styled text: the output unit every pane produces.

use vstd::prelude::*;
use crate::color::Color;

verus! {

/// A run of text in one color.
pub struct StyledSpan {
    pub text: String,
    pub color: Color,
}

/// One display line, as a sequence of colored spans.
pub struct StyledLine {
    pub spans: Vec<StyledSpan>,
}

impl StyledSpan {
    /// The span as its mathematical content: characters and color.
    pub open spec fn view_pair(self) -> (Seq<char>, Color) {
        (self.text@, self.color)
    }
}

impl StyledLine {
    /// The line as its mathematical content.
    pub open spec fn view_pairs(self) -> Seq<(Seq<char>, Color)> {
        self.spans@.map_values(|s: StyledSpan| s.view_pair())
    }
}

} // verus!
