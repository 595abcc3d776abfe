//! A vertical viewport over a block of content rows.
use vstd::prelude::*;

verus! {

/// Clamps `v` into `[0, hi]`, with `hi` taken as 0 when it is negative.
pub open spec fn clamp_offset(v: int, hi: int) -> int {
    if v < 0 {
        0
    } else if hi < 0 {
        0
    } else if v > hi {
        hi
    } else {
        v
    }
}

/// The rows of a terminal region in which content is drawn, and which part
/// of the content currently shows there.
pub struct ScreenArea {
    /// Terminal row at which the region starts.
    pub top: i32,
    /// Index of the first content row shown.
    pub top_line: i32,
    /// Number of rows of the region.
    pub visible_height: i32,
    /// Number of content rows.
    pub content_length: i32,
}

impl ScreenArea {
    /// The largest offset at which the region is still filled, or 0 when
    /// the whole content fits.
    pub open spec fn max_top_line(&self) -> int {
        if self.content_length > self.visible_height {
            self.content_length - self.visible_height
        } else {
            0
        }
    }

    pub open spec fn wf(&self) -> bool {
        &&& self.visible_height > 0
        &&& self.content_length >= 0
        &&& 0 <= self.top_line <= self.max_top_line()
    }

    /// A region of `visible_height` rows starting at terminal row `top`,
    /// showing no content yet.
    pub fn new(top: i32, visible_height: i32) -> (r: ScreenArea)
        requires
            visible_height > 0,
        ensures
            r.wf(),
            r.top == top,
            r.visible_height == visible_height,
            r.top_line == 0,
            r.content_length == 0,
    {
        ScreenArea { top, top_line: 0, visible_height, content_length: 0 }
    }

    fn clamped(v: i64, hi: i32) -> (r: i32)
        ensures
            r == clamp_offset(v as int, hi as int),
    {
        if v < 0 {
            0
        } else if hi < 0 {
            0
        } else if v > hi as i64 {
            hi
        } else {
            v as i32
        }
    }

    fn max_top(&self) -> (r: i32)
        requires
            self.visible_height > 0,
            self.content_length >= 0,
        ensures
            r == self.max_top_line(),
    {
        if self.content_length > self.visible_height {
            self.content_length - self.visible_height
        } else {
            0
        }
    }

    /// Moves the offset by `dy` rows, stopping at either end of the content.
    pub fn try_scroll(&mut self, dy: i32)
        requires
            old(self).wf(),
        ensures
            final(self).wf(),
            final(self).top_line == clamp_offset(
                old(self).top_line + dy,
                old(self).max_top_line(),
            ),
            0 <= final(self).top_line <= final(self).max_top_line(),
            old(self).content_length <= old(self).visible_height ==> final(self).top_line == 0,
            final(self).top == old(self).top,
            final(self).visible_height == old(self).visible_height,
            final(self).content_length == old(self).content_length,
    {
        let hi = self.max_top();
        let v: i64 = self.top_line as i64 + dy as i64;
        self.top_line = ScreenArea::clamped(v, hi);
    }

    /// Records a new content length and brings the offset back into range.
    pub fn set_content_length(&mut self, n: i32)
        requires
            old(self).wf(),
            n >= 0,
        ensures
            final(self).wf(),
            final(self).content_length == n,
            final(self).top_line == clamp_offset(
                old(self).top_line as int,
                final(self).max_top_line(),
            ),
            final(self).top == old(self).top,
            final(self).visible_height == old(self).visible_height,
    {
        self.content_length = n;
        let hi = self.max_top();
        self.top_line = ScreenArea::clamped(self.top_line as i64, hi);
    }
}

} // verus!
