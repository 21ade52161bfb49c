//! Scrolling the output view: the offset from the bottom, following new output, and which
//! lines a view of a given height shows.
use vstd::prelude::*;

verus! {

/// Scroll position of the output view.
#[derive(Clone, Copy, Debug, PartialEq, Eq, Structural)]
pub struct Scroll {
    /// Lines scrolled up from the bottom (0 = latest output).
    pub offset: usize,
    /// Whether new output keeps the view at the bottom.
    pub follow: bool,
}

/// `a - b`, or 0 when that is negative.
pub open spec fn sat_sub(a: int, b: int) -> int {
    if a >= b {
        a - b
    } else {
        0
    }
}

impl Scroll {
    pub fn new(follow: bool) -> (s: Self)
        ensures
            s.offset == 0,
            s.follow == follow,
    {
        Scroll { offset: 0, follow }
    }

    /// Up by `lines`, no further than the top of `display_len` lines in a view of
    /// `view_height`; following stops when there is anything to scroll.
    pub fn up(&mut self, lines: usize, display_len: usize, view_height: usize)
        requires
            old(self).offset + lines <= usize::MAX,
        ensures
            ({
                let max = sat_sub(display_len as int, view_height as int);
                &&& final(self).offset == if old(self).offset + lines <= max {
                    old(self).offset + lines
                } else {
                    max
                }
                &&& final(self).follow == if max > 0 {
                    false
                } else {
                    old(self).follow
                }
            }),
    {
        let max_scroll = if display_len >= view_height {
            display_len - view_height
        } else {
            0
        };
        let wanted = self.offset + lines;
        self.offset = if wanted <= max_scroll {
            wanted
        } else {
            max_scroll
        };
        if max_scroll > 0 {
            self.follow = false;
        }
    }

    /// Down by `lines`, no further than the bottom; reaching it resumes following.
    pub fn down(&mut self, lines: usize)
        ensures
            final(self).offset == sat_sub(old(self).offset as int, lines as int),
            final(self).follow == if final(self).offset == 0 {
                true
            } else {
                old(self).follow
            },
    {
        self.offset = if self.offset >= lines {
            self.offset - lines
        } else {
            0
        };
        if self.offset == 0 {
            self.follow = true;
        }
    }

    /// To the latest output, following it.
    pub fn to_bottom(&mut self)
        ensures
            final(self).offset == 0,
            final(self).follow,
    {
        self.offset = 0;
        self.follow = true;
    }

    /// To the first line.
    pub fn to_top(&mut self, display_len: usize)
        ensures
            final(self).offset == sat_sub(display_len as int, 1),
            !final(self).follow,
    {
        self.offset = if display_len >= 1 {
            display_len - 1
        } else {
            0
        };
        self.follow = false;
    }

    /// So that line `line_index` is the bottom line of the view; nothing when there are no
    /// lines.
    pub fn to_line(&mut self, line_index: usize, total: usize)
        requires
            line_index < usize::MAX,
        ensures
            total == 0 ==> *final(self) == *old(self),
            total > 0 ==> final(self).offset == sat_sub(total as int, line_index + 1),
            total > 0 ==> !final(self).follow,
    {
        if total == 0 {
            return;
        }
        let target = line_index + 1;
        self.offset = if total >= target {
            total - target
        } else {
            0
        };
        self.follow = false;
    }

    /// New output arrived: a following view goes back to the bottom.
    pub fn on_output(&mut self)
        ensures
            final(self).follow == old(self).follow,
            final(self).offset == if old(self).follow {
                0
            } else {
                old(self).offset
            },
    {
        if self.follow {
            self.offset = 0;
        }
    }
}

/// The lines `start..end` a view of `height` shows of `total`, scrolled up by `offset`.
pub open spec fn window(total: int, offset: int, height: int) -> (int, int) {
    let end = sat_sub(total, offset);
    (sat_sub(end, height), end)
}

/// The range of lines shown: ending `offset` lines above the last, at most `height` lines.
pub fn visible_range(total: usize, offset: usize, height: usize) -> (r: (usize, usize))
    ensures
        (r.0 as int, r.1 as int) == window(total as int, offset as int, height as int),
        r.0 <= r.1 <= total,
        r.1 - r.0 <= height,
{
    let end = if total >= offset {
        total - offset
    } else {
        0
    };
    let start = if end >= height {
        end - height
    } else {
        0
    };
    (start, end)
}

/// Scrolling down by what was scrolled up gives back the position, when scrolling up was
/// not stopped by the top.
pub proof fn law_down_undoes_up(offset: usize, lines: usize, display_len: usize, view_height: usize)
    requires
        offset + lines <= sat_sub(display_len as int, view_height as int),
    ensures
        sat_sub(offset + lines, lines as int) == offset,
{
}

/// Scrolling to a line shows it as the view's bottom line, as long as it exists.
pub proof fn law_to_line_shows_line(line_index: int, total: int, height: int)
    requires
        0 <= line_index < total,
        height > 0,
    ensures
        ({
            let (start, end) = window(total, sat_sub(total, line_index + 1), height);
            start <= line_index < end && end == line_index + 1
        }),
{
}

} // verus!
