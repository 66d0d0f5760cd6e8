//! Cursor arithmetic for the text buffer, relative to the parent element.
//!
//! The buffer itself lives outside this crate; each movement takes the line
//! metrics it depends on as plain values: `line_last` is the last valid
//! cursor position of the relevant line (right before any trailing line
//! break), `len_lines` the number of lines of the buffer (at least one).

use vstd::prelude::*;

verus! {

/// Cursor with position, relative to the parent element.
#[derive(Clone, Copy, PartialEq, Eq, Structural, Debug)]
pub struct Cursor {
    pub x: usize,
    pub y: usize,
    /// Memorized preferred x position when moving up and down; resets when
    /// moving laterally.
    pub preferred_x: usize,
}

impl Default for Cursor {
    /// The cursor at the origin.
    fn default() -> (r: Cursor)
        ensures
            r == (Cursor { x: 0, y: 0, preferred_x: 0 }),
    {
        Cursor { x: 0, y: 0, preferred_x: 0 }
    }
}

impl Cursor {
    /// The on-screen position of the cursor.
    pub fn position(&self) -> (r: (usize, usize))
        ensures
            r == (self.x, self.y),
    {
        (self.x, self.y)
    }

    /// Moves one column left, or to the end of the previous line when
    /// already at the start of one; `prev_line_last` is the last valid
    /// position of the line above (ignored on the first line).
    pub fn move_left(&mut self, prev_line_last: usize)
        ensures
            old(self).x > 0 ==> *final(self) == (Cursor {
                x: (old(self).x - 1) as usize,
                y: old(self).y,
                preferred_x: (old(self).x - 1) as usize,
            }),
            old(self).x == 0 && old(self).y > 0 ==> *final(self) == (Cursor {
                x: prev_line_last,
                y: (old(self).y - 1) as usize,
                preferred_x: prev_line_last,
            }),
            old(self).x == 0 && old(self).y == 0 ==> *final(self) == *old(self),
    {
        if self.x > 0 {
            self.x = self.x - 1;
            self.preferred_x = self.x;
        } else if self.y > 0 {
            self.y = self.y - 1;
            self.move_line_end(prev_line_last);
        }
    }

    /// Moves one column right, or to the start of the next line when at the
    /// end of one; `line_last` is the last valid position of the current
    /// line.
    pub fn move_right(&mut self, line_last: usize, len_lines: usize)
        requires
            len_lines >= 1,
        ensures
            old(self).x < line_last ==> *final(self) == (Cursor {
                x: (old(self).x + 1) as usize,
                y: old(self).y,
                preferred_x: (old(self).x + 1) as usize,
            }),
            old(self).x >= line_last && old(self).y < len_lines - 1 ==> *final(self) == (Cursor {
                x: 0,
                y: (old(self).y + 1) as usize,
                preferred_x: 0,
            }),
            old(self).x >= line_last && old(self).y >= len_lines - 1 ==> *final(self) == (Cursor {
                x: old(self).x,
                y: old(self).y,
                preferred_x: old(self).x,
            }),
    {
        if self.x < line_last {
            self.x = self.x + 1;
        } else if self.y < len_lines - 1 {
            self.y = self.y + 1;
            self.x = 0;
        }
        self.preferred_x = self.x;
    }

    /// Moves one line up, clamping x to the destination line's last valid
    /// position while keeping the preferred column.
    pub fn move_up(&mut self, dest_line_last: usize)
        ensures
            old(self).y > 0 ==> *final(self) == (Cursor {
                x: if old(self).preferred_x <= dest_line_last {
                    old(self).preferred_x
                } else {
                    dest_line_last
                },
                y: (old(self).y - 1) as usize,
                preferred_x: old(self).preferred_x,
            }),
            old(self).y == 0 ==> *final(self) == *old(self),
    {
        if self.y > 0 {
            self.y = self.y - 1;
            self.move_to_preferred_x(dest_line_last);
        }
    }

    /// Moves one line down, clamping x to the destination line's last valid
    /// position while keeping the preferred column.
    pub fn move_down(&mut self, dest_line_last: usize, len_lines: usize)
        requires
            len_lines >= 1,
        ensures
            old(self).y < len_lines - 1 ==> *final(self) == (Cursor {
                x: if old(self).preferred_x <= dest_line_last {
                    old(self).preferred_x
                } else {
                    dest_line_last
                },
                y: (old(self).y + 1) as usize,
                preferred_x: old(self).preferred_x,
            }),
            old(self).y >= len_lines - 1 ==> *final(self) == *old(self),
    {
        if self.y < len_lines - 1 {
            self.y = self.y + 1;
            self.move_to_preferred_x(dest_line_last);
        }
    }

    /// Moves to the last valid position of the current line.
    pub fn move_line_end(&mut self, line_last: usize)
        ensures
            *final(self) == (Cursor { x: line_last, y: old(self).y, preferred_x: line_last }),
    {
        self.x = line_last;
        self.preferred_x = self.x;
    }

    /// Moves to the start of the current line.
    pub fn move_line_start(&mut self)
        ensures
            *final(self) == (Cursor { x: 0, y: old(self).y, preferred_x: 0 }),
    {
        self.x = 0;
        self.preferred_x = 0;
    }

    /// Sets the cursor position (from a click): the line is clamped to the
    /// buffer, the column to `dest_line_last`, the last valid position of
    /// the clamped line.
    pub fn set_position(&mut self, x: usize, y: usize, dest_line_last: usize, len_lines: usize)
        requires
            len_lines >= 1,
        ensures
            y >= len_lines ==> *final(self) == (Cursor {
                x: dest_line_last,
                y: (len_lines - 1) as usize,
                preferred_x: dest_line_last,
            }),
            y < len_lines ==> *final(self) == (Cursor {
                x: if x <= dest_line_last {
                    x
                } else {
                    dest_line_last
                },
                y,
                preferred_x: if x <= dest_line_last {
                    x
                } else {
                    dest_line_last
                },
            }),
    {
        if y >= len_lines {
            self.y = len_lines - 1;
            self.move_line_end(dest_line_last);
        } else {
            self.y = y;
            self.x = if x <= dest_line_last {
                x
            } else {
                dest_line_last
            };
            self.preferred_x = self.x;
        }
    }

    /// Restores the preferred column, clamped to the line's last valid
    /// position.
    fn move_to_preferred_x(&mut self, line_last: usize)
        ensures
            *final(self) == (Cursor {
                x: if old(self).preferred_x <= line_last {
                    old(self).preferred_x
                } else {
                    line_last
                },
                y: old(self).y,
                preferred_x: old(self).preferred_x,
            }),
    {
        self.x = if self.preferred_x <= line_last {
            self.preferred_x
        } else {
            line_last
        };
    }
}

} // verus!
