use super::line::{line_len_at, lines_wf, Line};
use crate::editor::cursor::Direction;
use crate::editor::mode::Mode;
use crate::editor::position::Position;
use crate::editor::utils::{ln_offset, spec_ln_offset};
use crate::size::TermSize;
use vstd::prelude::*;

verus! {

/// The insertion point and the viewport scroll offset over a buffer.
///
/// `step` moves freely within the document; the mode-dependent column
/// clamp is a separate call, `overstep`, which the editor makes after
/// handling each key. The position's line index must reference an
/// existing line whenever an operation reads the current line.
#[derive(Debug)]
pub struct Cursor {
    pub position: Position,
    pub offset: Position,
}

/// Where one free movement step puts the cursor: the requested move,
/// clamped to the document's extent but not yet to the destination
/// line's length.
pub open spec fn spec_step_free(p: Position, d: Direction, ls: Seq<Line>) -> Position {
    let height = ls.len() as int;
    let len0 = line_len_at(ls, p.y as int) as int;
    match d {
        Direction::Stay => p,
        Direction::Up => Position {
            x: p.x,
            y: if p.y > 0 {
                (p.y - 1) as usize
            } else {
                0
            },
        },
        Direction::Down => Position {
            x: p.x,
            y: if (p.y as int) < height - 1 {
                (p.y + 1) as usize
            } else {
                p.y
            },
        },
        Direction::Left => Position {
            x: if p.x > 0 {
                (p.x - 1) as usize
            } else {
                0
            },
            y: p.y,
        },
        Direction::Right => Position {
            x: if (p.x as int) < len0 {
                (p.x + 1) as usize
            } else {
                p.x
            },
            y: p.y,
        },
    }
}

impl Cursor {
    /// A cursor at the origin with an unscrolled viewport.
    pub fn new() -> (c: Cursor)
        ensures
            c.position == (Position { x: 0, y: 0 }),
            c.offset == (Position { x: 0, y: 0 }),
    {
        Cursor { position: Position::origin(), offset: Position::origin() }
    }

    /// The document height and the current line's length.
    pub fn size(&self, lines: &Vec<Line>) -> (r: (usize, usize))
        requires
            lines_wf(lines@),
            self.position.y < lines@.len(),
        ensures
            r.0 == lines@.len(),
            r.1 == line_len_at(lines@, self.position.y as int),
    {
        let height = lines.len();
        let length = lines[self.position.y].len();
        (height, length)
    }

    /// Moves one step in `direction`, clamped to the document's extent.
    /// The column is not yet re-clamped: that is `overstep`'s task.
    pub fn step(&mut self, direction: Direction, lines: &Vec<Line>)
        requires
            lines_wf(lines@),
            old(self).position.y < lines@.len(),
        ensures
            final(self).position == spec_step_free(old(self).position, direction, lines@),
            final(self).offset == old(self).offset,
            final(self).position.y < lines@.len(),
    {
        let (height, length) = self.size(lines);
        match direction {
            Direction::Stay => (),
            Direction::Up => {
                self.position.y = if self.position.y > 0 {
                    self.position.y - 1
                } else {
                    0
                };
            },
            Direction::Down => {
                if self.position.y < height - 1 {
                    self.position.y = self.position.y + 1;
                }
            },
            Direction::Left => {
                self.position.x = if self.position.x > 0 {
                    self.position.x - 1
                } else {
                    0
                };
            },
            Direction::Right => {
                if self.position.x < length {
                    self.position.x = self.position.x + 1;
                }
            },
        }
    }

    /// Clamps the position to the mode's editable bounds: the column may
    /// sit one past the last cluster in insert mode but must sit on a
    /// cluster (or column zero) otherwise, and the line index may not
    /// pass the last line.
    pub fn overstep(&mut self, mode: &Mode, lines: &Vec<Line>)
        requires
            lines_wf(lines@),
            old(self).position.y < lines@.len(),
        ensures
            final(self).offset == old(self).offset,
            ({
                let len = line_len_at(lines@, old(self).position.y as int) as int;
                let bound = if mode is Insert {
                    len
                } else if len > 0 {
                    len - 1
                } else {
                    0
                };
                final(self).position.x == if old(self).position.x > bound {
                    bound
                } else {
                    old(self).position.x as int
                } && final(self).position.x <= bound
            }),
            final(self).position.y == old(self).position.y,
            final(self).position.y < lines@.len(),
    {
        let (height, length) = self.size(lines);
        let height_bound = height - 1;
        let length_bound = if matches!(mode, Mode::Insert) {
            length
        } else {
            if length > 0 {
                length - 1
            } else {
                0
            }
        };
        if self.position.x > length_bound {
            self.position.x = length_bound;
        }
        if self.position.y > height_bound {
            self.position.y = height_bound;
        }
    }

    /// Recomputes the scroll offset so the position stays inside the
    /// viewport; the text area starts after the line-number margin, which
    /// must fit inside the viewport width.
    pub fn scroll(&mut self, size: &TermSize, lines: &Vec<Line>)
        requires
            ({
                let w = if size.width > 0 {
                    (size.width - 1) as int
                } else {
                    0
                };
                spec_ln_offset(lines@.len()) <= w
            }),
        ensures
            final(self).position == old(self).position,
            ({
                let h = if size.height > 0 {
                    (size.height - 1) as int
                } else {
                    0
                };
                let wl = (if size.width > 0 {
                    (size.width - 1) as int
                } else {
                    0
                }) - spec_ln_offset(lines@.len());
                let py = old(self).position.y as int;
                let px = old(self).position.x as int;
                let oy: int = if py > old(self).offset.y + h {
                    py - h
                } else if py < old(self).offset.y {
                    py
                } else {
                    old(self).offset.y as int
                };
                let ox: int = if px > old(self).offset.x + wl {
                    px - wl
                } else if px < old(self).offset.x {
                    px
                } else {
                    old(self).offset.x as int
                };
                final(self).offset.y == oy && final(self).offset.x == ox && oy <= py <= oy + h && ox
                    <= px <= ox + wl
            }),
    {
        let height: usize = if size.height > 0 {
            (size.height - 1) as usize
        } else {
            0
        };
        let width: usize = if size.width > 0 {
            (size.width - 1) as usize
        } else {
            0
        };
        if self.position.y > self.offset.y.saturating_add(height) {
            self.offset.y = self.position.y - height;
        } else if self.position.y < self.offset.y {
            self.offset.y = self.position.y;
        }
        let margin = ln_offset(lines);
        let text_width = width - margin;
        if self.position.x > self.offset.x.saturating_add(text_width) {
            self.offset.x = self.position.x - text_width;
        } else if self.position.x < self.offset.x {
            self.offset.x = self.position.x;
        }
    }

    /// Steps back one column, or to the end of the previous line when
    /// already at column zero.
    pub fn backspace(&mut self, lines: &Vec<Line>)
        requires
            lines_wf(lines@),
            old(self).position.y < lines@.len(),
        ensures
            final(self).offset == old(self).offset,
            final(self).position.y < lines@.len(),
            old(self).position.x > 0 ==> final(self).position == (Position {
                x: (old(self).position.x - 1) as usize,
                y: old(self).position.y,
            }),
            old(self).position.x == 0 && old(self).position.y > 0 ==> final(self).position
                == (Position {
                x: line_len_at(lines@, old(self).position.y - 1) as usize,
                y: (old(self).position.y - 1) as usize,
            }),
            old(self).position.x == 0 && old(self).position.y == 0 ==> final(self).position == old(
                self,
            ).position,
    {
        if self.position.x > 0 {
            self.position.x = self.position.x - 1;
        } else if self.position.y > 0 {
            self.position.y = self.position.y - 1;
            let (_, length) = self.size(lines);
            self.position.x = length;
        }
    }

    /// Jumps to the first line.
    pub fn top(&mut self)
        ensures
            final(self).position == (Position { x: old(self).position.x, y: 0 }),
            final(self).offset == old(self).offset,
    {
        self.position.y = 0;
    }

    /// Jumps to the last line.
    pub fn bottom(&mut self, lines: &Vec<Line>)
        ensures
            final(self).position.x == old(self).position.x,
            final(self).position.y == if lines@.len() > 0 {
                lines@.len() - 1
            } else {
                0
            },
            final(self).offset == old(self).offset,
    {
        self.position.y = if lines.len() > 0 {
            lines.len() - 1
        } else {
            0
        };
    }

    /// Jumps to the first column.
    pub fn start(&mut self)
        ensures
            final(self).position == (Position { x: 0, y: old(self).position.y }),
            final(self).offset == old(self).offset,
    {
        self.position.x = 0;
    }

    /// Jumps to the last cluster of the current line.
    pub fn end(&mut self, lines: &Vec<Line>)
        requires
            lines_wf(lines@),
            old(self).position.y < lines@.len(),
        ensures
            final(self).position.y == old(self).position.y,
            final(self).position.x == ({
                let len = line_len_at(lines@, old(self).position.y as int);
                if len > 0 {
                    (len - 1) as int
                } else {
                    0
                }
            }),
            final(self).offset == old(self).offset,
    {
        let (_, length) = self.size(lines);
        self.position.x = if length > 0 {
            length - 1
        } else {
            0
        };
    }

    /// The escape text addressing the cursor's on-screen cell: its
    /// position relative to the scroll offset, one-based, shifted right
    /// past the line-number margin.
    pub fn goto_text(&self, lines: &Vec<Line>) -> (r: String)
        requires
            self.position.x + 1 + spec_ln_offset(lines@.len()) <= usize::MAX,
            self.position.y < usize::MAX,
        ensures
            ({
                let row = if self.position.y >= self.offset.y {
                    self.position.y - self.offset.y + 1
                } else {
                    1
                };
                let col = (if self.position.x >= self.offset.x {
                    self.position.x - self.offset.x + 1
                } else {
                    1
                }) + spec_ln_offset(lines@.len());
                r@ == crate::escape::cursor::goto_chars(row as nat, col as nat)
            }),
    {
        let row = self.position.y.saturating_sub(self.offset.y).saturating_add(1);
        let col = self.position.x.saturating_sub(self.offset.x).saturating_add(1);
        let margin = ln_offset(lines);
        crate::escape::cursor::Goto(row, col + margin).text()
    }

    /// Scrolls so the current line sits in the middle of the viewport.
    pub fn center(&mut self, size: &TermSize)
        ensures
            final(self).position == old(self).position,
            final(self).offset.x == old(self).offset.x,
            final(self).offset.y == if old(self).position.y >= (size.height as int) / 2 {
                old(self).position.y - (size.height as int) / 2
            } else {
                0
            },
    {
        let half = (size.height as usize) / 2;
        self.offset.y = if self.position.y >= half {
            self.position.y - half
        } else {
            0
        };
    }
}

} // verus!
