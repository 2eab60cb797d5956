pub mod direction;

use super::buffer::line::{line_len_at, lines_wf, Line};
use super::position::Position;
use crate::size::TermSize;
use vstd::prelude::*;

pub use direction::Direction;

verus! {

/// The insertion point and the viewport scroll offset over a document.
/// Every movement re-clamps the column to the current line, so the
/// position never leaves the text.
#[derive(Debug)]
pub struct Cursor {
    pub position: Position,
    pub offset: Position,
}

/// Where one movement step puts the cursor: the requested move, clamped
/// to the document on both axes, and the column then re-clamped to the
/// destination line's length.
pub open spec fn spec_step(p: Position, d: Direction, ls: Seq<Line>) -> Position {
    let height = ls.len() as int;
    let len0 = line_len_at(ls, p.y as int) as int;
    let y1: int = match d {
        Direction::Up => if p.y > 0 {
            p.y - 1
        } else {
            0
        },
        Direction::Down => if (p.y as int) < height - 1 {
            p.y + 1
        } else {
            p.y as int
        },
        _ => p.y as int,
    };
    let x1: int = match d {
        Direction::Left => if p.x > 0 {
            p.x - 1
        } else {
            0
        },
        Direction::Right => if (p.x as int) < len0 {
            p.x + 1
        } else {
            p.x as int
        },
        _ => p.x as int,
    };
    let bound = line_len_at(ls, y1) as int;
    let x2 = if x1 > bound {
        bound
    } else {
        x1
    };
    Position { x: x2 as usize, y: y1 as usize }
}

impl Cursor {
    /// A cursor at the origin with an unscrolled viewport.
    pub fn new() -> (c: Cursor)
        ensures
            c.position == (Position { x: 0, y: 0 }),
            c.offset == (Position { x: 0, y: 0 }),
    {
        Cursor { position: Position::origin(), offset: Position::origin() }
    }

    /// The document height and the current line's length; a position on
    /// no line counts as length zero.
    pub fn size(&self, lines: &Vec<Line>) -> (r: (usize, usize))
        requires
            lines_wf(lines@),
        ensures
            r.0 == lines@.len(),
            r.1 == line_len_at(lines@, self.position.y as int),
    {
        let height = lines.len();
        let length = if self.position.y < lines.len() {
            lines[self.position.y].len()
        } else {
            0
        };
        (height, length)
    }

    /// Moves one step in `direction`, clamped to the document, then
    /// re-clamps the column to the destination line.
    pub fn step(&mut self, direction: Direction, lines: &Vec<Line>)
        requires
            lines_wf(lines@),
        ensures
            final(self).position == spec_step(old(self).position, direction, lines@),
            final(self).offset == old(self).offset,
    {
        let (height, length) = self.size(lines);
        match direction {
            Direction::Stay => (),
            Direction::Up => {
                self.position.y = if self.position.y > 0 {
                    self.position.y - 1
                } else {
                    0
                };
            },
            Direction::Down => {
                if height > 0 && self.position.y < height - 1 {
                    self.position.y = self.position.y + 1;
                }
            },
            Direction::Left => {
                self.position.x = if self.position.x > 0 {
                    self.position.x - 1
                } else {
                    0
                };
            },
            Direction::Right => {
                if self.position.x < length {
                    self.position.x = self.position.x + 1;
                }
            },
        }
        self.overstep(lines);
    }

    /// Clamps the column down to the current line's length.
    pub fn overstep(&mut self, lines: &Vec<Line>)
        requires
            lines_wf(lines@),
        ensures
            final(self).position.y == old(self).position.y,
            final(self).offset == old(self).offset,
            final(self).position.x == if old(self).position.x as int > line_len_at(
                lines@,
                old(self).position.y as int,
            ) as int {
                line_len_at(lines@, old(self).position.y as int) as int
            } else {
                old(self).position.x as int
            },
            final(self).position.x <= line_len_at(lines@, old(self).position.y as int),
    {
        let (_, length) = self.size(lines);
        if self.position.x > length {
            self.position.x = length;
        }
    }

    /// Recomputes the scroll offset so the position stays inside the
    /// viewport: after the call the position lies between the offset and
    /// the offset plus the viewport extent, on both axes.
    pub fn scroll(&mut self, size: &TermSize)
        ensures
            final(self).position == old(self).position,
            ({
                let h = if size.height > 0 {
                    size.height - 1
                } else {
                    0
                };
                let w = if size.width > 0 {
                    size.width - 1
                } else {
                    0
                };
                let py = old(self).position.y as int;
                let px = old(self).position.x as int;
                let oy1: int = if py > old(self).offset.y + h {
                    py - h
                } else {
                    old(self).offset.y as int
                };
                let oy2: int = if py < oy1 {
                    py
                } else {
                    oy1
                };
                let ox1: int = if px > old(self).offset.x + w {
                    px - w
                } else {
                    old(self).offset.x as int
                };
                let ox2: int = if px < ox1 {
                    px
                } else {
                    ox1
                };
                final(self).offset.y == oy2 && final(self).offset.x == ox2 && oy2 <= py <= oy2 + h
                    && ox2 <= px <= ox2 + w
            }),
    {
        let height: u16 = if size.height > 0 {
            size.height - 1
        } else {
            0
        };
        let width: u16 = if size.width > 0 {
            size.width - 1
        } else {
            0
        };
        let h = height as usize;
        let w = width as usize;
        if self.position.y > self.offset.y.saturating_add(h) {
            self.offset.y = self.position.y - h;
        }
        if self.position.y < self.offset.y {
            self.offset.y = self.position.y;
        }
        if self.position.x > self.offset.x.saturating_add(w) {
            self.offset.x = self.position.x - w;
        }
        if self.position.x < self.offset.x {
            self.offset.x = self.position.x;
        }
    }

    /// Steps back one column, or to the end of the previous line when
    /// already at column zero.
    pub fn backspace(&mut self, lines: &Vec<Line>)
        requires
            lines_wf(lines@),
        ensures
            final(self).offset == old(self).offset,
            old(self).position.x > 0 ==> final(self).position == (Position {
                x: (old(self).position.x - 1) as usize,
                y: old(self).position.y,
            }),
            old(self).position.x == 0 && old(self).position.y > 0 ==> final(self).position
                == (Position {
                x: line_len_at(lines@, old(self).position.y - 1) as usize,
                y: (old(self).position.y - 1) as usize,
            }),
            old(self).position.x == 0 && old(self).position.y == 0 ==> final(self).position == old(
                self,
            ).position,
    {
        if self.position.x > 0 {
            self.position.x = self.position.x - 1;
        } else if self.position.y > 0 {
            self.position.y = self.position.y - 1;
            let (_, length) = self.size(lines);
            self.position.x = length;
        }
    }
}

} // verus!
