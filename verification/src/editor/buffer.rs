pub mod cursor;
pub mod line;

use crate::text::{clusters, joined, lines_of, split_lines};
use cursor::Cursor;
use line::{lines_wf, Line};
use vstd::prelude::*;
use vstd::utf8::encode_utf8;

verus! {

/// The text of each line, in order.
pub open spec fn lines_content(ls: Seq<Line>) -> Seq<Seq<char>> {
    ls.map_values(|l: Line| l@)
}

/// Splitting the line at `y` and column `x` into two lines: everything
/// before `y` keeps its place, the split halves stand at `y` and `y + 1`,
/// and everything after moves down by one.
pub open spec fn lines_split_at(ls: Seq<Line>, new: Seq<Line>, x: int, y: int) -> bool {
    let cl = clusters(ls[y]@);
    let m = if x <= cl.len() {
        x
    } else {
        cl.len() as int
    };
    &&& new.len() == ls.len() + 1
    &&& new[y]@ == joined(cl, 0, m)
    &&& new[y + 1]@ == joined(cl, m, cl.len() as int)
    &&& new[y]@ + new[y + 1]@ == ls[y]@
    &&& forall|i: int| 0 <= i < y ==> new[i] == ls[i]
    &&& forall|i: int| y + 2 <= i < new.len() ==> new[i] == ls[i - 1]
}

/// Inserting `c` at column `x` of the line at `y`: only that line
/// changes, and it gains exactly that character at that cluster boundary.
pub open spec fn lines_insert_at(ls: Seq<Line>, new: Seq<Line>, x: int, y: int, c: char) -> bool {
    let cl = clusters(ls[y]@);
    let m = if x <= cl.len() {
        x
    } else {
        cl.len() as int
    };
    &&& new.len() == ls.len()
    &&& new[y]@ == joined(cl, 0, m) + seq![c] + joined(cl, m, cl.len() as int)
    &&& forall|i: int| 0 <= i < new.len() && i != y ==> new[i] == ls[i]
}

/// Merging the line at `y + 1` into the line at `y`.
pub open spec fn lines_merge_at(ls: Seq<Line>, new: Seq<Line>, y: int) -> bool {
    &&& new.len() == ls.len() - 1
    &&& new[y]@ == ls[y]@ + ls[y + 1]@
    &&& forall|i: int| 0 <= i < y ==> new[i] == ls[i]
    &&& forall|i: int| y < i < new.len() ==> new[i] == ls[i + 1]
}

/// Deleting the cluster at column `x` of the line at `y`.
pub open spec fn lines_delete_at(ls: Seq<Line>, new: Seq<Line>, x: int, y: int) -> bool {
    let cl = clusters(ls[y]@);
    let n = cl.len() as int;
    let m1 = if x <= cl.len() {
        x
    } else {
        n
    };
    let m2 = if x < cl.len() {
        x + 1
    } else {
        n
    };
    &&& new.len() == ls.len()
    &&& new[y]@ == joined(cl, 0, m1) + joined(cl, m2, n)
    &&& forall|i: int| 0 <= i < new.len() && i != y ==> new[i] == ls[i]
}

/// The bytes a buffer persists as: each line's UTF-8 bytes followed by
/// one newline byte, the last line included.
pub open spec fn serialized(ls: Seq<Line>) -> Seq<u8> {
    ls.map_values(|l: Line| encode_utf8(l@).push(10u8)).flatten()
}

/// An editable text buffer: its lines and the cursor over them.
/// The line collection is never empty.
pub struct Buffer {
    pub cursor: Cursor,
    pub lines: Vec<Line>,
}

impl Buffer {
    /// Every line's cache is sound and there is at least one line.
    pub open spec fn wf(&self) -> bool {
        lines_wf(self.lines@) && self.lines@.len() > 0
    }

    /// Builds a buffer from text: one line per text line, a single empty
    /// line when the text has none, and the cursor at the origin.
    pub fn from_text(text: &str) -> (b: Buffer)
        ensures
            b.wf(),
            lines_of(text@).len() == 0 ==> lines_content(b.lines@) == seq![Seq::<char>::empty()],
            lines_of(text@).len() > 0 ==> lines_content(b.lines@) == lines_of(text@),
            b.cursor.position == (crate::editor::position::Position { x: 0, y: 0 }),
            b.cursor.offset == (crate::editor::position::Position { x: 0, y: 0 }),
    {
        let parts = split_lines(text);
        let mut lines: Vec<Line> = Vec::new();
        let mut i: usize = 0;
        while i < parts.len()
            invariant
                i <= parts@.len(),
                parts.deep_view() == lines_of(text@),
                lines_content(lines@) == parts.deep_view().subrange(0, i as int),
                lines_wf(lines@),
                lines@.len() == i,
            decreases parts.len() - i,
        {
            let part = parts[i].clone();
            lines.push(Line::new(part));
            proof {
                assert(lines_content(lines@) =~= parts.deep_view().subrange(0, i as int + 1));
            }
            i = i + 1;
        }
        proof {
            assert(parts.deep_view().subrange(0, parts.deep_view().len() as int)
                =~= parts.deep_view());
        }
        if lines.len() == 0 {
            lines.push(Line::new(String::new()));
            proof {
                assert(lines_content(lines@) =~= seq![Seq::<char>::empty()]);
            }
        }
        Buffer { cursor: Cursor::new(), lines }
    }

    /// The lines, for reading.
    pub fn data(&self) -> (r: &Vec<Line>)
        ensures
            r@ == self.lines@,
    {
        &self.lines
    }

    /// Splits the line under the cursor at the cursor column, the second
    /// half becoming a new line directly below. Does nothing when the
    /// cursor is past the last line.
    pub fn newline(&mut self)
        requires
            old(self).wf(),
        ensures
            old(self).cursor.position.y < old(self).lines@.len() ==> lines_split_at(
                old(self).lines@,
                final(self).lines@,
                old(self).cursor.position.x as int,
                old(self).cursor.position.y as int,
            ),
            old(self).cursor.position.y >= old(self).lines@.len() ==> final(self).lines@ == old(
                self,
            ).lines@,
            final(self).cursor == old(self).cursor,
            final(self).wf(),
    {
        let y = self.cursor.position.y;
        let n = self.lines.len();
        if y < n {
            let mut line = self.lines.remove(y);
            let rest = line.split(self.cursor.position.x);
            self.lines.insert(y, line);
            self.lines.insert(y + 1, rest);
            proof {
                assert(lines_split_at(
                    old(self).lines@,
                    self.lines@,
                    old(self).cursor.position.x as int,
                    old(self).cursor.position.y as int,
                ));
            }
        }
    }

    /// Inserts a character at the cursor; a newline character splits the
    /// line instead. Does nothing when the cursor is past the last line.
    pub fn insert(&mut self, character: char)
        requires
            old(self).wf(),
        ensures
            character == '\n' && old(self).cursor.position.y < old(self).lines@.len()
                ==> lines_split_at(
                old(self).lines@,
                final(self).lines@,
                old(self).cursor.position.x as int,
                old(self).cursor.position.y as int,
            ),
            character != '\n' && old(self).cursor.position.y < old(self).lines@.len()
                ==> lines_insert_at(
                old(self).lines@,
                final(self).lines@,
                old(self).cursor.position.x as int,
                old(self).cursor.position.y as int,
                character,
            ),
            old(self).cursor.position.y >= old(self).lines@.len() ==> final(self).lines@ == old(
                self,
            ).lines@,
            final(self).cursor == old(self).cursor,
            final(self).wf(),
    {
        if character == '\n' {
            self.newline();
        } else {
            let y = self.cursor.position.y;
            let n = self.lines.len();
            if y < n {
                let mut line = self.lines.remove(y);
                line.insert(self.cursor.position.x, character);
                self.lines.insert(y, line);
                proof {
                    assert(lines_insert_at(
                        old(self).lines@,
                        self.lines@,
                        old(self).cursor.position.x as int,
                        old(self).cursor.position.y as int,
                        character,
                    ));
                }
            }
        }
    }

    /// Deletes at the cursor: at the exact end of a line that has a
    /// successor, the successor is merged onto it; otherwise the cluster
    /// at the cursor column is removed. Does nothing when the cursor is
    /// past the last line.
    pub fn delete(&mut self)
        requires
            old(self).wf(),
        ensures
            ({
                let ls = old(self).lines@;
                let x = old(self).cursor.position.x as int;
                let y = old(self).cursor.position.y as int;
                if y < ls.len() {
                    if x == clusters(ls[y]@).len() && y + 1 < ls.len() {
                        lines_merge_at(ls, final(self).lines@, y)
                    } else {
                        lines_delete_at(ls, final(self).lines@, x, y)
                    }
                } else {
                    final(self).lines@ == ls
                }
            }),
            final(self).cursor == old(self).cursor,
            final(self).wf(),
    {
        let y = self.cursor.position.y;
        let length = self.lines.len();
        if y < length {
            let line_len = self.lines[y].len();
            if self.cursor.position.x == line_len && y + 1 < length {
                let next = self.lines.remove(y + 1);
                let mut line = self.lines.remove(y);
                line.append(next.text());
                self.lines.insert(y, line);
                proof {
                    assert(lines_merge_at(
                        old(self).lines@,
                        self.lines@,
                        old(self).cursor.position.y as int,
                    ));
                }
            } else {
                let mut line = self.lines.remove(y);
                line.delete(self.cursor.position.x);
                self.lines.insert(y, line);
                proof {
                    assert(lines_delete_at(
                        old(self).lines@,
                        self.lines@,
                        old(self).cursor.position.x as int,
                        old(self).cursor.position.y as int,
                    ));
                }
            }
        }
    }

    /// The bytes to persist: every line followed by a single newline
    /// byte, the last included.
    pub fn data_bytes(&self) -> (r: Vec<u8>)
        ensures
            r@ == serialized(self.lines@),
    {
        let mut out: Vec<u8> = Vec::new();
        let mut i: usize = 0;
        proof {
            assert(self.lines@.subrange(0, 0).map_values(
                |l: Line| encode_utf8(l@).push(10u8),
            ).flatten() =~= Seq::<u8>::empty());
            vstd::seq::Seq::<Seq<u8>>::empty().lemma_flatten_one_element();
            assert(self.lines@.subrange(0, 0).map_values(|l: Line| encode_utf8(l@).push(10u8))
                =~= Seq::<Seq<u8>>::empty());
            assert(Seq::<Seq<u8>>::empty().flatten() =~= Seq::<u8>::empty());
        }
        while i < self.lines.len()
            invariant
                i <= self.lines@.len(),
                out@ == self.lines@.subrange(0, i as int).map_values(
                    |l: Line| encode_utf8(l@).push(10u8),
                ).flatten(),
            decreases self.lines@.len() - i,
        {
            let ghost pre = self.lines@.subrange(0, i as int).map_values(
                |l: Line| encode_utf8(l@).push(10u8),
            );
            let bytes = self.lines[i].as_bytes();
            let mut chunk: Vec<u8> = Vec::new();
            chunk.extend_from_slice(bytes);
            chunk.push(10u8);
            proof {
                assert(chunk@ =~= encode_utf8(self.lines@[i as int]@).push(10u8));
            }
            out.append(&mut chunk);
            proof {
                pre.lemma_flatten_push(encode_utf8(self.lines@[i as int]@).push(10u8));
                assert(self.lines@.subrange(0, i as int + 1).map_values(
                    |l: Line| encode_utf8(l@).push(10u8),
                ) =~= pre.push(encode_utf8(self.lines@[i as int]@).push(10u8)));
            }
            i = i + 1;
        }
        proof {
            assert(self.lines@.subrange(0, self.lines@.len() as int) =~= self.lines@);
        }
        out
    }
}

} // verus!
