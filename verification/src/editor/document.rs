pub mod row;

use crate::editor::position::Position;
use crate::text::{clusters, joined, lines_of, split_lines};
use row::Row;
use vstd::prelude::*;

verus! {

/// Every row's cached length is in step with its content.
pub open spec fn rows_wf(rs: Seq<Row>) -> bool {
    forall|i: int| 0 <= i < rs.len() ==> (#[trigger] rs[i]).wf()
}

/// The text of each row, in order.
pub open spec fn rows_content(rs: Seq<Row>) -> Seq<Seq<char>> {
    rs.map_values(|r: Row| r@)
}

/// Splitting the row at `y` and column `x` into two rows: everything
/// before `y` keeps its place, the split halves stand at `y` and `y + 1`,
/// and everything after moves down by one.
pub open spec fn rows_split_at(rs: Seq<Row>, new: Seq<Row>, x: int, y: int) -> bool {
    let cl = clusters(rs[y]@);
    let m = if x <= cl.len() {
        x
    } else {
        cl.len() as int
    };
    &&& new.len() == rs.len() + 1
    &&& new[y]@ == joined(cl, 0, m)
    &&& new[y + 1]@ == joined(cl, m, cl.len() as int)
    &&& new[y]@ + new[y + 1]@ == rs[y]@
    &&& forall|i: int| 0 <= i < y ==> new[i] == rs[i]
    &&& forall|i: int| y + 2 <= i < new.len() ==> new[i] == rs[i - 1]
}

/// Inserting `c` at column `x` of the row at `y`: only that row changes,
/// and it gains exactly that character at that cluster boundary.
pub open spec fn rows_insert_at(rs: Seq<Row>, new: Seq<Row>, x: int, y: int, c: char) -> bool {
    let cl = clusters(rs[y]@);
    let m = if x <= cl.len() {
        x
    } else {
        cl.len() as int
    };
    &&& new.len() == rs.len()
    &&& new[y]@ == joined(cl, 0, m) + seq![c] + joined(cl, m, cl.len() as int)
    &&& forall|i: int| 0 <= i < new.len() && i != y ==> new[i] == rs[i]
}

/// Merging the row at `y + 1` into the row at `y`: the two become one
/// holding their concatenation, and the row count drops by one.
pub open spec fn rows_merge_at(rs: Seq<Row>, new: Seq<Row>, y: int) -> bool {
    &&& new.len() == rs.len() - 1
    &&& new[y]@ == rs[y]@ + rs[y + 1]@
    &&& forall|i: int| 0 <= i < y ==> new[i] == rs[i]
    &&& forall|i: int| y < i < new.len() ==> new[i] == rs[i + 1]
}

/// Deleting the cluster at column `x` of the row at `y`: only that row
/// changes, and it loses exactly that cluster.
pub open spec fn rows_delete_at(rs: Seq<Row>, new: Seq<Row>, x: int, y: int) -> bool {
    let cl = clusters(rs[y]@);
    let n = cl.len() as int;
    let m1 = if x <= cl.len() {
        x
    } else {
        n
    };
    let m2 = if x < cl.len() {
        x + 1
    } else {
        n
    };
    &&& new.len() == rs.len()
    &&& new[y]@ == joined(cl, 0, m1) + joined(cl, m2, n)
    &&& forall|i: int| 0 <= i < new.len() && i != y ==> new[i] == rs[i]
}

/// An ordered collection of rows; never empty.
#[derive(Debug)]
pub struct Document {
    pub rows: Vec<Row>,
}

impl Document {
    /// Every row's cache is sound and there is at least one row.
    pub open spec fn wf(&self) -> bool {
        rows_wf(self.rows@) && self.rows@.len() > 0
    }

    /// Builds a document from text: one row per line, and a single empty
    /// row when the text has none.
    pub fn from_text(text: &str) -> (d: Document)
        ensures
            d.wf(),
            lines_of(text@).len() == 0 ==> rows_content(d.rows@) == seq![Seq::<char>::empty()],
            lines_of(text@).len() > 0 ==> rows_content(d.rows@) == lines_of(text@),
    {
        let parts = split_lines(text);
        let mut rows: Vec<Row> = Vec::new();
        let mut i: usize = 0;
        while i < parts.len()
            invariant
                i <= parts@.len(),
                parts.deep_view() == lines_of(text@),
                rows_content(rows@) == parts.deep_view().subrange(0, i as int),
                rows_wf(rows@),
                rows@.len() == i,
            decreases parts.len() - i,
        {
            let part = parts[i].clone();
            rows.push(Row::new(part));
            proof {
                assert(rows_content(rows@) =~= parts.deep_view().subrange(0, i as int + 1));
            }
            i = i + 1;
        }
        proof {
            assert(parts.deep_view().subrange(0, parts.deep_view().len() as int) =~= parts.deep_view());
        }
        if rows.len() == 0 {
            rows.push(Row::new(String::new()));
            proof {
                assert(rows_content(rows@) =~= seq![Seq::<char>::empty()]);
            }
        }
        Document { rows }
    }

    /// The number of rows; never zero for a well-formed document.
    pub fn len(&self) -> (r: usize)
        ensures
            r == self.rows@.len(),
    {
        self.rows.len()
    }

    /// Splits the row at the position into two, the second half becoming
    /// a new row directly below.
    pub fn newline(&mut self, position: &Position)
        requires
            old(self).wf(),
            position.y < old(self).rows@.len(),
        ensures
            rows_split_at(old(self).rows@, final(self).rows@, position.x as int, position.y as int),
            final(self).wf(),
    {
        let y = position.y;
        let n = self.rows.len();
        proof {
            assert(y < n);
        }
        let mut row = self.rows.remove(y);
        let rest = row.split(position.x);
        self.rows.insert(y, row);
        self.rows.insert(y + 1, rest);
        proof {
            assert(rows_split_at(old(self).rows@, self.rows@, position.x as int, position.y as int));
        }
    }

    /// Inserts a character at the position; a newline character splits
    /// the row instead.
    pub fn insert(&mut self, position: &Position, character: char)
        requires
            old(self).wf(),
            position.y < old(self).rows@.len(),
        ensures
            character == '\n' ==> rows_split_at(
                old(self).rows@,
                final(self).rows@,
                position.x as int,
                position.y as int,
            ),
            character != '\n' ==> rows_insert_at(
                old(self).rows@,
                final(self).rows@,
                position.x as int,
                position.y as int,
                character,
            ),
            final(self).wf(),
    {
        if character == '\n' {
            self.newline(position);
        } else {
            let y = position.y;
            let mut row = self.rows.remove(y);
            row.insert(position.x, character);
            self.rows.insert(y, row);
            proof {
                assert(rows_insert_at(
                    old(self).rows@,
                    self.rows@,
                    position.x as int,
                    position.y as int,
                    character,
                ));
            }
        }
    }

    /// Deletes at the position: at the exact end of a row that has a
    /// successor, the successor is merged onto it; otherwise the cluster
    /// at the column is removed.
    pub fn delete(&mut self, position: &Position)
        requires
            old(self).wf(),
            position.y < old(self).rows@.len(),
        ensures
            ({
                let rs = old(self).rows@;
                let merge = position.x == clusters(rs[position.y as int]@).len() && position.y + 1
                    < rs.len();
                if merge {
                    rows_merge_at(rs, final(self).rows@, position.y as int)
                } else {
                    rows_delete_at(rs, final(self).rows@, position.x as int, position.y as int)
                }
            }),
            final(self).wf(),
    {
        let y = position.y;
        let length = self.rows.len();
        let row_len = self.rows[y].len();
        if position.x == row_len && y + 1 < length {
            let next = self.rows.remove(y + 1);
            let mut row = self.rows.remove(y);
            row.append(next.text());
            self.rows.insert(y, row);
            proof {
                assert(rows_merge_at(old(self).rows@, self.rows@, position.y as int));
            }
        } else {
            let mut row = self.rows.remove(y);
            row.delete(position.x);
            self.rows.insert(y, row);
            proof {
                assert(rows_delete_at(
                    old(self).rows@,
                    self.rows@,
                    position.x as int,
                    position.y as int,
                ));
            }
        }
    }
}

} // verus!
