use crate::text::{byte_slice, char_to_string, clusters, join_clusters, joined,
    lemma_flatten_split, split_clusters};
use vstd::prelude::*;
use vstd::string::{StrSliceExecFns, StringExecFns, StringSliceAdditionalSpecFns};
use vstd::utf8::{encode_utf8, is_char_boundary};

verus! {

/// One line of a document, with a cached count of its character clusters.
/// Lengths and columns are measured in clusters, never bytes; the cache
/// must always match the current content.
#[derive(Debug)]
pub struct Row {
    buffer: String,
    length: usize,
}

impl View for Row {
    type V = Seq<char>;

    closed spec fn view(&self) -> Seq<char> {
        self.buffer@
    }
}

impl Row {
    /// The cached cluster count.
    pub closed spec fn spec_len(&self) -> nat {
        self.length as nat
    }

    /// The cache is in step with the content.
    pub open spec fn wf(&self) -> bool {
        self.spec_len() == clusters(self@).len()
    }

    /// Wraps `buffer` as a row, counting its clusters.
    pub fn new(buffer: String) -> (r: Row)
        ensures
            r@ == buffer@,
            r.wf(),
    {
        let cl = split_clusters(buffer.as_str());
        let length = cl.len();
        Row { buffer, length }
    }

    /// The row's text.
    pub fn text(&self) -> (r: &str)
        ensures
            r@ == self@,
    {
        self.buffer.as_str()
    }

    /// The display slice between byte offsets `start` and `end`, both
    /// clamped to the content: `end` to the byte length, `start` to `end`.
    /// The clamped offsets must fall on character boundaries.
    pub fn render(&self, start: usize, end: usize) -> (r: &str)
        requires
            encode_utf8(self@).len() <= usize::MAX,
            ({
                let bytes = encode_utf8(self@);
                let e = if end <= bytes.len() {
                    end as int
                } else {
                    bytes.len() as int
                };
                let s2 = if start as int <= e {
                    start as int
                } else {
                    e
                };
                is_char_boundary(bytes, e) && is_char_boundary(bytes, s2)
            }),
        ensures
            ({
                let bytes = encode_utf8(self@);
                let e = if end <= bytes.len() {
                    end as int
                } else {
                    bytes.len() as int
                };
                let s2 = if start as int <= e {
                    start as int
                } else {
                    e
                };
                r@ == byte_slice(self@, s2, e)
            }),
    {
        let st = self.buffer.as_str();
        let blen = st.len();
        let end2 = if end <= blen {
            end
        } else {
            blen
        };
        let start2 = if start <= end2 {
            start
        } else {
            end2
        };
        let ghost bytes = encode_utf8(self@);
        proof {
            assert(st.spec_bytes() == bytes);
            vstd::utf8::encode_utf8_valid_utf8(self@);
            assert(is_char_boundary(bytes, end2 as int));
        }
        let (head, _tail) = st.split_at(end2);
        proof {
            assert(head.spec_bytes() =~= bytes.subrange(0, end2 as int));
            vstd::utf8::valid_utf8_split(bytes, end2 as int);
            if start2 < end2 {
                assert(head.spec_bytes()[start2 as int] == bytes[start2 as int]);
                vstd::utf8::is_char_boundary_iff_not_is_continuation_byte(bytes, start2 as int);
                vstd::utf8::is_char_boundary_iff_not_is_continuation_byte(
                    head.spec_bytes(),
                    start2 as int,
                );
            } else {
                vstd::utf8::is_char_boundary_start_end_of_seq(head.spec_bytes());
            }
            assert(is_char_boundary(head.spec_bytes(), start2 as int));
        }
        let (_skipped, mid) = head.split_at(start2);
        proof {
            assert(mid.spec_bytes() =~= bytes.subrange(start2 as int, end2 as int));
            vstd::utf8::encode_utf8_decode_utf8(mid@);
            assert(mid@ == byte_slice(self@, start2 as int, end2 as int));
        }
        mid
    }

    /// The row's length in character clusters.
    pub fn len(&self) -> (r: usize)
        requires
            self.wf(),
        ensures
            r == clusters(self@).len(),
            r == self.spec_len(),
    {
        self.length
    }

    /// Recounts the clusters of the current content.
    pub fn update(&mut self)
        ensures
            final(self)@ == old(self)@,
            final(self).wf(),
    {
        let cl = split_clusters(self.buffer.as_str());
        self.length = cl.len();
    }

    /// Concatenates `buffer` onto the end and recounts.
    pub fn append(&mut self, buffer: &str)
        ensures
            final(self)@ == old(self)@ + buffer@,
            final(self).wf(),
    {
        self.buffer.append(buffer);
        self.update();
    }

    /// Truncates the row to the clusters before column `x`, in place, and
    /// returns a new row holding the clusters from `x` on.
    pub fn split(&mut self, x: usize) -> (rest: Row)
        ensures
            ({
                let cl = clusters(old(self)@);
                let m = if x <= cl.len() {
                    x as int
                } else {
                    cl.len() as int
                };
                final(self)@ == joined(cl, 0, m) && rest@ == joined(cl, m, cl.len() as int)
            }),
            final(self)@ + rest@ == old(self)@,
            final(self).wf(),
            rest.wf(),
    {
        let cl = split_clusters(self.buffer.as_str());
        let n = cl.len();
        let m = if x <= n {
            x
        } else {
            n
        };
        let pre = join_clusters(&cl, 0, m);
        let suf = join_clusters(&cl, m, n);
        proof {
            lemma_flatten_split(cl.deep_view(), m as int);
        }
        self.buffer = pre;
        self.update();
        Row::new(suf)
    }

    /// Splits the content at the cluster boundary for column `x`, inserts
    /// `character` between the halves, and recounts.
    pub fn insert(&mut self, x: usize, character: char)
        ensures
            ({
                let cl = clusters(old(self)@);
                let m = if x <= cl.len() {
                    x as int
                } else {
                    cl.len() as int
                };
                final(self)@ == joined(cl, 0, m) + seq![character] + joined(
                    cl,
                    m,
                    cl.len() as int,
                )
            }),
            final(self).wf(),
    {
        let cl = split_clusters(self.buffer.as_str());
        let n = cl.len();
        let m = if x <= n {
            x
        } else {
            n
        };
        let mut pre = join_clusters(&cl, 0, m);
        let suf = join_clusters(&cl, m, n);
        let cs = char_to_string(character);
        pre.append(cs.as_str());
        pre.append(suf.as_str());
        self.buffer = pre;
        self.update();
    }

    /// Removes the cluster at column `x` and recounts. An out-of-range
    /// column removes nothing.
    pub fn delete(&mut self, x: usize)
        ensures
            ({
                let cl = clusters(old(self)@);
                let n = cl.len() as int;
                let m1 = if x <= cl.len() {
                    x as int
                } else {
                    n
                };
                let m2 = if x < cl.len() {
                    x + 1
                } else {
                    n
                };
                final(self)@ == joined(cl, 0, m1) + joined(cl, m2, n)
            }),
            final(self).wf(),
    {
        let cl = split_clusters(self.buffer.as_str());
        let n = cl.len();
        let m1 = if x <= n {
            x
        } else {
            n
        };
        let m2 = if x < n {
            x + 1
        } else {
            n
        };
        let mut pre = join_clusters(&cl, 0, m1);
        let suf = join_clusters(&cl, m2, n);
        pre.append(suf.as_str());
        self.buffer = pre;
        self.update();
    }
}

} // verus!
