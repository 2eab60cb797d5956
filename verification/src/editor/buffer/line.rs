use crate::escape::CSI;
use crate::text::{char_to_string, clusters, join_clusters, joined, lemma_flatten_split,
    split_clusters};
use vstd::prelude::*;
use vstd::string::{StrSliceExecFns, StringExecFns, StringSliceAdditionalSpecFns};

verus! {

/// The smallest editable text unit: a line of text with a cached count of
/// its character clusters.
///
/// Lengths and columns are measured in character clusters, never bytes.
/// The cache must always match the cluster count of the current content,
/// so every mutation recomputes it.
pub struct Line {
    pub highlights: Option<Vec<CSI>>,
    data: String,
    length: usize,
}

impl Line {
    /// The saved highlight escapes, if any.
    pub closed spec fn spec_highlights(&self) -> Option<Vec<CSI>> {
        self.highlights
    }
}

impl View for Line {
    type V = Seq<char>;

    closed spec fn view(&self) -> Seq<char> {
        self.data@
    }
}

impl Line {
    /// The cached cluster count.
    pub closed spec fn spec_len(&self) -> nat {
        self.length as nat
    }

    /// The cache is in step with the content: the invariant every
    /// constructor establishes and every mutation restores.
    pub open spec fn wf(&self) -> bool {
        self.spec_len() == clusters(self@).len()
    }

    /// Wraps `data` as a line, counting its clusters.
    pub fn new(data: String) -> (l: Line)
        ensures
            l@ == data@,
            l.wf(),
            l.spec_highlights() is None,
    {
        let cl = split_clusters(data.as_str());
        let length = cl.len();
        Line { data, length, highlights: None }
    }

    /// The line's text.
    pub fn text(&self) -> (r: &str)
        ensures
            r@ == self@,
    {
        self.data.as_str()
    }

    /// The display slice between byte offsets `start` and `end`, both
    /// clamped to the content (`end` to the byte length, `start` to
    /// `end`), with tabs turned into spaces. The clamped offsets must fall
    /// on character boundaries.
    pub fn render(&self, start: usize, end: usize) -> (r: String)
        requires
            vstd::utf8::encode_utf8(self@).len() <= usize::MAX,
            ({
                let bytes = vstd::utf8::encode_utf8(self@);
                let e = if end <= bytes.len() {
                    end as int
                } else {
                    bytes.len() as int
                };
                let s2 = if start as int <= e {
                    start as int
                } else {
                    e
                };
                vstd::utf8::is_char_boundary(bytes, e) && vstd::utf8::is_char_boundary(bytes, s2)
            }),
        ensures
            ({
                let bytes = vstd::utf8::encode_utf8(self@);
                let e = if end <= bytes.len() {
                    end as int
                } else {
                    bytes.len() as int
                };
                let s2 = if start as int <= e {
                    start as int
                } else {
                    e
                };
                r@ == crate::text::tab_spaced(crate::text::byte_slice(self@, s2, e))
            }),
    {
        let st = self.data.as_str();
        let blen = st.len();
        let end2 = if end <= blen {
            end
        } else {
            blen
        };
        let start2 = if start <= end2 {
            start
        } else {
            end2
        };
        let ghost bytes = vstd::utf8::encode_utf8(self@);
        proof {
            assert(st.spec_bytes() == bytes);
            vstd::utf8::encode_utf8_valid_utf8(self@);
            assert(vstd::utf8::is_char_boundary(bytes, end2 as int));
        }
        let (head, _tail) = st.split_at(end2);
        proof {
            assert(head.spec_bytes() =~= bytes.subrange(0, end2 as int));
            vstd::utf8::valid_utf8_split(bytes, end2 as int);
            if start2 < end2 {
                assert(head.spec_bytes()[start2 as int] == bytes[start2 as int]);
                vstd::utf8::is_char_boundary_iff_not_is_continuation_byte(bytes, start2 as int);
                vstd::utf8::is_char_boundary_iff_not_is_continuation_byte(
                    head.spec_bytes(),
                    start2 as int,
                );
            } else {
                vstd::utf8::is_char_boundary_start_end_of_seq(head.spec_bytes());
            }
            assert(vstd::utf8::is_char_boundary(head.spec_bytes(), start2 as int));
        }
        let (_skipped, mid) = head.split_at(start2);
        proof {
            assert(mid.spec_bytes() =~= bytes.subrange(start2 as int, end2 as int));
            vstd::utf8::encode_utf8_decode_utf8(mid@);
            assert(mid@ == crate::text::byte_slice(self@, start2 as int, end2 as int));
        }
        crate::text::tabs_to_spaces(mid)
    }

    /// The line's length in character clusters.
    pub fn len(&self) -> (r: usize)
        requires
            self.wf(),
        ensures
            r == clusters(self@).len(),
            r == self.spec_len(),
    {
        self.length
    }

    /// Recounts the clusters of the current content.
    pub fn update(&mut self)
        ensures
            final(self)@ == old(self)@,
            final(self).wf(),
            final(self).spec_highlights() == old(self).spec_highlights(),
    {
        let cl = split_clusters(self.data.as_str());
        self.length = cl.len();
    }

    /// Concatenates `data` onto the end and recounts.
    pub fn append(&mut self, data: &str)
        ensures
            final(self)@ == old(self)@ + data@,
            final(self).wf(),
            final(self).spec_highlights() == old(self).spec_highlights(),
    {
        self.data.append(data);
        self.update();
    }

    /// Truncates the line to the clusters before column `x`, in place, and
    /// returns a new line holding the clusters from `x` on. Out-of-range
    /// columns clamp to the end, so the returned line is then empty.
    pub fn split(&mut self, x: usize) -> (rest: Line)
        ensures
            ({
                let cl = clusters(old(self)@);
                let m = if x <= cl.len() {
                    x as int
                } else {
                    cl.len() as int
                };
                final(self)@ == joined(cl, 0, m) && rest@ == joined(cl, m, cl.len() as int)
            }),
            final(self)@ + rest@ == old(self)@,
            final(self).wf(),
            rest.wf(),
            rest.spec_highlights() is None,
            final(self).spec_highlights() == old(self).spec_highlights(),
    {
        let cl = split_clusters(self.data.as_str());
        let n = cl.len();
        let m = if x <= n {
            x
        } else {
            n
        };
        let pre = join_clusters(&cl, 0, m);
        let suf = join_clusters(&cl, m, n);
        proof {
            lemma_flatten_split(cl.deep_view(), m as int);
        }
        self.data = pre;
        self.update();
        Line::new(suf)
    }

    /// Splits the content at the cluster boundary for column `x`, inserts
    /// `character` between the halves, and recounts. Out-of-range columns
    /// clamp to the end.
    pub fn insert(&mut self, x: usize, character: char)
        ensures
            ({
                let cl = clusters(old(self)@);
                let m = if x <= cl.len() {
                    x as int
                } else {
                    cl.len() as int
                };
                final(self)@ == joined(cl, 0, m) + seq![character] + joined(
                    cl,
                    m,
                    cl.len() as int,
                )
            }),
            final(self).wf(),
            final(self).spec_highlights() == old(self).spec_highlights(),
    {
        let cl = split_clusters(self.data.as_str());
        let n = cl.len();
        let m = if x <= n {
            x
        } else {
            n
        };
        let mut pre = join_clusters(&cl, 0, m);
        let suf = join_clusters(&cl, m, n);
        let cs = char_to_string(character);
        pre.append(cs.as_str());
        pre.append(suf.as_str());
        self.data = pre;
        self.update();
    }

    /// Removes the cluster at column `x` and recounts. An out-of-range
    /// column removes nothing.
    pub fn delete(&mut self, x: usize)
        ensures
            ({
                let cl = clusters(old(self)@);
                let n = cl.len() as int;
                let m1 = if x <= cl.len() {
                    x as int
                } else {
                    n
                };
                let m2 = if x < cl.len() {
                    x + 1
                } else {
                    n
                };
                final(self)@ == joined(cl, 0, m1) + joined(cl, m2, n)
            }),
            final(self).wf(),
            final(self).spec_highlights() == old(self).spec_highlights(),
    {
        let cl = split_clusters(self.data.as_str());
        let n = cl.len();
        let m1 = if x <= n {
            x
        } else {
            n
        };
        let m2 = if x < n {
            x + 1
        } else {
            n
        };
        let mut pre = join_clusters(&cl, 0, m1);
        let suf = join_clusters(&cl, m2, n);
        pre.append(suf.as_str());
        self.data = pre;
        self.update();
    }

    /// The UTF-8 bytes of the content.
    pub fn as_bytes(&self) -> (r: &[u8])
        ensures
            r@ == vstd::utf8::encode_utf8(self@),
    {
        self.data.as_str().as_bytes()
    }
}

/// Every line's cached length is in step with its content.
pub open spec fn lines_wf(ls: Seq<Line>) -> bool {
    forall|i: int| 0 <= i < ls.len() ==> (#[trigger] ls[i]).wf()
}

/// The cluster count of line `y`, or zero when there is no such line.
pub open spec fn line_len_at(ls: Seq<Line>, y: int) -> nat {
    if 0 <= y < ls.len() {
        clusters(ls[y]@).len()
    } else {
        0
    }
}

/// Splitting a line at any column and appending the returned remainder
/// back reconstructs the original content and cluster count: the requires
/// restate what `split` and `append` ensure about one such call pair.
pub proof fn lemma_split_append_reconstructs(
    orig: Line,
    halved: Line,
    rest: Line,
    rejoined: Line,
)
    requires
        orig.wf(),
        halved@ + rest@ == orig@,
        rejoined@ == halved@ + rest@,
        rejoined.wf(),
    ensures
        rejoined@ == orig@,
        rejoined.spec_len() == orig.spec_len(),
{
}

/// A character that lands as a cluster of its own increases the cluster
/// count by exactly one, whatever its byte width: the middle requires
/// restates what `insert` ensures, the last states that the character
/// neither merges with its neighbours nor splits them.
pub proof fn lemma_insert_own_cluster_adds_one(before: Line, after: Line, x: usize, c: char)
    requires
        before.wf(),
        after.wf(),
        x <= clusters(before@).len(),
        after@ == joined(clusters(before@), 0, x as int) + seq![c] + joined(
            clusters(before@),
            x as int,
            clusters(before@).len() as int,
        ),
        clusters(after@) == clusters(before@).subrange(0, x as int) + seq![seq![c]] + clusters(
            before@,
        ).subrange(x as int, clusters(before@).len() as int),
    ensures
        after.spec_len() == before.spec_len() + 1,
{
}

} // verus!
