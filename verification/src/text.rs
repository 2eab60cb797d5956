use vstd::prelude::*;
use vstd::seq_lib::lemma_flatten_concat;
use vstd::string::StringExecFns;

verus! {

/// The extended grapheme clusters of a character sequence, in order.
/// Grapheme segmentation follows Unicode Standard Annex 29; its full
/// definition is left abstract and is characterised only by the contracts
/// of the trusted functions below.
pub uninterp spec fn clusters(s: Seq<char>) -> Seq<Seq<char>>;

/// Relies on unicode_segmentation::UnicodeSegmentation::graphemes:
/// the iterator yields the extended grapheme clusters of `s`, in order,
/// as consecutive substrings that together make up `s` exactly.
#[verifier::external_body]
pub(crate) fn split_clusters(s: &str) -> (r: Vec<String>)
    ensures
        r.deep_view() == clusters(s@),
        r.deep_view().flatten() == s@,
{
    unicode_segmentation::UnicodeSegmentation::graphemes(s, true).map(|g| g.to_string()).collect()
}

/// Relies on char's Display-based ToString: the result is the string
/// holding exactly that one character.
#[verifier::external_body]
pub(crate) fn char_to_string(c: char) -> (r: String)
    ensures
        r@ == seq![c],
{
    c.to_string()
}

/// Builds the string whose characters are exactly `v`.
pub fn chars_to_string(v: &Vec<char>) -> (r: String)
    ensures
        r@ == v@,
{
    let mut r = String::new();
    let mut i: usize = 0;
    while i < v.len()
        invariant
            i <= v.len(),
            r@ == v@.subrange(0, i as int),
        decreases v.len() - i,
    {
        let c = char_to_string(v[i]);
        r.append(c.as_str());
        proof {
            assert(r@ =~= v@.subrange(0, i as int + 1));
        }
        i = i + 1;
    }
    proof {
        assert(r@ =~= v@);
    }
    r
}

/// Collects the characters of `s` into a vector.
pub fn str_chars(s: &str) -> (r: Vec<char>)
    ensures
        r@ == s@,
{
    broadcast use vstd::string::group_string_axioms;

    let mut it = s.chars();
    let mut r: Vec<char> = Vec::new();
    loop
        invariant
            vstd::std_specs::iter::IteratorSpec::obeys_prophetic_iter_laws(&it),
            vstd::std_specs::iter::IteratorSpec::decrease(&it) is Some,
            r@ + vstd::std_specs::iter::IteratorSpec::remaining(&it) == s@,
        ensures
            r@ == s@,
        decreases vstd::std_specs::iter::IteratorSpec::decrease(&it)->0,
    {
        match it.next() {
            Some(c) => {
                r.push(c);
                proof {
                    assert(r@ + vstd::std_specs::iter::IteratorSpec::remaining(&it) =~= s@);
                }
            },
            None => {
                proof {
                    assert(vstd::std_specs::iter::IteratorSpec::remaining(&it).len() == 0);
                    assert(r@ =~= s@);
                }
                break ;
            },
        }
    }
    r
}

/// Concatenation of the cluster sequences `v[from..to]`.
pub open spec fn joined(cs: Seq<Seq<char>>, from: int, to: int) -> Seq<char> {
    cs.subrange(from, to).flatten()
}

/// Splitting a cluster sequence anywhere and flattening both halves
/// reassembles the flattening of the whole.
pub proof fn lemma_flatten_split(cs: Seq<Seq<char>>, i: int)
    requires
        0 <= i <= cs.len(),
    ensures
        joined(cs, 0, i) + joined(cs, i, cs.len() as int) == cs.flatten(),
{
    lemma_flatten_concat(cs.subrange(0, i), cs.subrange(i, cs.len() as int));
    assert(cs.subrange(0, i) + cs.subrange(i, cs.len() as int) =~= cs);
}

/// Builds the string holding the clusters `v[from..to]`, concatenated.
pub fn join_clusters(v: &Vec<String>, from: usize, to: usize) -> (r: String)
    requires
        from <= to <= v@.len(),
    ensures
        r@ == joined(v.deep_view(), from as int, to as int),
{
    let mut r = String::new();
    let mut i: usize = from;
    proof {
        assert(v.deep_view().subrange(from as int, from as int) =~= Seq::<Seq<char>>::empty());
        vstd::seq::Seq::<Seq<char>>::empty().lemma_flatten_one_element();
        assert(Seq::<Seq<char>>::empty().flatten() =~= Seq::<char>::empty());
    }
    while i < to
        invariant
            from <= i <= to <= v@.len(),
            v.deep_view().len() == v@.len(),
            r@ == joined(v.deep_view(), from as int, i as int),
        decreases to - i,
    {
        r.append(v[i].as_str());
        proof {
            let dv = v.deep_view();
            broadcast use vstd::seq_lib::group_seq_lib_default;

            assert(dv.subrange(from as int, i as int + 1) =~= dv.subrange(
                from as int,
                i as int,
            ).push(dv[i as int]));
            dv.subrange(from as int, i as int).lemma_flatten_push(dv[i as int]);
        }
        i = i + 1;
    }
    r
}

/// The characters encoded between byte offsets `a` and `b` of the UTF-8
/// form of `s`.
pub open spec fn byte_slice(s: Seq<char>, a: int, b: int) -> Seq<char> {
    vstd::utf8::decode_utf8(vstd::utf8::encode_utf8(s).subrange(a, b))
}

/// `s` with every tab turned into a single space.
pub open spec fn tab_spaced(s: Seq<char>) -> Seq<char> {
    s.map_values(|c: char| if c == '\t' { ' ' } else { c })
}

/// Replaces every tab with a single space.
pub fn tabs_to_spaces(s: &str) -> (r: String)
    ensures
        r@ == tab_spaced(s@),
{
    let cv = str_chars(s);
    let mut out: Vec<char> = Vec::new();
    let mut i: usize = 0;
    while i < cv.len()
        invariant
            i <= cv.len(),
            cv@ == s@,
            out@ == tab_spaced(cv@.subrange(0, i as int)),
        decreases cv.len() - i,
    {
        let c = cv[i];
        if c == '\t' {
            out.push(' ');
        } else {
            out.push(c);
        }
        proof {
            assert(out@ =~= tab_spaced(cv@.subrange(0, i as int + 1)));
        }
        i = i + 1;
    }
    proof {
        assert(cv@.subrange(0, cv@.len() as int) =~= cv@);
    }
    chars_to_string(&out)
}

/// Index of the first newline at or after `j`.
pub open spec fn find_nl(s: Seq<char>, j: int) -> Option<int>
    decreases s.len() - j,
    when j >= 0
{
    if j >= s.len() {
        None
    } else if s[j] == '\n' {
        Some(j)
    } else {
        find_nl(s, j + 1)
    }
}

/// A found newline lies at or after where the scan started, and is the
/// first one there.
proof fn lemma_find_nl_bounds(s: Seq<char>, j: int)
    requires
        0 <= j,
    ensures
        find_nl(s, j) matches Some(k) ==> j <= k < s.len() && s[k] == '\n' && (forall|m: int|
            j <= m < k ==> s[m] != '\n'),
        find_nl(s, j) is None ==> (forall|m: int| j <= m < s.len() ==> s[m] != '\n'),
    decreases s.len() - j,
{
    if j < s.len() && s[j] != '\n' {
        lemma_find_nl_bounds(s, j + 1);
    }
}

/// A scan finds the first newline: knowing where it is pins the result.
proof fn lemma_find_nl_at(s: Seq<char>, k: int)
    requires
        0 <= k < s.len(),
        s[k] == '\n',
        forall|m: int| 0 <= m < k ==> s[m] != '\n',
    ensures
        find_nl(s, 0) == Some(k),
{
    lemma_find_nl_from(s, 0, k);
}

proof fn lemma_find_nl_from(s: Seq<char>, j: int, k: int)
    requires
        0 <= j <= k < s.len(),
        s[k] == '\n',
        forall|m: int| j <= m < k ==> s[m] != '\n',
    ensures
        find_nl(s, j) == Some(k),
    decreases k - j,
{
    if j < k {
        lemma_find_nl_from(s, j + 1, k);
    }
}

/// No newline anywhere means the scan finds none.
proof fn lemma_find_nl_absent(s: Seq<char>)
    requires
        forall|m: int| 0 <= m < s.len() ==> s[m] != '\n',
    ensures
        find_nl(s, 0) is None,
{
    lemma_find_nl_absent_from(s, 0);
}

proof fn lemma_find_nl_absent_from(s: Seq<char>, j: int)
    requires
        0 <= j,
        forall|m: int| j <= m < s.len() ==> s[m] != '\n',
    ensures
        find_nl(s, j) is None,
    decreases s.len() - j,
{
    if j < s.len() {
        lemma_find_nl_absent_from(s, j + 1);
    }
}

/// `line` without one trailing carriage return, if it ends in one.
pub open spec fn strip_cr(line: Seq<char>) -> Seq<char> {
    if line.len() > 0 && line.last() == '\r' {
        line.drop_last()
    } else {
        line
    }
}

/// The lines of `s`: split at each newline, dropping a carriage return
/// that directly precedes it; a trailing newline opens no further line.
pub open spec fn lines_of(s: Seq<char>) -> Seq<Seq<char>>
    decreases s.len(),
    via lines_of_decreases
{
    if s.len() == 0 {
        Seq::empty()
    } else {
        match find_nl(s, 0) {
            None => seq![s],
            Some(i) => seq![strip_cr(s.take(i))] + lines_of(s.skip(i + 1)),
        }
    }
}

#[via_fn]
proof fn lines_of_decreases(s: Seq<char>) {
    lemma_find_nl_bounds(s, 0);
}

/// Splits `text` into its lines, per `lines_of`.
pub fn split_lines(text: &str) -> (r: Vec<String>)
    ensures
        r.deep_view() == lines_of(text@),
{
    let s = str_chars(text);
    let mut out: Vec<String> = Vec::new();
    let mut cur: Vec<char> = Vec::new();
    let mut i: usize = 0;
    proof {
        assert(cur@ + s@.skip(0) =~= s@);
        assert(out.deep_view() + lines_of(text@) =~= lines_of(text@));
    }
    while i < s.len()
        invariant
            i <= s.len(),
            s@ == text@,
            forall|m: int| 0 <= m < cur@.len() ==> cur@[m] != '\n',
            lines_of(text@) == out.deep_view() + lines_of(cur@ + s@.skip(i as int)),
        decreases s.len() - i,
    {
        let c = s[i];
        let ghost c0 = cur@;
        let ghost t = cur@ + s@.skip(i as int);
        proof {
            assert(s@.skip(i as int)[0] == s@[i as int]);
            assert(t[c0.len() as int] == c);
        }
        if c == '\n' {
            proof {
                lemma_find_nl_at(t, c0.len() as int);
                assert(t.take(c0.len() as int) =~= c0);
                assert(t.skip(c0.len() as int + 1) =~= s@.skip(i as int + 1));
                assert(lines_of(t) == seq![strip_cr(c0)] + lines_of(s@.skip(i as int + 1)));
            }
            let mut line = cur;
            cur = Vec::new();
            if line.len() > 0 && line[line.len() - 1] == '\r' {
                let _ = line.pop();
                proof {
                    assert(line@ =~= strip_cr(c0));
                }
            }
            proof {
                assert(line@ == strip_cr(c0));
            }
            let ghost dv0 = out.deep_view();
            let ls = chars_to_string(&line);
            out.push(ls);
            proof {
                assert(out.deep_view() =~= dv0.push(line@));
                assert(cur@ + s@.skip(i as int + 1) =~= s@.skip(i as int + 1));
                assert(dv0.push(strip_cr(c0)) + lines_of(s@.skip(i as int + 1)) =~= dv0 + lines_of(
                    t,
                ));
            }
        } else {
            cur.push(c);
            proof {
                assert(cur@ + s@.skip(i as int + 1) =~= t);
            }
        }
        i = i + 1;
    }
    proof {
        assert(cur@ + s@.skip(s@.len() as int) =~= cur@);
        lemma_find_nl_absent(cur@);
    }
    if cur.len() > 0 {
        let ls = chars_to_string(&cur);
        out.push(ls);
        proof {
            assert(lines_of(cur@) =~= seq![cur@]);
            assert(lines_of(text@) =~= out.deep_view());
        }
    } else {
        proof {
            assert(lines_of(cur@) =~= Seq::<Seq<char>>::empty());
            assert(lines_of(text@) =~= out.deep_view());
        }
    }
    out
}

/// The character for the decimal digit `d`.
pub open spec fn digit_char(d: nat) -> char
    recommends
        d < 10,
{
    ((d + 0x30) as u8) as char
}

/// Decimal rendering of `n`, most significant digit first.
pub open spec fn spec_decimal(n: nat) -> Seq<char>
    decreases n,
{
    if n < 10 {
        seq![digit_char(n)]
    } else {
        spec_decimal(n / 10).push(digit_char(n % 10))
    }
}

/// Renders `n` in decimal.
pub fn to_decimal(n: usize) -> (r: String)
    ensures
        r@ == spec_decimal(n as nat),
{
    let mut out: Vec<char> = Vec::new();
    let mut m: usize = n;
    proof {
        assert(spec_decimal(n as nat) =~= spec_decimal(n as nat) + out@);
    }
    loop
        invariant_except_break
            spec_decimal(n as nat) == spec_decimal(m as nat) + out@,
        ensures
            out@ == spec_decimal(n as nat),
        decreases m,
    {
        let d: u8 = (m % 10) as u8;
        let c: char = (d + 0x30) as char;
        let ghost out0 = out@;
        proof {
            assert(c == digit_char((m as nat) % 10));
        }
        out.insert(0, c);
        proof {
            assert(out@ =~= seq![c] + out0);
        }
        if m < 10 {
            proof {
                assert(spec_decimal(m as nat) =~= seq![c]);
                assert(spec_decimal(n as nat) =~= out@);
            }
            break ;
        }
        proof {
            assert(spec_decimal(m as nat) =~= spec_decimal((m as nat) / 10).push(
                digit_char((m as nat) % 10),
            ));
            assert(spec_decimal(m as nat) =~= spec_decimal((m as nat) / 10) + seq![c]);
            assert(spec_decimal((m as nat) / 10) + seq![c] + out0 =~= spec_decimal((m as nat) / 10)
                + out@);
        }
        m = m / 10;
    }
    chars_to_string(&out)
}

} // verus!
