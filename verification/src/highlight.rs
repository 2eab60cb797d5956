use crate::escape::{color, CSI};
use vstd::prelude::*;

verus! {

/// One syntax-highlight event over a source buffer, as plain offsets:
/// a span of source bytes, the start of a highlight class, or its end.
#[derive(Debug, Clone, Copy)]
pub enum HlEvent {
    Source { start: usize, end: usize },
    Start(usize),
    End,
}

/// The color escape code for a highlight class, or None for a class this
/// editor does not map.
pub open spec fn spec_highlight_color(n: int) -> Option<Seq<char>> {
    if n == 2 {
        Some("39m"@)
    } else if n == 11 {
        Some("32m"@)
    } else if n == 24 {
        Some("36m"@)
    } else if n == 6 || n == 31 {
        Some("34m"@)
    } else if n == 35 || n == 25 {
        Some("94m"@)
    } else if n == 10 || n == 30 || n == 38 {
        Some("33m"@)
    } else if n == 39 {
        Some("35m"@)
    } else if n == 1 || n == 34 {
        Some("31m"@)
    } else if n == 37 {
        Some("93m"@)
    } else if n == 28 || n == 54 || n == 55 || n == 57 {
        Some("90m"@)
    } else {
        None
    }
}

/// The color escape for highlight class `n`, per `spec_highlight_color`.
pub fn highlight_color(n: usize) -> (r: Option<CSI>)
    ensures
        match r {
            Some(c) => spec_highlight_color(n as int) == Some(c.0@),
            None => spec_highlight_color(n as int) is None,
        },
{
    if n == 2 {
        Some(color::default_foreground())
    } else if n == 11 {
        Some(color::green_foreground())
    } else if n == 24 {
        Some(color::cyan_foreground())
    } else if n == 6 || n == 31 {
        Some(color::blue_foreground())
    } else if n == 35 || n == 25 {
        Some(color::bright_blue_foreground())
    } else if n == 10 || n == 30 || n == 38 {
        Some(color::yellow_foreground())
    } else if n == 39 {
        Some(color::magenta_foreground())
    } else if n == 1 || n == 34 {
        Some(color::red_foreground())
    } else if n == 37 {
        Some(color::bright_yellow_foreground())
    } else if n == 28 || n == 54 || n == 55 || n == 57 {
        Some(color::bright_black_foreground())
    } else {
        None
    }
}

/// One default-foreground escape code per source byte.
pub open spec fn default_codes(n: nat) -> Seq<Seq<char>> {
    Seq::new(n, |i: int| "39m"@)
}

/// The escape codes of a color array.
pub open spec fn codes_of(v: Seq<CSI>) -> Seq<Seq<char>> {
    v.map_values(|c: CSI| c.0@)
}

/// `acc` with positions `start..end` repainted to `c`.
pub open spec fn painted(acc: Seq<Seq<char>>, start: int, end: int, c: Seq<char>) -> Seq<
    Seq<char>,
> {
    Seq::new(
        acc.len(),
        |i: int|
            if start <= i < end {
                c
            } else {
                acc[i]
            },
    )
}

/// Folds the highlight events over a color array: a source span paints
/// the active color over its bytes, a start event switches the active
/// color, an end event clears it. None means an unmapped highlight class
/// was met.
pub open spec fn spec_colors(
    events: Seq<HlEvent>,
    acc: Seq<Seq<char>>,
    cur: Option<Seq<char>>,
) -> Option<Seq<Seq<char>>>
    decreases events.len(),
{
    if events.len() == 0 {
        Some(acc)
    } else {
        match events[0] {
            HlEvent::Source { start, end } => {
                let acc2 = match cur {
                    Some(c) => painted(acc, start as int, end as int, c),
                    None => acc,
                };
                spec_colors(events.drop_first(), acc2, cur)
            },
            HlEvent::Start(n) => match spec_highlight_color(n as int) {
                Some(c) => spec_colors(events.drop_first(), acc, Some(c)),
                None => None,
            },
            HlEvent::End => spec_colors(events.drop_first(), acc, None),
        }
    }
}

/// A new color array with positions `start..end` of `v` repainted to
/// `c`.
fn paint(v: &Vec<CSI>, start: usize, end: usize, c: CSI) -> (r: Vec<CSI>)
    ensures
        codes_of(r@) == painted(codes_of(v@), start as int, end as int, c.0@),
{
    let mut r: Vec<CSI> = Vec::new();
    let mut i: usize = 0;
    while i < v.len()
        invariant
            i <= v@.len(),
            r@.len() == i,
            codes_of(r@) == painted(codes_of(v@), start as int, end as int, c.0@).subrange(
                0,
                i as int,
            ),
        decreases v.len() - i,
    {
        if start <= i && i < end {
            r.push(c);
        } else {
            r.push(v[i]);
        }
        proof {
            assert(codes_of(r@) =~= painted(codes_of(v@), start as int, end as int, c.0@).subrange(
                0,
                i as int + 1,
            ));
        }
        i = i + 1;
    }
    proof {
        let p = painted(codes_of(v@), start as int, end as int, c.0@);
        assert(p.subrange(0, p.len() as int) =~= p);
    }
    r
}

/// Computes one color escape per source byte from the highlight events,
/// starting from the default foreground; None when an event names a
/// highlight class this editor does not map.
pub fn colors_from_events(source_len: usize, events: &Vec<HlEvent>) -> (r: Option<Vec<CSI>>)
    ensures
        ({
            let start = default_codes(source_len as nat);
            match r {
                Some(v) => Some(codes_of(v@)) == spec_colors(events@, start, None) && v@.len()
                    == source_len,
                None => spec_colors(events@, start, None) is None,
            }
        }),
{
    let mut acc: Vec<CSI> = Vec::new();
    let mut i: usize = 0;
    while i < source_len
        invariant
            i <= source_len,
            acc@.len() == i,
            codes_of(acc@) == default_codes(i as nat),
        decreases source_len - i,
    {
        let ghost a0 = acc@;
        acc.push(color::default_foreground());
        proof {
            assert forall|j: int| 0 <= j < acc@.len() implies codes_of(acc@)[j] == default_codes(
                i as nat + 1,
            )[j] by {
                assert(codes_of(acc@)[j] == acc@[j].0@);
                if j < i {
                    assert(acc@[j] == a0[j]);
                    assert(codes_of(a0)[j] == a0[j].0@);
                    assert(codes_of(a0)[j] == "39m"@);
                }
            }
            assert(codes_of(acc@) =~= default_codes(i as nat + 1));
        }
        i = i + 1;
    }
    let mut cur: Option<CSI> = None;
    let mut k: usize = 0;
    let ghost start0 = default_codes(source_len as nat);
    proof {
        assert(codes_of(acc@) =~= start0);
        assert(events@.skip(0) =~= events@);
    }
    while k < events.len()
        invariant
            k <= events@.len(),
            acc@.len() == source_len,
            spec_colors(events@, default_codes(source_len as nat), None) == spec_colors(
                events@.skip(k as int),
                codes_of(acc@),
                match cur {
                    Some(c) => Some(c.0@),
                    None => None,
                },
            ),
        decreases events.len() - k,
    {
        let ghost pre = events@.skip(k as int);
        proof {
            assert(pre[0] == events@[k as int]);
            assert(pre.drop_first() =~= events@.skip(k as int + 1));
        }
        match events[k] {
            HlEvent::Source { start, end } => {
                match cur {
                    Some(c) => {
                        let repainted = paint(&acc, start, end, c);
                        acc = repainted;
                    },
                    None => {},
                }
            },
            HlEvent::Start(n) => {
                match highlight_color(n) {
                    Some(c) => {
                        cur = Some(c);
                    },
                    None => {
                        proof {
                            assert(spec_colors(
                                pre,
                                codes_of(acc@),
                                match cur {
                                    Some(c) => Some(c.0@),
                                    None => None,
                                },
                            ) is None);
                        }
                        return None;
                    },
                }
            },
            HlEvent::End => {
                cur = None;
            },
        }
        k = k + 1;
    }
    proof {
        assert(events@.skip(events@.len() as int) =~= Seq::<HlEvent>::empty());
    }
    Some(acc)
}

} // verus!
