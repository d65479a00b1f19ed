use vstd::prelude::*;
use crate::interval::LyricLine;
use crate::timecode::{time_in_microseconds, timecode_us};
use vstd::std_specs::iter::IteratorSpec;

verus! {

broadcast use vstd::string::group_string_axioms;

/// The input cut at each `'\n'`; text after the last one is the last line,
/// so there is always at least one line.
pub open spec fn split_lines(s: Seq<char>) -> Seq<Seq<char>>
    decreases s.len(),
{
    if s.len() == 0 {
        seq![Seq::<char>::empty()]
    } else {
        let rest = split_lines(s.drop_last());
        if s.last() == '\n' {
            rest.push(Seq::<char>::empty())
        } else {
            rest.update(rest.len() - 1, rest.last().push(s.last()))
        }
    }
}

proof fn lemma_split_lines_nonempty(s: Seq<char>)
    ensures
        split_lines(s).len() >= 1,
    decreases s.len(),
{
    if s.len() > 0 {
        lemma_split_lines_nonempty(s.drop_last());
    }
}

/// Whitespace inside a line.
pub open spec fn is_space(c: char) -> bool {
    c == ' ' || c == '\t' || c == '\r'
}

pub open spec fn is_digit(c: char) -> bool {
    '0' <= c && c <= '9'
}

pub open spec fn digit_value(c: char) -> int {
    c as int - '0' as int
}

/// The line opens with a `[MM:SS.HH]` tag.
pub open spec fn has_tag(l: Seq<char>) -> bool {
    &&& l.len() >= 10
    &&& l[0] == '['
    &&& is_digit(l[1]) && is_digit(l[2])
    &&& l[3] == ':'
    &&& is_digit(l[4]) && is_digit(l[5])
    &&& l[6] == '.'
    &&& is_digit(l[7]) && is_digit(l[8])
    &&& l[9] == ']'
}

/// The offset that the opening tag of `l` writes.
pub open spec fn tag_us(l: Seq<char>) -> int {
    timecode_us(
        10 * digit_value(l[1]) + digit_value(l[2]),
        10 * digit_value(l[4]) + digit_value(l[5]),
        10 * digit_value(l[7]) + digit_value(l[8]),
    )
}

/// The first position at or after `i` that holds no whitespace.
pub open spec fn skip_space(l: Seq<char>, i: int) -> int
    decreases l.len() - i,
{
    if 0 <= i < l.len() && is_space(l[i]) {
        skip_space(l, i + 1)
    } else {
        i
    }
}

/// A tag, whitespace, then text: a line sung at the tag's time.
pub open spec fn is_timed(l: Seq<char>) -> bool {
    has_tag(l) && l.len() > 10 && is_space(l[10]) && skip_space(l, 10) < l.len()
}

/// The text of a timed line.
pub open spec fn line_text(l: Seq<char>) -> Seq<char> {
    l.subrange(skip_space(l, 10), l.len() as int)
}

/// A tag and nothing after it but whitespace: a marker of time alone.
pub open spec fn is_bare(l: Seq<char>) -> bool {
    has_tag(l) && skip_space(l, 10) == l.len()
}

pub open spec fn is_blank(l: Seq<char>) -> bool {
    skip_space(l, 0) == l.len()
}

/// Time and text of each timed line, in document order.
pub open spec fn timed_entries(lines: Seq<Seq<char>>) -> Seq<(int, Seq<char>)>
    decreases lines.len(),
{
    if lines.len() == 0 {
        Seq::empty()
    } else {
        let rest = timed_entries(lines.drop_last());
        if is_timed(lines.last()) {
            rest.push((tag_us(lines.last()), line_text(lines.last())))
        } else {
            rest
        }
    }
}

/// The last line that is not blank, if any.
pub open spec fn last_textual(lines: Seq<Seq<char>>) -> Option<Seq<char>>
    decreases lines.len(),
{
    if lines.len() == 0 {
        None
    } else if is_blank(lines.last()) {
        last_textual(lines.drop_last())
    } else {
        Some(lines.last())
    }
}

/// Where the final sung line ends: the time of a bare tag that closes the
/// text, or, with none, the largest offset, so that the line stays open.
pub open spec fn closing_us(lines: Seq<Seq<char>>) -> int {
    match last_textual(lines) {
        Some(l) => if is_bare(l) {
            tag_us(l)
        } else {
            u64::MAX as int
        },
        None => u64::MAX as int,
    }
}

/// The times of the tags from position `i` on, where the rest of the line
/// holds nothing but tags and whitespace; `None` where it holds anything else.
pub open spec fn bare_tags_from(l: Seq<char>, i: int) -> Option<Seq<int>>
    decreases l.len() - i,
{
    if i < 0 || i >= l.len() {
        Some(Seq::empty())
    } else if is_space(l[i]) {
        bare_tags_from(l, i + 1)
    } else if has_tag(l.skip(i)) {
        match bare_tags_from(l, i + 10) {
            Some(rest) => Some(seq![tag_us(l.skip(i))] + rest),
            None => None,
        }
    } else {
        None
    }
}

/// A silent span from the start to each tag of a first line that holds
/// nothing but tags and whitespace, in the order of the tags.
pub open spec fn lead_in(lines: Seq<Seq<char>>) -> Seq<(int, int, Seq<char>)> {
    if lines.len() > 0 && bare_tags_from(lines[0], 0) is Some {
        let ts = bare_tags_from(lines[0], 0)->0;
        Seq::new(ts.len(), |k: int| (0int, ts[k], Seq::<char>::empty()))
    } else {
        Seq::empty()
    }
}

/// Each timed line runs until the next one starts; the last until the close.
pub open spec fn sung_spans(lines: Seq<Seq<char>>) -> Seq<(int, int, Seq<char>)> {
    let e = timed_entries(lines);
    Seq::new(
        e.len(),
        |k: int|
            (e[k].0, if k + 1 < e.len() {
                e[k + 1].0
            } else {
                closing_us(lines)
            }, e[k].1),
    )
}

/// The table that a lyrics text describes.
pub open spec fn parse_table(s: Seq<char>) -> Seq<(int, int, Seq<char>)> {
    lead_in(split_lines(s)) + sung_spans(split_lines(s))
}

/// A table as plain values.
pub open spec fn table_view(t: Seq<LyricLine>) -> Seq<(int, int, Seq<char>)> {
    t.map_values(|x: LyricLine| (x.0 as int, x.1 as int, x.2@))
}


/// The lines of `cs` as `[start, end)` positions.
pub open spec fn range_lines(cs: Seq<char>, ranges: Seq<(usize, usize)>) -> Seq<Seq<char>> {
    Seq::new(ranges.len(), |k: int| cs.subrange(ranges[k].0 as int, ranges[k].1 as int))
}

pub open spec fn ranges_in(cs: Seq<char>, ranges: Seq<(usize, usize)>) -> bool {
    forall|k: int| 0 <= k < ranges.len() ==> #[trigger] ranges[k].0 <= ranges[k].1 <= cs.len()
}

pub(crate) fn chars_of(s: &str) -> (r: Vec<char>)
    ensures
        r@ == s@,
{
    let mut it = s.chars();
    let mut out: Vec<char> = Vec::new();
    loop
        invariant
            it.obeys_prophetic_iter_laws(),
            out@ + it.remaining() == s@,
        ensures
            out@ == s@,
        decreases s@.len() - out@.len(),
    {
        match it.next() {
            Some(c) => {
                out.push(c);
            },
            None => {
                assert(out@ =~= s@);
                break;
            },
        }
    }
    out
}

fn line_ranges(cs: &Vec<char>) -> (r: Vec<(usize, usize)>)
    ensures
        ranges_in(cs@, r@),
        range_lines(cs@, r@) == split_lines(cs@),
{
    let mut ranges: Vec<(usize, usize)> = Vec::new();
    let mut start: usize = 0;
    let mut i: usize = 0;
    assert(cs@.take(0) =~= Seq::<char>::empty());
    assert(split_lines(cs@.take(0)) =~= range_lines(cs@, ranges@).push(cs@.subrange(0, 0)));
    while i < cs.len()
        invariant
            start <= i <= cs@.len(),
            ranges_in(cs@, ranges@),
            split_lines(cs@.take(i as int)) == range_lines(cs@, ranges@).push(
                cs@.subrange(start as int, i as int),
            ),
        decreases cs@.len() - i,
    {
        let ghost before = ranges@;
        let ghost s0 = start;
        assert(cs@.take(i + 1).drop_last() =~= cs@.take(i as int));
        assert(cs@.take(i + 1).last() == cs@[i as int]);
        if cs[i] == '\n' {
            ranges.push((start, i));
            start = i + 1;
            assert(cs@.subrange(start as int, i + 1) =~= Seq::<char>::empty());
            assert(range_lines(cs@, ranges@) =~= range_lines(cs@, before).push(
                cs@.subrange(s0 as int, i as int),
            ));
            assert(split_lines(cs@.take(i + 1)) =~= range_lines(cs@, ranges@).push(
                cs@.subrange(start as int, i + 1),
            ));
        } else {
            assert(cs@.subrange(start as int, i + 1) =~= cs@.subrange(start as int, i as int).push(
                cs@[i as int],
            ));
            assert(split_lines(cs@.take(i + 1)) =~= range_lines(cs@, ranges@).push(
                cs@.subrange(start as int, i + 1),
            ));
        }
        i = i + 1;
    }
    let ghost before = ranges@;
    ranges.push((start, i));
    assert(cs@.take(i as int) =~= cs@);
    assert(forall|k: int| 0 <= k < before.len() ==> ranges@[k] == before[k]);
    assert(range_lines(cs@, ranges@) =~= range_lines(cs@, before).push(
        cs@.subrange(start as int, i as int),
    ));
    ranges
}

fn space_char(c: char) -> (r: bool)
    ensures
        r == is_space(c),
{
    c == ' ' || c == '\t' || c == '\r'
}

fn digit_at(cs: &Vec<char>, i: usize) -> (r: Option<u64>)
    requires
        i < cs@.len(),
    ensures
        r == if is_digit(cs@[i as int]) {
            Some(digit_value(cs@[i as int]) as u64)
        } else {
            None::<u64>
        },
{
    let c = cs[i];
    if '0' <= c && c <= '9' {
        Some((c as u32 - '0' as u32) as u64)
    } else {
        None
    }
}

/// The first position from `from` on, within `[a, b)`, that holds no whitespace.
fn skip_space_at(cs: &Vec<char>, a: usize, b: usize, from: usize) -> (r: usize)
    requires
        a <= from <= b <= cs@.len(),
    ensures
        from <= r <= b,
        r - a == skip_space(cs@.subrange(a as int, b as int), from - a),
{
    let ghost l = cs@.subrange(a as int, b as int);
    let mut j = from;
    while j < b && space_char(cs[j])
        invariant
            a <= from <= j <= b <= cs@.len(),
            l == cs@.subrange(a as int, b as int),
            skip_space(l, j - a) == skip_space(l, from - a),
        decreases b - j,
    {
        j = j + 1;
    }
    j
}

/// The time of the tag that opens line `[a, b)`, if it opens with one.
fn tag_at(cs: &Vec<char>, a: usize, b: usize) -> (r: Option<u64>)
    requires
        a <= b <= cs@.len(),
    ensures
        r == if has_tag(cs@.subrange(a as int, b as int)) {
            Some(tag_us(cs@.subrange(a as int, b as int)) as u64)
        } else {
            None::<u64>
        },
{
    let ghost l = cs@.subrange(a as int, b as int);
    if b - a < 10 || cs[a] != '[' || cs[a + 3] != ':' || cs[a + 6] != '.' || cs[a + 9] != ']' {
        return None;
    }
    match (digit_at(cs, a + 1), digit_at(cs, a + 2), digit_at(cs, a + 4), digit_at(cs, a + 5)) {
        (Some(m1), Some(m2), Some(s1), Some(s2)) => match (digit_at(cs, a + 7), digit_at(cs, a + 8)) {
            (Some(h1), Some(h2)) => {
                time_in_microseconds(10 * m1 + m2, 10 * s1 + s2, 10 * h1 + h2)
            },
            _ => None,
        },
        _ => None,
    }
}

/// Timed lines as time and the `[start, end)` positions of their text.
pub open spec fn entries_view(cs: Seq<char>, ents: Seq<(u64, usize, usize)>) -> Seq<(int, Seq<char>)> {
    ents.map_values(|e: (u64, usize, usize)| (e.0 as int, cs.subrange(e.1 as int, e.2 as int)))
}

fn timed_lines(cs: &Vec<char>, ranges: &Vec<(usize, usize)>) -> (r: Vec<(u64, usize, usize)>)
    requires
        ranges_in(cs@, ranges@),
    ensures
        entries_view(cs@, r@) == timed_entries(range_lines(cs@, ranges@)),
        forall|k: int| 0 <= k < r@.len() ==> #[trigger] r@[k].1 <= r@[k].2 <= cs@.len(),
{
    let ghost lines = range_lines(cs@, ranges@);
    let mut ents: Vec<(u64, usize, usize)> = Vec::new();
    let mut k: usize = 0;
    assert(lines.take(0) =~= Seq::<Seq<char>>::empty());
    assert(entries_view(cs@, ents@) =~= Seq::<(int, Seq<char>)>::empty());
    while k < ranges.len()
        invariant
            k <= ranges@.len(),
            ranges_in(cs@, ranges@),
            lines == range_lines(cs@, ranges@),
            entries_view(cs@, ents@) == timed_entries(lines.take(k as int)),
            forall|j: int| 0 <= j < ents@.len() ==> #[trigger] ents@[j].1 <= ents@[j].2 <= cs@.len(),
        decreases ranges@.len() - k,
    {
        let (a, b) = ranges[k];
        assert(ranges@[k as int].0 <= ranges@[k as int].1 <= cs@.len());
        let ghost l = cs@.subrange(a as int, b as int);
        assert(lines.take(k + 1).drop_last() =~= lines.take(k as int));
        assert(lines.take(k + 1).last() == l);
        let ghost before = ents@;
        if let Some(t) = tag_at(cs, a, b) {
            if b - a > 10 && space_char(cs[a + 10]) {
                let p = skip_space_at(cs, a, b, a + 10);
                if p < b {
                    ents.push((t, p, b));
                    assert(l.subrange(p - a, l.len() as int) =~= cs@.subrange(p as int, b as int));
                    assert(entries_view(cs@, ents@) =~= entries_view(cs@, before).push(
                        (t as int, cs@.subrange(p as int, b as int)),
                    ));
                }
            }
        }
        k = k + 1;
    }
    assert(lines.take(k as int) =~= lines);
    ents
}

fn last_line_is_blank(cs: &Vec<char>, a: usize, b: usize) -> (r: bool)
    requires
        a <= b <= cs@.len(),
    ensures
        r == is_blank(cs@.subrange(a as int, b as int)),
{
    skip_space_at(cs, a, b, a) == b
}

pub open spec fn prepend_times(p: Seq<u64>, o: Option<Seq<int>>) -> Option<Seq<int>> {
    match o {
        Some(rest) => Some(p.map_values(|t: u64| t as int) + rest),
        None => None,
    }
}

/// The times of the tags on line `[a, b)`, if it holds nothing but tags and
/// whitespace.
fn leading_tags(cs: &Vec<char>, a: usize, b: usize) -> (r: Option<Vec<u64>>)
    requires
        a <= b <= cs@.len(),
    ensures
        bare_tags_from(cs@.subrange(a as int, b as int), 0) == match r {
            Some(v) => Some(v@.map_values(|t: u64| t as int)),
            None => None::<Seq<int>>,
        },
{
    let ghost l = cs@.subrange(a as int, b as int);
    let mut times: Vec<u64> = Vec::new();
    let mut j = a;
    assert(times@.map_values(|t: u64| t as int) =~= Seq::<int>::empty());
    assert(prepend_times(times@, bare_tags_from(l, 0)) =~= bare_tags_from(l, 0));
    while j < b
        invariant
            a <= j <= b <= cs@.len(),
            l == cs@.subrange(a as int, b as int),
            bare_tags_from(l, 0) == prepend_times(times@, bare_tags_from(l, j - a)),
        decreases b - j,
    {
        if space_char(cs[j]) {
            j = j + 1;
        } else {
            assert(cs@.subrange(j as int, b as int) =~= l.skip(j - a));
            match tag_at(cs, j, b) {
                Some(t) => {
                    let ghost before = times@;
                    times.push(t);
                    assert(times@.map_values(|t: u64| t as int) =~= before.map_values(
                        |t: u64| t as int,
                    ).push(t as int));
                    j = j + 10;
                    proof {
                        if bare_tags_from(l, j - a) is Some {
                            let rest = bare_tags_from(l, j - a)->0;
                            assert(before.map_values(|t: u64| t as int) + (seq![t as int]
                                + rest) =~= times@.map_values(|t: u64| t as int) + rest);
                        }
                    }
                },
                None => {
                    return None;
                },
            }
        }
    }
    assert(times@.map_values(|t: u64| t as int) + Seq::<int>::empty() =~= times@.map_values(
        |t: u64| t as int,
    ));
    Some(times)
}

/// The time at which the final sung line ends (see `closing_us`).
fn closing_time(cs: &Vec<char>, ranges: &Vec<(usize, usize)>) -> (r: u64)
    requires
        ranges_in(cs@, ranges@),
    ensures
        r as int == closing_us(range_lines(cs@, ranges@)),
{
    let ghost lines = range_lines(cs@, ranges@);
    let mut k: usize = ranges.len();
    assert(lines.take(k as int) =~= lines);
    while k > 0
        invariant
            k <= ranges@.len(),
            ranges_in(cs@, ranges@),
            lines == range_lines(cs@, ranges@),
            last_textual(lines) == last_textual(lines.take(k as int)),
        decreases k,
    {
        let (a, b) = ranges[k - 1];
        assert(ranges@[k - 1].0 <= ranges@[k - 1].1 <= cs@.len());
        assert(lines.take(k as int).drop_last() =~= lines.take(k - 1));
        assert(lines.take(k as int).last() == cs@.subrange(a as int, b as int));
        if !last_line_is_blank(cs, a, b) {
            if let Some(t) = tag_at(cs, a, b) {
                if skip_space_at(cs, a, b, a + 10) == b {
                    return t;
                }
            }
            return u64::MAX;
        }
        k = k - 1;
    }
    assert(lines.take(0) =~= Seq::<Seq<char>>::empty());
    u64::MAX
}

/// Parses synced lyrics into a table of lines.
///
/// Each line of the form `[MM:SS.HH] text` becomes an entry that starts at
/// its tag and ends where the next such line starts. A first line holding
/// only tags adds, for each of them in order, a silent lead-in from zero to
/// that tag. The final sung
/// line ends at a tag that stands alone on the last non-blank line; without
/// one it stays open to the largest offset, `u64::MAX`. Other lines are
/// ignored, so no input makes this fail.
pub fn interval_lyrics(input: &str) -> (r: Vec<LyricLine>)
    ensures
        table_view(r@) == parse_table(input@),
{
    let cs = chars_of(input);
    let ranges = line_ranges(&cs);
    let ghost lines = split_lines(input@);
    proof {
        lemma_split_lines_nonempty(input@);
    }
    let ents = timed_lines(&cs, &ranges);
    let close = closing_time(&cs, &ranges);
    let mut out: Vec<LyricLine> = Vec::new();
    let (a, b) = ranges[0];
    assert(lines[0] == cs@.subrange(a as int, b as int));
    if let Some(times) = leading_tags(&cs, a, b) {
        let ghost ts = bare_tags_from(lines[0], 0)->0;
        let mut j: usize = 0;
        while j < times.len()
            invariant
                j <= times@.len(),
                lines.len() > 0,
                bare_tags_from(lines[0], 0) == Some(ts),
                ts == times@.map_values(|t: u64| t as int),
                table_view(out@) == lead_in(lines).take(j as int),
            decreases times@.len() - j,
        {
            let ghost before = out@;
            out.push((0, times[j], String::new()));
            assert(table_view(out@) =~= table_view(before).push(table_view(out@).last()));
            assert(lead_in(lines).take(j + 1) =~= lead_in(lines).take(j as int).push(
                lead_in(lines)[j as int],
            ));
            j = j + 1;
        }
        assert(lead_in(lines).take(j as int) =~= lead_in(lines));
    } else {
        assert(table_view(out@) =~= lead_in(lines));
    }
    let ghost spans = sung_spans(lines);
    let mut k: usize = 0;
    while k < ents.len()
        invariant
            k <= ents@.len(),
            cs@ == input@,
            lines == split_lines(input@),
            spans == sung_spans(lines),
            entries_view(cs@, ents@) == timed_entries(lines),
            forall|j: int| 0 <= j < ents@.len() ==> #[trigger] ents@[j].1 <= ents@[j].2 <= cs@.len(),
            close as int == closing_us(lines),
            table_view(out@) == lead_in(lines) + spans.take(k as int),
        decreases ents@.len() - k,
    {
        let (t, p, e) = ents[k];
        assert(ents@[k as int].1 <= ents@[k as int].2 <= cs@.len());
        let end = if k + 1 < ents.len() {
            ents[k + 1].0
        } else {
            close
        };
        let text = input.substring_char(p, e).to_owned();
        let ghost before = out@;
        out.push((t, end, text));
        assert(spans.take(k + 1) =~= spans.take(k as int).push(spans[k as int]));
        assert(table_view(out@) =~= table_view(before).push(table_view(out@).last()));
        k = k + 1;
    }
    assert(spans.take(k as int) =~= spans);
    out
}

/// Well-formed lyrics parse back to their lines: where the first line gives
/// no lead-in, the timed lines ascend in time and a closing tag ends the text
/// no earlier than the last of them, the table holds exactly one line per
/// timed line, with its time and text, in ascending order and without overlap,
/// and the last line ends at the closing tag.
pub proof fn lemma_parse_well_formed(s: Seq<char>)
    requires
        lead_in(split_lines(s)).len() == 0,
        last_textual(split_lines(s)) matches Some(l) && is_bare(l),
        forall|i: int, j: int|
            0 <= i < j < timed_entries(split_lines(s)).len() ==> timed_entries(split_lines(s))[i].0
                <= timed_entries(split_lines(s))[j].0,
        forall|i: int|
            0 <= i < timed_entries(split_lines(s)).len() ==> timed_entries(split_lines(s))[i].0
                <= closing_us(split_lines(s)),
    ensures
        parse_table(s).len() == timed_entries(split_lines(s)).len(),
        forall|i: int|
            0 <= i < parse_table(s).len() ==> parse_table(s)[i].0 == timed_entries(split_lines(s))[i].0
                && parse_table(s)[i].2 == timed_entries(split_lines(s))[i].1,
        forall|i: int, j: int|
            0 <= i < j < parse_table(s).len() ==> parse_table(s)[i].0 <= parse_table(s)[j].0
                && parse_table(s)[i].1 <= parse_table(s)[j].0,
        parse_table(s).len() > 0 ==> parse_table(s).last().1 == tag_us(
            last_textual(split_lines(s))->0,
        ),
{
    let lines = split_lines(s);
    lemma_split_lines_nonempty(s);
    let e = timed_entries(lines);
    let p = parse_table(s);
    assert(p =~= sung_spans(lines));
    assert forall|i: int, j: int| 0 <= i < j < p.len() implies p[i].0 <= p[j].0 && p[i].1
        <= p[j].0 by {
        assert(p[i].1 == e[i + 1].0);
        if i + 1 < j {
            assert(e[i + 1].0 <= e[j].0);
        }
    }
}

} // verus!
