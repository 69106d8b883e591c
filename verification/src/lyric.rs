//! LRC lyric lines: the `[mm:ss.fff]` time tag at the start of a line, the
//! text after it, and the timeline of lines that the lyric view scrolls
//! through.
//!
//! A tag is `[`, two digits, `:`, two digits, `.`, one to three digits, `]`.
//! The fraction is read as thousandths after padding it on the right with
//! zeros, so `.5` is 500 ms and `.05` is 50 ms.
use vstd::prelude::*;
use crate::text::{all_digits, chars_of, digit_value, digits_value, is_digit, string_from_chars};

verus! {

/// `s` starts with a time tag whose fraction has `k` digits.
pub open spec fn tag_with_fraction(s: Seq<char>, k: int) -> bool {
    &&& s.len() >= 8 + k
    &&& s[0] == '['
    &&& is_digit(s[1])
    &&& is_digit(s[2])
    &&& s[3] == ':'
    &&& is_digit(s[4])
    &&& is_digit(s[5])
    &&& s[6] == '.'
    &&& all_digits(s.subrange(7, 7 + k))
    &&& s[7 + k] == ']'
}

/// The number of digits of the fraction of the tag `s` starts with.
pub open spec fn fraction_digits(s: Seq<char>) -> Option<int> {
    if tag_with_fraction(s, 1) {
        Some(1)
    } else if tag_with_fraction(s, 2) {
        Some(2)
    } else if tag_with_fraction(s, 3) {
        Some(3)
    } else {
        None
    }
}

/// The milliseconds of a fraction of `k` digits, padded on the right to
/// three digits.
pub open spec fn fraction_millis(f: nat, k: int) -> nat {
    if k == 1 {
        f * 100
    } else if k == 2 {
        f * 10
    } else {
        f
    }
}

/// The time of the tag `s` starts with, in milliseconds.
pub open spec fn lrc_millis(s: Seq<char>) -> Option<nat> {
    match fraction_digits(s) {
        Some(k) => Some(
            digits_value(s.subrange(1, 3)) * 60000 + digits_value(s.subrange(4, 6)) * 1000
                + fraction_millis(digits_value(s.subrange(7, 7 + k)), k),
        ),
        None => None,
    }
}

/// The text after the tag `s` starts with.
pub open spec fn lrc_text(s: Seq<char>) -> Option<Seq<char>> {
    match fraction_digits(s) {
        Some(k) => Some(s.subrange(8 + k, s.len() as int)),
        None => None,
    }
}

/// The timed lines of a lyric: each line that starts with a tag, as its
/// time and the text after the tag, in order.
pub open spec fn timed_lines(lines: Seq<Seq<char>>) -> Seq<(nat, Seq<char>)>
    decreases lines.len(),
{
    if lines.len() == 0 {
        Seq::empty()
    } else {
        let rest = timed_lines(lines.drop_last());
        let l = lines.last();
        match (lrc_millis(l), lrc_text(l)) {
            (Some(ms), Some(t)) => rest.push((ms, t)),
            _ => rest,
        }
    }
}

/// The texts of the lines that start with a tag, without the tag.
pub open spec fn stripped_lines(lines: Seq<Seq<char>>) -> Seq<Seq<char>>
    decreases lines.len(),
{
    if lines.len() == 0 {
        Seq::empty()
    } else {
        let rest = stripped_lines(lines.drop_last());
        match lrc_text(lines.last()) {
            Some(t) => rest.push(t),
            None => rest,
        }
    }
}

/// The views of a vector of strings.
pub open spec fn views(v: Seq<String>) -> Seq<Seq<char>> {
    v.map_values(|s: String| s@)
}

/// A line of the lyric timeline: sung from `.0` until `.1`, text `.2`.
pub type TimedLine = (u64, u64, String);

/// The timeline of timed lines: each line lasts until the next one starts,
/// the last one until the end of the track.
pub open spec fn line_end(starts: Seq<u64>, i: int, total: u64) -> u64 {
    if i + 1 < starts.len() {
        starts[i + 1]
    } else {
        total
    }
}

/// The value of a digit character, or `None` for any other character.
fn digit_of(c: char) -> (r: Option<u64>)
    ensures
        r is Some <==> is_digit(c),
        r matches Some(d) ==> d == digit_value(c) && d < 10,
{
    match c {
        '0' => Some(0),
        '1' => Some(1),
        '2' => Some(2),
        '3' => Some(3),
        '4' => Some(4),
        '5' => Some(5),
        '6' => Some(6),
        '7' => Some(7),
        '8' => Some(8),
        '9' => Some(9),
        _ => None,
    }
}

proof fn lemma_two_digits(s: Seq<char>)
    requires
        s.len() == 2,
    ensures
        digits_value(s) == digit_value(s[0]) * 10 + digit_value(s[1]),
{
    let a = s.drop_last();
    assert(a.drop_last() =~= Seq::<char>::empty());
    assert(a.last() == s[0]);
    assert(digits_value(a) == digits_value(a.drop_last()) * 10 + digit_value(a.last()));
    assert(digits_value(a) == digit_value(s[0]));
}

proof fn lemma_digits_push(s: Seq<char>, c: char)
    ensures
        digits_value(s.push(c)) == digits_value(s) * 10 + digit_value(c),
{
    assert(s.push(c).drop_last() =~= s);
}

/// The tag at the start of `s`: the number of fraction digits and the time.
fn parse_tag(s: &Vec<char>) -> (r: Option<(usize, u64)>)
    ensures
        r matches Some(p) ==> fraction_digits(s@) == Some(p.0 as int) && lrc_millis(s@) == Some(
            p.1 as nat,
        ),
        r is None ==> fraction_digits(s@) is None,
{
    if s.len() < 9 {
        proof {
            assert(!tag_with_fraction(s@, 1));
            assert(!tag_with_fraction(s@, 2));
            assert(!tag_with_fraction(s@, 3));
        }
        return None;
    }
    let m1 = digit_of(s[1]);
    let m2 = digit_of(s[2]);
    let s1 = digit_of(s[4]);
    let s2 = digit_of(s[5]);
    if s[0] != '[' || s[3] != ':' || s[6] != '.' || m1.is_none() || m2.is_none() || s1.is_none()
        || s2.is_none() {
        return None;
    }
    let mm = m1.unwrap() * 10 + m2.unwrap();
    let ss = s1.unwrap() * 10 + s2.unwrap();
    proof {
        lemma_two_digits(s@.subrange(1, 3));
        lemma_two_digits(s@.subrange(4, 6));
    }
    // the fraction: up to three digits, then the closing bracket
    let mut k: usize = 0;
    let mut f: u64 = 0;
    let mut done = false;
    while k < 3 && 7 + k < s.len() && !done
        invariant
            k <= 3,
            7 + k <= s@.len(),
            all_digits(s@.subrange(7, 7 + k as int)),
            f == digits_value(s@.subrange(7, 7 + k as int)),
            f < 1000,
            k == 0 ==> f == 0,
            k == 1 ==> f < 10,
            k == 2 ==> f < 100,
            done ==> 7 + k < s@.len() && !is_digit(s@[7 + k as int]),
        decreases 3 - k + (if done { 0int } else { 1int }),
    {
        match digit_of(s[7 + k]) {
            Some(d) => {
                proof {
                    assert(s@.subrange(7, 7 + k + 1) =~= s@.subrange(7, 7 + k as int).push(
                        s@[7 + k as int],
                    ));
                    lemma_digits_push(s@.subrange(7, 7 + k as int), s@[7 + k as int]);
                }
                f = f * 10 + d;
                k = k + 1;
            },
            None => {
                done = true;
            },
        }
    }
    // k digits were read; the tag needs at least one and a bracket right after
    proof {
        assert forall|j: int| 1 <= j <= 3 && j != k implies !tag_with_fraction(s@, j) by {
            if j < k {
                assert(s@[7 + j] == s@.subrange(7, 7 + k as int)[j]);
                assert(is_digit(s@[7 + j]));
            } else if tag_with_fraction(s@, j) {
                assert(s@.subrange(7, 7 + j)[k as int] == s@[7 + k as int]);
                assert(is_digit(s@[7 + k as int]));
            }
        }
    }
    if k == 0 || 7 + k >= s.len() || s[7 + k] != ']' {
        proof {
            if k > 0 && 7 + k < s@.len() {
                assert(!tag_with_fraction(s@, k as int));
            }
        }
        return None;
    }
    assert(tag_with_fraction(s@, k as int));
    let frac = if k == 1 {
        f * 100
    } else if k == 2 {
        f * 10
    } else {
        f
    };
    Some((k, mm * 60000 + ss * 1000 + frac))
}

/// The time of the tag a lyric line starts with, in milliseconds, or
/// `None` when the line does not start with a tag.
pub fn get_lrc_millis(text: &str) -> (r: Option<u64>)
    ensures
        r matches Some(ms) ==> lrc_millis(text@) == Some(ms as nat),
        r is None ==> lrc_millis(text@) is None,
{
    let chars = chars_of(text);
    match parse_tag(&chars) {
        Some((_, ms)) => Some(ms),
        None => None,
    }
}

/// The characters of `s` from position `from` on.
fn tail_string(s: &Vec<char>, from: usize) -> (r: String)
    requires
        from <= s@.len(),
    ensures
        r@ == s@.subrange(from as int, s@.len() as int),
{
    let mut out: Vec<char> = Vec::new();
    let mut i = from;
    while i < s.len()
        invariant
            from <= i <= s@.len(),
            out@ == s@.subrange(from as int, i as int),
        decreases s@.len() - i,
    {
        out.push(s[i]);
        proof {
            assert(out@ =~= s@.subrange(from as int, i + 1));
        }
        i = i + 1;
    }
    string_from_chars(&out)
}

/// A lyric line split into the time of its tag and the text after it, or
/// `None` when the line does not start with a tag.
pub fn progress_lrc(text: &str) -> (r: Option<(u64, String)>)
    ensures
        r matches Some(p) ==> lrc_millis(text@) == Some(p.0 as nat) && lrc_text(text@) == Some(
            p.1@,
        ),
        r is None ==> lrc_millis(text@) is None && lrc_text(text@) is None,
{
    let chars = chars_of(text);
    match parse_tag(&chars) {
        Some((k, ms)) => Some((ms, tail_string(&chars, 8 + k))),
        None => None,
    }
}

/// The text of a lyric line after its tag, or `None` when the line does
/// not start with a tag.
pub fn replace_lrc(text: String) -> (r: Option<String>)
    ensures
        r matches Some(t) ==> lrc_text(text@) == Some(t@),
        r is None ==> lrc_text(text@) is None,
{
    let chars = chars_of(text.as_str());
    match parse_tag(&chars) {
        Some((k, _)) => Some(tail_string(&chars, 8 + k)),
        None => None,
    }
}

/// The timed lines of a lyric, in order; lines without a tag are left out.
pub fn parse_lyric_lines(lines: &Vec<String>) -> (r: Vec<(u64, String)>)
    ensures
        r@.len() == timed_lines(views(lines@)).len(),
        forall|i: int|
            0 <= i < r@.len() ==> (#[trigger] r@[i]).0 as nat == timed_lines(views(lines@))[i].0
                && r@[i].1@ == timed_lines(views(lines@))[i].1,
{
    let mut r: Vec<(u64, String)> = Vec::new();
    let mut i: usize = 0;
    while i < lines.len()
        invariant
            i <= lines@.len(),
            r@.len() == timed_lines(views(lines@.subrange(0, i as int))).len(),
            forall|j: int|
                0 <= j < r@.len() ==> (#[trigger] r@[j]).0 as nat == timed_lines(
                    views(lines@.subrange(0, i as int)),
                )[j].0 && r@[j].1@ == timed_lines(views(lines@.subrange(0, i as int)))[j].1,
        decreases lines@.len() - i,
    {
        proof {
            assert(views(lines@.subrange(0, i + 1)).drop_last() =~= views(
                lines@.subrange(0, i as int),
            ));
            assert(views(lines@.subrange(0, i + 1)).last() == lines@[i as int]@);
        }
        match progress_lrc(lines[i].as_str()) {
            Some(p) => {
                r.push(p);
            },
            None => {},
        }
        i = i + 1;
    }
    proof {
        assert(lines@.subrange(0, lines@.len() as int) =~= lines@);
    }
    r
}

/// The texts of the lines that start with a tag, without the tag, in
/// order (for translations and romanizations).
pub fn strip_lyric_lines(lines: Vec<String>) -> (r: Vec<String>)
    ensures
        views(r@) == stripped_lines(views(lines@)),
{
    let mut r: Vec<String> = Vec::new();
    let mut i: usize = 0;
    while i < lines.len()
        invariant
            i <= lines@.len(),
            views(r@) == stripped_lines(views(lines@.subrange(0, i as int))),
        decreases lines@.len() - i,
    {
        proof {
            assert(views(lines@.subrange(0, i + 1)).drop_last() =~= views(
                lines@.subrange(0, i as int),
            ));
            assert(views(lines@.subrange(0, i + 1)).last() == lines@[i as int]@);
        }
        let line = lines[i].clone();
        match replace_lrc(line) {
            Some(t) => {
                let ghost before = r@;
                r.push(t);
                proof {
                    assert(views(r@) =~= views(before).push(t@));
                }
            },
            None => {},
        }
        i = i + 1;
    }
    proof {
        assert(lines@.subrange(0, lines@.len() as int) =~= lines@);
    }
    r
}

/// The lyric timeline: each timed line lasts until the next one starts, the
/// last one until `total`, the length of the track. A lyric of exactly one
/// timed line has no timeline: the first line needs a second one to end.
pub fn build_timeline(timed: Vec<(u64, String)>, total: u64) -> (r: Vec<TimedLine>)
    requires
        timed@.len() != 1,
    ensures
        r@.len() == timed@.len(),
        forall|i: int|
            0 <= i < r@.len() ==> (#[trigger] r@[i]).0 == timed@[i].0 && r@[i].1 == line_end(
                timed@.map_values(|p: (u64, String)| p.0),
                i,
                total,
            ) && r@[i].2@ == timed@[i].1@,
{
    let ghost starts = timed@.map_values(|p: (u64, String)| p.0);
    let mut r: Vec<TimedLine> = Vec::new();
    let mut i: usize = 0;
    while i < timed.len()
        invariant
            i <= timed@.len(),
            timed@.len() != 1,
            starts == timed@.map_values(|p: (u64, String)| p.0),
            r@.len() == i,
            forall|j: int|
                0 <= j < i ==> (#[trigger] r@[j]).0 == timed@[j].0 && r@[j].1 == line_end(
                    starts,
                    j,
                    total,
                ) && r@[j].2@ == timed@[j].1@,
        decreases timed@.len() - i,
    {
        let end = if i + 1 >= timed.len() {
            total
        } else {
            timed[i + 1].0
        };
        let text = timed[i].1.clone();
        r.push((timed[i].0, end, text));
        i = i + 1;
    }
    r
}

/// A lyric ready for the lyric view: the timeline, and the translation and
/// romanization texts when the song has them.
#[derive(Clone, Debug)]
pub struct Lyrics {
    pub lyric: Vec<TimedLine>,
    pub tlyric: Option<Vec<String>>,
    pub romalrc: Option<Vec<String>>,
}

impl Lyrics {
    /// Assembles a lyric from its timed lines, the raw translation and
    /// romanization lines, and the length of the track.
    pub fn assemble(
        timed: Vec<(u64, String)>,
        tlyric: Option<Vec<String>>,
        romalrc: Option<Vec<String>>,
        total: u64,
    ) -> (r: Lyrics)
        requires
            timed@.len() != 1,
        ensures
            r.lyric@.len() == timed@.len(),
            forall|i: int|
                0 <= i < r.lyric@.len() ==> (#[trigger] r.lyric@[i]).0 == timed@[i].0
                    && r.lyric@[i].1 == line_end(
                    timed@.map_values(|p: (u64, String)| p.0),
                    i,
                    total,
                ) && r.lyric@[i].2@ == timed@[i].1@,
            r.tlyric is Some <==> tlyric is Some,
            r.tlyric matches Some(t) ==> views(t@) == stripped_lines(views(tlyric->0@)),
            r.romalrc is Some <==> romalrc is Some,
            r.romalrc matches Some(t) ==> views(t@) == stripped_lines(views(romalrc->0@)),
    {
        let lyric = build_timeline(timed, total);
        let tlyric = match tlyric {
            Some(v) => Some(strip_lyric_lines(v)),
            None => None,
        };
        let romalrc = match romalrc {
            Some(v) => Some(strip_lyric_lines(v)),
            None => None,
        };
        Lyrics { lyric, tlyric, romalrc }
    }
}

/// A time tag written from two-digit minutes, two-digit seconds and a
/// fraction of one to three digits.
pub open spec fn tag_text(m: Seq<char>, sec: Seq<char>, f: Seq<char>) -> Seq<char> {
    seq!['['] + m + seq![':'] + sec + seq!['.'] + f + seq![']']
}

/// Reading a line that starts with a well-formed tag gives back the tag's
/// time (fraction padded to thousandths) and exactly the text after it.
pub proof fn law_tag_then_text(m: Seq<char>, sec: Seq<char>, f: Seq<char>, rest: Seq<char>)
    requires
        m.len() == 2 && all_digits(m),
        sec.len() == 2 && all_digits(sec),
        1 <= f.len() <= 3 && all_digits(f),
    ensures
        lrc_millis(tag_text(m, sec, f) + rest) == Some(
            digits_value(m) * 60000 + digits_value(sec) * 1000 + fraction_millis(
                digits_value(f),
                f.len() as int,
            ),
        ),
        lrc_text(tag_text(m, sec, f) + rest) == Some(rest),
{
    let t = tag_text(m, sec, f) + rest;
    let k = f.len() as int;
    assert(t.subrange(1, 3) =~= m);
    assert(t.subrange(4, 6) =~= sec);
    assert(t.subrange(7, 7 + k) =~= f);
    assert(t[1] == m[0] && t[2] == m[1] && t[4] == sec[0] && t[5] == sec[1]);
    assert(t[7 + k] == ']');
    assert forall|j: int| 1 <= j < k implies !tag_with_fraction(t, j) by {
        assert(t[7 + j] == f[j]);
        assert(is_digit(f[j]));
    }
    assert(tag_with_fraction(t, k));
    assert(t.subrange(8 + k, t.len() as int) =~= rest);
}

/// Every line that starts with a well-formed tag becomes one timed line,
/// whatever its text, empty text included: appending such a line appends
/// its time (minutes, seconds, and the fraction as thousandths) and its
/// text after the tag. A line without a tag adds nothing.
pub proof fn law_every_tagged_line_is_timed(
    lines: Seq<Seq<char>>,
    m: Seq<char>,
    sec: Seq<char>,
    f: Seq<char>,
    rest: Seq<char>,
    plain: Seq<char>,
)
    requires
        m.len() == 2 && all_digits(m),
        sec.len() == 2 && all_digits(sec),
        1 <= f.len() <= 3 && all_digits(f),
        lrc_text(plain) is None,
    ensures
        timed_lines(lines.push(tag_text(m, sec, f) + rest)) == timed_lines(lines).push(
            (
                digits_value(m) * 60000 + digits_value(sec) * 1000 + (if f.len() == 1 {
                    digits_value(f) * 100
                } else if f.len() == 2 {
                    digits_value(f) * 10
                } else {
                    digits_value(f)
                }),
                rest,
            ),
        ),
        timed_lines(lines.push(plain)) == timed_lines(lines),
        timed_lines(lines.push(tag_text(m, sec, f) + rest)).len() == timed_lines(lines).len() + 1,
{
    law_tag_then_text(m, sec, f, rest);
    let l = tag_text(m, sec, f) + rest;
    assert(lines.push(l).drop_last() =~= lines);
    assert(lines.push(plain).drop_last() =~= lines);
    assert(fraction_digits(plain) is None);
}

/// Every tagged line of a translation or romanization keeps its text, in
/// its place, repeated texts included, so that the `i`-th text belongs to
/// the `i`-th tagged line; a line without a tag adds nothing.
pub proof fn law_every_tagged_line_is_stripped(
    lines: Seq<Seq<char>>,
    m: Seq<char>,
    sec: Seq<char>,
    f: Seq<char>,
    rest: Seq<char>,
    plain: Seq<char>,
)
    requires
        m.len() == 2 && all_digits(m),
        sec.len() == 2 && all_digits(sec),
        1 <= f.len() <= 3 && all_digits(f),
        lrc_text(plain) is None,
    ensures
        stripped_lines(lines.push(tag_text(m, sec, f) + rest)) == stripped_lines(lines).push(rest),
        stripped_lines(lines.push(plain)) == stripped_lines(lines),
{
    law_tag_then_text(m, sec, f, rest);
    let l = tag_text(m, sec, f) + rest;
    assert(lines.push(l).drop_last() =~= lines);
    assert(lines.push(plain).drop_last() =~= lines);
}

/// A line has a time exactly when it has a text after a tag: the three
/// readers of a line (`get_lrc_millis`, `progress_lrc`, `replace_lrc`)
/// accept the same lines.
pub proof fn law_readers_agree(s: Seq<char>)
    ensures
        lrc_millis(s) is Some <==> lrc_text(s) is Some,
{
}

/// With tag times in non-decreasing order, the timeline lines follow one
/// another without overlap: a line ends where the next starts, the last
/// ends with the track, and no two lines are current at the same time.
pub proof fn law_timeline_no_overlap(starts: Seq<u64>, total: u64, now: u64, i: int, j: int)
    requires
        forall|a: int, b: int| 0 <= a <= b < starts.len() ==> starts[a] <= starts[b],
        0 <= i < j < starts.len(),
    ensures
        line_end(starts, i, total) == starts[i + 1],
        line_end(starts, starts.len() - 1, total) == total,
        !(starts[i] <= now < line_end(starts, i, total) && starts[j] <= now < line_end(
            starts,
            j,
            total,
        )),
{
}

} // verus!
