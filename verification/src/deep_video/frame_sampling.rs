//! Frame sampling: interval timestamps, the frames to extract, and timestamps
//! reported by the video tool.

use vstd::prelude::*;
use crate::text::{
    char_pos, lemma_char_pos, lemma_trim_start_skip, occurs_at_exec, chars_of, char_is_whitespace, is_ws, join_path, join_path_str, occurs_at, padded_decimal, zeros,
    push_padded_decimal, trim_start,
};
use crate::deep_video::types::{frame_id_for, AnalysisProfileOptions, EvidenceFrame, FrameSource};

verus! {

/// `ms` rounded to the nearest 100 ms (halves up).
pub open spec fn round_to_tenth_spec(ms: int) -> int {
    ((ms + 50) / 100) * 100
}

/// The number of sampled instants: the first `k` with `k >= max_frames` or
/// `k * interval_ms >= duration_ms`, counting from `k`.
pub open spec fn sample_count_from(k: nat, duration_ms: nat, interval_ms: nat, max_frames: nat) -> nat
    decreases max_frames - k,
{
    if k >= max_frames || k * interval_ms >= duration_ms {
        k
    } else {
        sample_count_from(k + 1, duration_ms, interval_ms, max_frames)
    }
}

/// Sampling instants every `interval_ms` from the start, while before the end
/// and fewer than `max_frames`, each rounded to 100 ms; a single instant 0 when
/// the video has no duration or no instant is taken.
pub open spec fn interval_timestamps_spec(duration_ms: nat, interval_ms: nat, max_frames: nat) -> Seq<i64> {
    let n = sample_count_from(0, duration_ms, interval_ms, max_frames);
    if duration_ms == 0 || n == 0 {
        seq![0i64]
    } else {
        Seq::new(n, |k: int| round_to_tenth_spec(k * interval_ms) as i64)
    }
}

fn round_to_tenth(ms: u64) -> (r: i64)
    requires
        ms + 50 <= i64::MAX,
    ensures
        r == round_to_tenth_spec(ms as int),
{
    (((ms + 50) / 100) * 100) as i64
}

proof fn lemma_count_done(k: nat, d: nat, i: nat, m: nat)
    requires
        k >= m || k * i >= d,
    ensures
        sample_count_from(k, d, i, m) == k,
{
}

proof fn lemma_count_step(k: nat, d: nat, i: nat, m: nat)
    requires
        k < m,
        k * i < d,
    ensures
        sample_count_from(k, d, i, m) == sample_count_from(k + 1, d, i, m),
{
}

proof fn lemma_count_bounds(k: nat, d: nat, i: nat, m: nat)
    ensures
        sample_count_from(k, d, i, m) >= k,
        k <= m ==> sample_count_from(k, d, i, m) <= m,
        forall|j: nat| k <= j < sample_count_from(k, d, i, m) ==> j < m && #[trigger] (j * i) < d,
    decreases m - k,
{
    if !(k >= m || k * i >= d) {
        lemma_count_bounds(k + 1, d, i, m);
    }
}

proof fn lemma_round_strictly_increasing(x: int, y: int)
    requires
        0 <= x,
        x + 100 <= y,
    ensures
        round_to_tenth_spec(x) < round_to_tenth_spec(y),
        round_to_tenth_spec(y) <= y + 50,
{
    assert(((x + 50) / 100) * 100 < ((y + 50) / 100) * 100) by (nonlinear_arith)
        requires
            0 <= x,
            x + 100 <= y,
    ;
    assert(((y + 50) / 100) * 100 <= y + 50) by (nonlinear_arith)
        requires
            0 <= y,
    ;
}

/// The sampling instants start at 0, are never more than `max_frames` (at
/// least one is always taken), and strictly increase when the interval is at
/// least 100 ms (every profile's interval, once clamped, is at least a second).
pub proof fn lemma_interval_timestamps_laws(duration_ms: nat, interval_ms: nat, max_frames: nat)
    requires
        duration_ms + 50 <= i64::MAX,
    ensures
        ({
            let ts = interval_timestamps_spec(duration_ms, interval_ms, max_frames);
            &&& ts.len() >= 1
            &&& ts[0] == 0
            &&& max_frames >= 1 ==> ts.len() <= max_frames
            &&& interval_ms >= 100 ==> forall|a: int, b: int| 0 <= a < b < ts.len() ==> #[trigger] ts[a] < #[trigger] ts[b]
        }),
{
    let n = sample_count_from(0, duration_ms, interval_ms, max_frames);
    lemma_count_bounds(0, duration_ms, interval_ms, max_frames);
    let ts = interval_timestamps_spec(duration_ms, interval_ms, max_frames);
    if !(duration_ms == 0 || n == 0) {
        assert(round_to_tenth_spec(0) == 0);
        if interval_ms >= 100 {
            assert forall|a: int, b: int| 0 <= a < b < ts.len() implies #[trigger] ts[a] < #[trigger] ts[b] by {
                let x = a * interval_ms;
                let y = b * interval_ms;
                assert(x + 100 <= y) by (nonlinear_arith)
                    requires
                        0 <= a < b,
                        interval_ms >= 100,
                        x == a * interval_ms,
                        y == b * interval_ms,
                ;
                assert(0 <= x) by (nonlinear_arith)
                    requires
                        0 <= a,
                        x == a * interval_ms,
                ;
                assert((b as nat) * interval_ms < duration_ms);
                lemma_round_strictly_increasing(x, y);
            }
        }
    }
}

/// Sampling instants in milliseconds (see `interval_timestamps_spec`).
pub fn build_interval_timestamps(duration_ms: u64, options: &AnalysisProfileOptions) -> (r: Vec<i64>)
    requires
        duration_ms + 50 <= i64::MAX,
    ensures
        r@ == interval_timestamps_spec(
            duration_ms as nat,
            options.interval_ms as nat,
            options.max_frames as nat,
        ),
{
    let ghost d = duration_ms as nat;
    let ghost iv = options.interval_ms as nat;
    let ghost m = options.max_frames as nat;
    if duration_ms == 0 {
        let mut v: Vec<i64> = Vec::new();
        v.push(0);
        assert(v@ =~= seq![0i64]);
        return v;
    }
    let interval = options.interval_ms;
    let mut timestamps: Vec<i64> = Vec::new();
    let mut current: u64 = 0;
    let mut k: usize = 0;
    loop
        invariant_except_break
            k <= options.max_frames,
            current == k * iv,
            interval == iv,
            m == options.max_frames,
            d == duration_ms,
            d > 0,
            duration_ms + 50 <= i64::MAX,
            sample_count_from(k as nat, d, iv, m) == sample_count_from(0, d, iv, m),
            timestamps@ == Seq::new(k as nat, |j: int| round_to_tenth_spec(j * iv) as i64),
        ensures
            k == sample_count_from(0, d, iv, m),
            timestamps@ == Seq::new(k as nat, |j: int| round_to_tenth_spec(j * iv) as i64),
        decreases options.max_frames - k,
    {
        if !(current < duration_ms && k < options.max_frames) {
            proof {
                lemma_count_done(k as nat, d, iv, m);
            }
            break;
        }
        proof {
            lemma_count_step(k as nat, d, iv, m);
        }
        let ghost prev = timestamps@;
        timestamps.push(round_to_tenth(current));
        assert(timestamps@ =~= Seq::new((k + 1) as nat, |j: int| round_to_tenth_spec(j * iv) as i64));
        assert((k + 1) * iv == k * iv + iv) by (nonlinear_arith);
        k = k + 1;
        if interval > u64::MAX - current {
            proof {
                assert(k * iv >= d);
                lemma_count_done(k as nat, d, iv, m);
            }
            break;
        }
        current = current + interval;
    }
    if timestamps.len() == 0 {
        timestamps.push(0);
        assert(timestamps@ =~= seq![0i64]);
    }
    timestamps
}

/// The frame extracted at the `position`-th sampling instant: numbered from 1,
/// stored as `frame-NNN.jpg` under `frames_dir`, the first marked as the opening.
pub open spec fn planned_frame(frames_dir: Seq<char>, position: int, timestamp_ms: i64) -> (
    Seq<char>,
    nat,
    Option<i64>,
    Seq<char>,
    FrameSource,
) {
    let index = (position + 1) as nat;
    (
        frame_id_for(index),
        index,
        Some(timestamp_ms),
        join_path(frames_dir, "frame-"@ + padded_decimal(index, 3) + ".jpg"@),
        if index == 1 {
            FrameSource::Opening
        } else {
            FrameSource::Interval
        },
    )
}

/// The frames to extract at the given instants (see `planned_frame`).
pub fn plan_interval_frames(frames_dir: &str, timestamps: &Vec<i64>) -> (r: Vec<EvidenceFrame>)
    requires
        timestamps.len() < usize::MAX,
    ensures
        r.len() == timestamps.len(),
        forall|k: int|
            0 <= k < r.len() ==> planned_frame(frames_dir@, k, timestamps@[k]) == (
                #[trigger] r@[k].frame_id@,
                r@[k].index as nat,
                r@[k].timestamp_ms,
                r@[k].image_path@,
                r@[k].source,
            ),
{
    let mut frames: Vec<EvidenceFrame> = Vec::new();
    let mut position: usize = 0;
    while position < timestamps.len()
        invariant
            position <= timestamps.len(),
            timestamps.len() < usize::MAX,
            frames.len() == position,
            forall|k: int|
                0 <= k < position ==> planned_frame(frames_dir@, k, timestamps@[k]) == (
                    #[trigger] frames@[k].frame_id@,
                    frames@[k].index as nat,
                    frames@[k].timestamp_ms,
                    frames@[k].image_path@,
                    frames@[k].source,
                ),
        decreases timestamps.len() - position,
    {
        let index = position + 1;
        let mut name = String::new();
        name.append("frame-");
        push_padded_decimal(&mut name, index as u64, 3);
        name.append(".jpg");
        let image_path = join_path_str(frames_dir, name.as_str());
        let source = if index == 1 {
            FrameSource::Opening
        } else {
            FrameSource::Interval
        };
        let frame = EvidenceFrame::new(index, Some(timestamps[position]), image_path, source);
        proof {
            assert(name@ =~= "frame-"@ + padded_decimal(index as nat, 3) + ".jpg"@);
        }
        frames.push(frame);
        position = position + 1;
    }
    frames
}

/// The position of the first `'\n'` in `s`, or its length when there is none.
pub open spec fn newline_pos(s: Seq<char>) -> int
    decreases s.len(),
{
    if s.len() == 0 || s[0] == '\n' {
        0
    } else {
        1 + newline_pos(s.drop_first())
    }
}

/// `newline_pos` finds the first newline, or reports that there is none.
pub proof fn lemma_newline_pos(s: Seq<char>)
    ensures
        0 <= newline_pos(s) <= s.len(),
        newline_pos(s) < s.len() ==> s[newline_pos(s)] == '\n',
        forall|j: int| 0 <= j < newline_pos(s) ==> s[j] != '\n',
    decreases s.len(),
{
    if s.len() > 0 && s[0] != '\n' {
        lemma_newline_pos(s.drop_first());
        assert forall|j: int| 0 <= j < newline_pos(s) implies s[j] != '\n' by {
            if j > 0 {
                assert(s[j] == s.drop_first()[j - 1]);
            }
        }
    }
}

/// A line without its carriage return, when it ends with one.
pub open spec fn strip_cr(line: Seq<char>) -> Seq<char> {
    if line.len() > 0 && line.last() == '\r' {
        line.drop_last()
    } else {
        line
    }
}

/// The lines of `s` (`str::lines`): split at `\n`, a `\r` before it removed;
/// a final line without `\n` is kept as it is.
pub open spec fn lines_of(s: Seq<char>) -> Seq<Seq<char>>
    decreases s.len(),
{
    if s.len() == 0 {
        seq![]
    } else {
        let p = newline_pos(s);
        proof {
            lemma_newline_pos(s);
        }
        if p >= s.len() {
            seq![s]
        } else {
            seq![strip_cr(s.take(p))] + lines_of(s.skip(p + 1))
        }
    }
}

/// The first position at or after `i` where `needle` occurs in `hay`, or -1.
pub open spec fn find_from(hay: Seq<char>, needle: Seq<char>, i: int) -> int
    decreases hay.len() + 1 - i,
{
    if i < 0 || i + needle.len() > hay.len() {
        -1
    } else if occurs_at(hay, needle, i) {
        i
    } else {
        find_from(hay, needle, i + 1)
    }
}

/// The number of leading characters of `s` that are not whitespace.
pub open spec fn token_len(s: Seq<char>) -> nat
    decreases s.len(),
{
    if s.len() == 0 || is_ws(s[0]) {
        0
    } else {
        1 + token_len(s.drop_first())
    }
}

/// The first whitespace-separated word of `s` (empty when there is none).
pub open spec fn first_token(s: Seq<char>) -> Seq<char> {
    let t = trim_start(s);
    t.take(token_len(t) as int)
}

/// An ASCII decimal digit.
pub open spec fn is_digit(c: char) -> bool {
    '0' <= c <= '9'
}

/// Every character is an ASCII decimal digit.
pub open spec fn all_digits(s: Seq<char>) -> bool {
    forall|i: int| 0 <= i < s.len() ==> is_digit(#[trigger] s[i])
}

/// The number written by the decimal digits `s` (0 when empty).
pub open spec fn digits_value(s: Seq<char>) -> nat
    decreases s.len(),
{
    if s.len() == 0 {
        0
    } else {
        digits_value(s.drop_last()) * 10 + ((s.last() as int) - ('0' as int)) as nat
    }
}

/// An exponent marker.
pub open spec fn is_exp_marker(c: char) -> bool {
    c == 'e' || c == 'E'
}

/// The first position of an exponent marker in `s`, or -1.
pub open spec fn exp_pos(s: Seq<char>) -> int
    decreases s.len(),
{
    if s.len() == 0 {
        -1
    } else if is_exp_marker(s[0]) {
        0
    } else {
        let p = exp_pos(s.drop_first());
        if p < 0 {
            -1
        } else {
            p + 1
        }
    }
}

/// `exp_pos` finds the first exponent marker, or reports that there is none.
proof fn lemma_exp_pos(s: Seq<char>)
    ensures
        -1 <= exp_pos(s) < s.len(),
        exp_pos(s) >= 0 ==> is_exp_marker(s[exp_pos(s)]),
        forall|j: int| 0 <= j < s.len() && (exp_pos(s) < 0 || j < exp_pos(s)) ==> !is_exp_marker(s[j]),
    decreases s.len(),
{
    if s.len() > 0 && !is_exp_marker(s[0]) {
        lemma_exp_pos(s.drop_first());
        assert forall|j: int|
            0 <= j < s.len() && (exp_pos(s) < 0 || j < exp_pos(s)) implies !is_exp_marker(s[j]) by {
            if j > 0 {
                assert(s[j] == s.drop_first()[j - 1]);
            }
        }
    }
}

/// The value of an exponent: an optional sign, then at least one digit.
pub open spec fn exponent_value(e: Seq<char>) -> Option<int> {
    let signed = e.len() > 0 && (e[0] == '+' || e[0] == '-');
    let ds = if signed {
        e.drop_first()
    } else {
        e
    };
    if ds.len() > 0 && all_digits(ds) {
        Some(
            if signed && e[0] == '-' {
                -(digits_value(ds) as int)
            } else {
                digits_value(ds) as int
            },
        )
    } else {
        None
    }
}

/// The digits of `d` in front of a decimal point placed after position `p`
/// (zeros stand for the places beyond the last digit).
pub open spec fn digits_before(d: Seq<char>, p: int) -> Seq<char> {
    if p <= 0 {
        seq![]
    } else if p <= d.len() {
        d.take(p)
    } else {
        d + zeros((p - d.len()) as nat)
    }
}

/// The number written by the digits `d` with the decimal point after position
/// `p`, rounded half up to a whole number.
pub open spec fn rounded_at(d: Seq<char>, p: int) -> nat {
    digits_value(digits_before(d, p)) + if 0 <= p < d.len() && d[p] >= '5' {
        1nat
    } else {
        0nat
    }
}

/// An unsigned decimal number of seconds, in milliseconds rounded half up:
/// digits with at most one `.` and at least one digit (`I.F`, `I.`, `.F` or
/// `I`), then optionally an exponent (`e` or `E`, an optional sign, digits).
/// Words such as `inf` or `nan` are no number of milliseconds and give none.
pub open spec fn unsigned_millis(t: Seq<char>) -> Option<nat> {
    let e = exp_pos(t);
    let mant = if e < 0 {
        t
    } else {
        t.take(e)
    };
    let exp = if e < 0 {
        Some(0int)
    } else {
        exponent_value(t.skip(e + 1))
    };
    let ip = int_part_of(mant);
    let fp = frac_part_of(mant);
    match exp {
        Some(x) => if all_digits(ip) && all_digits(fp) && ip.len() + fp.len() > 0 {
            Some(rounded_at(ip + fp, ip.len() + x + 3))
        } else {
            None
        },
        None => None,
    }
}

/// A decimal number of seconds with an optional sign, in milliseconds; none
/// when it is malformed or its magnitude does not fit an `i64`.
pub open spec fn parse_millis_spec(t: Seq<char>) -> Option<i64> {
    let signed = t.len() > 0 && (t[0] == '+' || t[0] == '-');
    let body = if signed {
        t.drop_first()
    } else {
        t
    };
    match unsigned_millis(body) {
        Some(v) => if v <= i64::MAX {
            if signed && t[0] == '-' {
                Some(-(v as int) as i64)
            } else {
                Some(v as i64)
            }
        } else {
            None
        },
        None => None,
    }
}

/// The `pts_time:` value of one line, if it has a well-formed one.
pub open spec fn line_pts_ms(line: Seq<char>) -> Option<i64> {
    let i = find_from(line, "pts_time:"@, 0);
    if i < 0 {
        None
    } else {
        parse_millis_spec(first_token(line.skip(i + 9)))
    }
}

/// The `pts_time:` values of the lines, in order, skipping lines without one.
pub open spec fn pts_values(lines: Seq<Seq<char>>) -> Seq<i64>
    decreases lines.len(),
{
    if lines.len() == 0 {
        seq![]
    } else {
        let rest = pts_values(lines.drop_first());
        match line_pts_ms(lines[0]) {
            Some(v) => seq![v] + rest,
            None => rest,
        }
    }
}

/// The first position where `needle` occurs in `hay`.
fn find_first(hay: &Vec<char>, needle: &Vec<char>) -> (r: Option<usize>)
    ensures
        match r {
            Some(i) => i as int == find_from(hay@, needle@, 0),
            None => find_from(hay@, needle@, 0) == -1,
        },
{
    if needle.len() > hay.len() {
        return None;
    }
    let last = hay.len() - needle.len();
    let mut i: usize = 0;
    while i < last
        invariant
            last == hay.len() - needle.len(),
            i <= last,
            find_from(hay@, needle@, 0) == find_from(hay@, needle@, i as int),
        decreases last - i,
    {
        if occurs_at_exec(hay, needle, i) {
            return Some(i);
        }
        i = i + 1;
    }
    if occurs_at_exec(hay, needle, last) {
        return Some(last);
    }
    assert(find_from(hay@, needle@, last + 1) == -1);
    None
}

proof fn lemma_token_len(s: Seq<char>, k: int)
    requires
        0 <= k <= s.len(),
        forall|j: int| 0 <= j < k ==> !is_ws(#[trigger] s[j]),
    ensures
        token_len(s) == k + token_len(s.skip(k)),
    decreases k,
{
    if k > 0 {
        let t = s.drop_first();
        assert forall|j: int| 0 <= j < k - 1 implies !is_ws(#[trigger] t[j]) by {
            assert(t[j] == s[j + 1]);
        }
        lemma_token_len(t, k - 1);
        assert(t.skip(k - 1) =~= s.skip(k));
    } else {
        assert(s.skip(0) =~= s);
    }
}

/// The first whitespace-separated word of `line` from position `start` on.
fn token_at(line: &Vec<char>, start: usize) -> (r: Vec<char>)
    requires
        start <= line.len(),
    ensures
        r@ == first_token(line@.skip(start as int)),
{
    let ghost s = line@.skip(start as int);
    let mut lo: usize = start;
    while lo < line.len() && char_is_whitespace(line[lo])
        invariant
            start <= lo <= line.len(),
            s == line@.skip(start as int),
            forall|j: int| 0 <= j < lo - start ==> is_ws(#[trigger] s[j]),
        decreases line.len() - lo,
    {
        lo = lo + 1;
    }
    proof {
        lemma_trim_start_skip(s, lo - start);
        assert(s.subrange(lo - start, s.len() as int) =~= line@.skip(lo as int));
    }
    let ghost t = line@.skip(lo as int);
    assert(trim_start(t) == t);
    let mut hi: usize = lo;
    let mut r: Vec<char> = Vec::new();
    while hi < line.len() && !char_is_whitespace(line[hi])
        invariant
            lo <= hi <= line.len(),
            t == line@.skip(lo as int),
            r@ == t.take(hi - lo),
            forall|j: int| 0 <= j < hi - lo ==> !is_ws(#[trigger] t[j]),
        decreases line.len() - hi,
    {
        r.push(line[hi]);
        hi = hi + 1;
        assert(r@ =~= t.take(hi - lo));
    }
    proof {
        lemma_token_len(t, hi - lo);
        let rest = t.skip(hi - lo);
        if rest.len() > 0 {
            assert(rest[0] == line@[hi as int]);
        }
        assert(token_len(rest) == 0);
    }
    r
}

proof fn lemma_digits_value_prefix(s: Seq<char>, k: int)
    requires
        0 <= k <= s.len(),
        all_digits(s),
    ensures
        digits_value(s) >= digits_value(s.take(k)),
    decreases s.len(),
{
    if k < s.len() {
        let t = s.drop_last();
        assert(t.take(k) =~= s.take(k));
        assert(is_digit(s[s.len() - 1]));
        lemma_digits_value_prefix(t, k);
    } else {
        assert(s.take(k) =~= s);
    }
}

fn digit_value(c: char) -> (d: u64)
    requires
        is_digit(c),
    ensures
        d == (c as int) - ('0' as int),
{
    (c as u32 - '0' as u32) as u64
}

/// The part before the first `.` (all of `t` when there is none).
pub open spec fn int_part_of(t: Seq<char>) -> Seq<char> {
    let dot = char_pos(t, '.');
    if dot < 0 {
        t
    } else {
        t.take(dot)
    }
}

/// The part after the first `.` (empty when there is none).
pub open spec fn frac_part_of(t: Seq<char>) -> Seq<char> {
    let dot = char_pos(t, '.');
    if dot < 0 {
        seq![]
    } else {
        t.skip(dot + 1)
    }
}

fn split_at_dot(t: &Vec<char>) -> (r: (Vec<char>, Vec<char>))
    ensures
        r.0@ == int_part_of(t@),
        r.1@ == frac_part_of(t@),
{
    proof {
        lemma_char_pos(t@, '.');
    }
    let mut ip: Vec<char> = Vec::new();
    let mut i: usize = 0;
    while i < t.len() && t[i] != '.'
        invariant
            i <= t.len(),
            ip@ == t@.take(i as int),
            forall|j: int| 0 <= j < i ==> t@[j] != '.',
        decreases t.len() - i,
    {
        ip.push(t[i]);
        i = i + 1;
        assert(ip@ =~= t@.take(i as int));
    }
    let mut fr: Vec<char> = Vec::new();
    if i < t.len() {
        let mut k: usize = i + 1;
        while k < t.len()
            invariant
                i < k <= t.len(),
                fr@ == t@.subrange(i + 1, k as int),
            decreases t.len() - k,
        {
            fr.push(t[k]);
            k = k + 1;
            assert(fr@ =~= t@.subrange(i + 1, k as int));
        }
        proof {
            let p = char_pos(t@, '.');
            assert(p == i) by {
                if p < 0 || p > i {
                    assert(false);
                }
            }
            assert(fr@ =~= t@.skip(i + 1));
        }
    } else {
        proof {
            let p = char_pos(t@, '.');
            if p >= 0 {
                assert(false);
            }
            assert(ip@ =~= t@);
            assert(fr@ =~= Seq::<char>::empty());
        }
    }
    (ip, fr)
}

/// The characters of `t` from position `start` on.
fn tail_from(t: &Vec<char>, start: usize) -> (r: Vec<char>)
    requires
        start <= t.len(),
    ensures
        r@ == t@.skip(start as int),
{
    let mut r: Vec<char> = Vec::new();
    let mut i: usize = start;
    while i < t.len()
        invariant
            start <= i <= t.len(),
            r@ == t@.subrange(start as int, i as int),
        decreases t.len() - i,
    {
        r.push(t[i]);
        i = i + 1;
        assert(r@ =~= t@.subrange(start as int, i as int));
    }
    assert(r@ =~= t@.skip(start as int));
    r
}

/// Whether every character is a decimal digit.
fn all_digits_exec(s: &Vec<char>) -> (r: bool)
    ensures
        r == all_digits(s@),
{
    let mut i: usize = 0;
    while i < s.len()
        invariant
            i <= s.len(),
            forall|j: int| 0 <= j < i ==> is_digit(#[trigger] s@[j]),
        decreases s.len() - i,
    {
        if !('0' <= s[i] && s[i] <= '9') {
            return false;
        }
        i = i + 1;
    }
    true
}

/// `a` followed by `b`.
fn concat_chars(a: &Vec<char>, b: &Vec<char>) -> (r: Vec<char>)
    ensures
        r@ == a@ + b@,
{
    let mut r: Vec<char> = Vec::new();
    let mut i: usize = 0;
    while i < a.len()
        invariant
            i <= a.len(),
            r@ == a@.take(i as int),
        decreases a.len() - i,
    {
        r.push(a[i]);
        i = i + 1;
        assert(r@ =~= a@.take(i as int));
    }
    let mut k: usize = 0;
    while k < b.len()
        invariant
            k <= b.len(),
            r@ == a@ + b@.take(k as int),
        decreases b.len() - k,
    {
        r.push(b[k]);
        k = k + 1;
        assert(r@ =~= a@ + b@.take(k as int));
    }
    assert(a@.take(a.len() as int) =~= a@);
    assert(b@.take(b.len() as int) =~= b@);
    r
}

/// The part before the first exponent marker, and the part after it when there is one.
fn split_at_exp(t: &Vec<char>) -> (r: (Vec<char>, Option<Vec<char>>))
    ensures
        r.0@ == (if exp_pos(t@) < 0 {
            t@
        } else {
            t@.take(exp_pos(t@))
        }),
        match r.1 {
            Some(e) => exp_pos(t@) >= 0 && e@ == t@.skip(exp_pos(t@) + 1),
            None => exp_pos(t@) < 0,
        },
{
    proof {
        lemma_exp_pos(t@);
    }
    let mut m: Vec<char> = Vec::new();
    let mut i: usize = 0;
    while i < t.len() && !(t[i] == 'e' || t[i] == 'E')
        invariant
            i <= t.len(),
            m@ == t@.take(i as int),
            forall|j: int| 0 <= j < i ==> !is_exp_marker(t@[j]),
        decreases t.len() - i,
    {
        m.push(t[i]);
        i = i + 1;
        assert(m@ =~= t@.take(i as int));
    }
    if i < t.len() {
        proof {
            let p = exp_pos(t@);
            assert(p == i) by {
                if p < 0 || p > i {
                    assert(is_exp_marker(t@[i as int]));
                    assert(false);
                }
            }
        }
        let e = tail_from(t, i + 1);
        (m, Some(e))
    } else {
        proof {
            let p = exp_pos(t@);
            if p >= 0 {
                assert(false);
            }
            assert(m@ =~= t@);
        }
        (m, None)
    }
}

/// The bound above which an exponent's magnitude is not kept exactly.
spec fn exp_cap() -> int {
    100_000_000_000_000_000_000
}

/// An exponent as its sign and magnitude; a magnitude above `exp_cap()` is
/// only reported as large (`big`).
fn parse_exponent(e: &Vec<char>) -> (r: Option<(bool, u128, bool)>)
    ensures
        match r {
            Some((neg, m, big)) => exponent_value(e@) is Some && {
                let x = exponent_value(e@)->0;
                &&& !big ==> m <= exp_cap() && x == (if neg {
                    -(m as int)
                } else {
                    m as int
                })
                &&& big ==> (if neg {
                    x < -exp_cap()
                } else {
                    x > exp_cap()
                })
            },
            None => exponent_value(e@) is None,
        },
{
    let signed = e.len() > 0 && (e[0] == '+' || e[0] == '-');
    let neg = signed && e[0] == '-';
    let ds = if signed {
        tail_from(e, 1)
    } else {
        tail_from(e, 0)
    };
    proof {
        assert(e@.skip(0) =~= e@);
        if signed {
            assert(e@.skip(1) =~= e@.drop_first());
        }
    }
    assert(ds@ == (if signed {
        e@.drop_first()
    } else {
        e@
    }));
    if ds.len() == 0 {
        return None;
    }
    let mut m: u128 = 0;
    let mut big = false;
    let mut i: usize = 0;
    while i < ds.len()
        invariant
            i <= ds.len(),
            signed == (e@.len() > 0 && (e@[0] == '+' || e@[0] == '-')),
            neg == (signed && e@[0] == '-'),
            ds@ == (if signed {
                e@.drop_first()
            } else {
                e@
            }),
            ds@.len() > 0,
            forall|j: int| 0 <= j < i ==> is_digit(#[trigger] ds@[j]),
            !big ==> m == digits_value(ds@.take(i as int)) && m <= exp_cap(),
            big ==> digits_value(ds@.take(i as int)) > exp_cap(),
        decreases ds.len() - i,
    {
        let c = ds[i];
        if !('0' <= c && c <= '9') {
            assert(!is_digit(ds@[i as int]));
            return None;
        }
        proof {
            let pre = ds@.take(i + 1);
            assert(pre.drop_last() =~= ds@.take(i as int));
            assert(pre.last() == c);
        }
        if !big {
            m = m * 10 + digit_value(c) as u128;
            if m > 100_000_000_000_000_000_000 {
                big = true;
            }
        }
        i = i + 1;
    }
    assert(ds@.take(i as int) =~= ds@);
    Some((neg, m, big))
}

/// Appending a zero digit multiplies the value by ten.
proof fn lemma_push_zero(s: Seq<char>, k: nat)
    ensures
        digits_value(s + zeros(k + 1)) == digits_value(s + zeros(k)) * 10,
{
    let t = s + zeros(k + 1);
    assert(t.drop_last() =~= s + zeros(k));
    assert(t.last() == '0');
}

/// Zeros appended to digits of value zero leave the value zero.
proof fn lemma_zero_pad(s: Seq<char>, n: nat)
    requires
        digits_value(s) == 0,
    ensures
        digits_value(s + zeros(n)) == 0,
    decreases n,
{
    if n == 0 {
        assert(s + zeros(0) =~= s);
    } else {
        lemma_zero_pad(s, (n - 1) as nat);
        lemma_push_zero(s, (n - 1) as nat);
    }
}

/// The digits `d` and any zeros after them are all digits.
proof fn lemma_padded_digits(d: Seq<char>, n: nat)
    requires
        all_digits(d),
    ensures
        all_digits(d + zeros(n)),
{
    assert forall|j: int| 0 <= j < (d + zeros(n)).len() implies is_digit(#[trigger] (d + zeros(n))[j]) by {
        if j >= d.len() {
            assert((d + zeros(n))[j] == '0');
        }
    }
}

/// `rounded_at(d, q)` as a number, when it is at most `i64::MAX`. `far` stands
/// for a point so far right that only zeros follow the digits up to it.
fn rounded_at_exec(d: &Vec<char>, p: i128, far: bool, Ghost(q): Ghost<int>) -> (r: Option<u64>)
    requires
        all_digits(d@),
        !far ==> p == q,
        far ==> q > d.len() + i64::MAX,
    ensures
        match r {
            Some(v) => v == rounded_at(d@, q) && v <= i64::MAX,
            None => rounded_at(d@, q) > i64::MAX,
        },
{
    let max: u64 = 0x7fff_ffff_ffff_ffff;
    let n = d.len();
    if !far && p <= 0 {
        let round: u64 = if p == 0 && n > 0 && d[0] >= '5' {
            1
        } else {
            0
        };
        assert(digits_before(d@, q) =~= Seq::<char>::empty());
        assert(digits_value(Seq::<char>::empty()) == 0);
        return Some(round);
    }
    let lim: usize = if !far && p < n as i128 {
        p as usize
    } else {
        n
    };
    let ghost whole = digits_before(d@, q);
    proof {
        if q <= d.len() {
            assert(whole =~= d@.take(q));
        } else {
            lemma_padded_digits(d@, (q - d.len()) as nat);
        }
        assert(all_digits(whole));
        assert(whole.take(lim as int) =~= d@.take(lim as int));
    }
    let mut v: u64 = 0;
    let mut i: usize = 0;
    while i < lim
        invariant
            lim <= n == d.len(),
            lim <= q,
            all_digits(d@),
            all_digits(whole),
            whole == digits_before(d@, q),
            whole.take(lim as int) == d@.take(lim as int),
            i <= lim,
            v == digits_value(d@.take(i as int)),
            v <= max,
            max == i64::MAX,
        decreases lim - i,
    {
        let c = d[i];
        proof {
            let pre = d@.take(i + 1);
            assert(pre.drop_last() =~= d@.take(i as int));
            assert(pre.last() == c);
            assert(is_digit(d@[i as int]));
        }
        let dv = digit_value(c);
        if v > (max - dv) / 10 {
            proof {
                assert(whole.take(i + 1) =~= d@.take(i + 1));
                lemma_digits_value_prefix(whole, i + 1);
            }
            return None;
        }
        v = v * 10 + dv;
        i = i + 1;
    }
    if lim < n || (!far && p == n as i128) {
        assert(whole =~= d@.take(lim as int));
        let round: u64 = if lim < n && d[lim] >= '5' {
            1
        } else {
            0
        };
        if v > max - round {
            return None;
        }
        return Some(v + round);
    }
    assert(d@.take(n as int) =~= d@);
    let r: u128 = if far {
        0
    } else {
        (p - n as i128) as u128
    };
    let ghost pad: int = q - n;
    proof {
        assert(d@ + zeros(0) =~= d@);
        assert(whole == d@ + zeros(pad as nat));
    }
    let mut w: u64 = v;
    let mut k: u128 = 0;
    while w != 0 && (far || k < r)
        invariant
            n == d.len(),
            pad == q - n,
            pad > 0,
            whole == d@ + zeros(pad as nat),
            all_digits(whole),
            !far ==> r == pad,
            far ==> pad > i64::MAX,
            k <= pad,
            w == digits_value(d@ + zeros(k as nat)),
            w <= max,
            w == 0 || k <= w,
            max == i64::MAX,
        decreases max - w,
    {
        proof {
            lemma_push_zero(d@, k as nat);
        }
        if w > max / 10 {
            proof {
                assert(whole.take(n + k + 1) =~= d@ + zeros((k + 1) as nat));
                lemma_digits_value_prefix(whole, n + k + 1);
            }
            return None;
        }
        w = w * 10;
        k = k + 1;
    }
    proof {
        if w == 0 {
            lemma_zero_pad(d@ + zeros(k as nat), (pad - k) as nat);
            assert(d@ + zeros(k as nat) + zeros((pad - k) as nat) =~= whole);
        } else {
            assert(k == pad);
        }
    }
    Some(w)
}

/// An unsigned decimal number of seconds in milliseconds (see `unsigned_millis`),
/// when it is at most `i64::MAX`.
fn unsigned_millis_exec(t: &Vec<char>) -> (r: Option<u64>)
    ensures
        match r {
            Some(v) => unsigned_millis(t@) == Some(v as nat) && v <= i64::MAX,
            None => match unsigned_millis(t@) {
                Some(v) => v > i64::MAX,
                None => true,
            },
        },
{
    let (mant, exp_text) = split_at_exp(t);
    let (neg, m, big) = match exp_text {
        Some(e) => match parse_exponent(&e) {
            Some(x) => x,
            None => {
                return None;
            },
        },
        None => (false, 0, false),
    };
    let ghost x: int = if exp_pos(t@) < 0 {
        0
    } else {
        exponent_value(t@.skip(exp_pos(t@) + 1))->0
    };
    let (ip, fp) = split_at_dot(&mant);
    if ip.len() == 0 && fp.len() == 0 {
        return None;
    }
    if !all_digits_exec(&ip) || !all_digits_exec(&fp) {
        return None;
    }
    let d = concat_chars(&ip, &fp);
    proof {
        assert forall|j: int| 0 <= j < d@.len() implies is_digit(#[trigger] d@[j]) by {
            if j < ip@.len() {
                assert(d@[j] == ip@[j]);
            } else {
                assert(d@[j] == fp@[j - ip@.len()]);
            }
        }
    }
    let ghost q: int = ip.len() + x + 3;
    if big && neg {
        proof {
            assert(q < 0);
            assert(digits_before(d@, q) =~= digits_before(d@, -1));
        }
        return rounded_at_exec(&d, -1, false, Ghost(-1));
    }
    let p: i128 = if big {
        0
    } else if neg {
        ip.len() as i128 + 3 - m as i128
    } else {
        ip.len() as i128 + 3 + m as i128
    };
    rounded_at_exec(&d, p, big, Ghost(q))
}

/// A decimal number of seconds, in milliseconds (see `parse_millis_spec`).
fn parse_millis(t: &Vec<char>) -> (r: Option<i64>)
    ensures
        r == parse_millis_spec(t@),
{
    let n = t.len();
    let signed = n > 0 && (t[0] == '+' || t[0] == '-');
    let negative = signed && t[0] == '-';
    let body = if signed {
        tail_from(t, 1)
    } else {
        tail_from(t, 0)
    };
    proof {
        assert(t@.skip(0) =~= t@);
        if signed {
            assert(t@.skip(1) =~= t@.drop_first());
        }
    }
    match unsigned_millis_exec(&body) {
        Some(ms) => {
            if negative {
                Some(-(ms as i64))
            } else {
                Some(ms as i64)
            }
        },
        None => None,
    }
}

/// The `pts_time:` value of one line (see `line_pts_ms`).
fn line_value(line: &Vec<char>) -> (r: Option<i64>)
    ensures
        r == line_pts_ms(line@),
{
    let marker = chars_of("pts_time:");
    proof {
        reveal_strlit("pts_time:");
    }
    assert(marker@.len() == 9);
    match find_first(line, &marker) {
        Some(i) => {
            proof {
                lemma_find_from_bound(line@, marker@, 0);
                assert(i as int + marker@.len() <= line@.len());
                assert(marker@.len() == 9);
                assert(i + 9 <= line.len());
            }
            let token = token_at(line, i + 9);
            parse_millis(&token)
        },
        None => None,
    }
}

proof fn lemma_find_from_bound(hay: Seq<char>, needle: Seq<char>, i: int)
    ensures
        find_from(hay, needle, i) == -1 || (i <= find_from(hay, needle, i) && find_from(
            hay,
            needle,
            i,
        ) + needle.len() <= hay.len()),
    decreases hay.len() + 1 - i,
{
    if !(i < 0 || i + needle.len() > hay.len()) && !occurs_at(hay, needle, i) {
        lemma_find_from_bound(hay, needle, i + 1);
    }
}

/// The timestamps, in milliseconds, that a `showinfo` filter reported as
/// `pts_time:<seconds>` (one per line; lines without a well-formed value are skipped).
pub fn parse_showinfo_timestamps(stderr: &str) -> (r: Vec<i64>)
    ensures
        r@ == pts_values(lines_of(stderr@)),
{
    let cs = chars_of(stderr);
    let n = cs.len();
    let mut out: Vec<i64> = Vec::new();
    let mut pos: usize = 0;
    assert(cs@.skip(0) =~= cs@);
    while pos < n
        invariant
            n == cs.len(),
            cs@ == stderr@,
            pos <= n,
            pts_values(lines_of(cs@)) == out@ + pts_values(lines_of(cs@.skip(pos as int))),
        decreases n - pos,
    {
        let ghost s = cs@.skip(pos as int);
        let mut q: usize = pos;
        while q < n && cs[q] != '\n'
            invariant
                pos <= q <= n,
                n == cs.len(),
                forall|j: int| pos <= j < q ==> cs@[j] != '\n',
            decreases n - q,
        {
            q = q + 1;
        }
        proof {
            lemma_newline_pos(s);
            let p = newline_pos(s);
            assert(p == q - pos) by {
                if p < q - pos {
                    assert(s[p] == cs@[pos + p]);
                }
                if p > q - pos {
                    assert(s[q - pos] == cs@[q as int]);
                }
            }
        }
        let mut end = q;
        if q < n && end > pos && cs[end - 1] == '\r' {
            end = end - 1;
        }
        let mut line: Vec<char> = Vec::new();
        let mut k: usize = pos;
        while k < end
            invariant
                pos <= k <= end <= n,
                n == cs.len(),
                line@ == cs@.subrange(pos as int, k as int),
            decreases end - k,
        {
            line.push(cs[k]);
            k = k + 1;
            assert(line@ =~= cs@.subrange(pos as int, k as int));
        }
        let value = line_value(&line);
        let ghost rest = if q < n {
            cs@.skip(q + 1)
        } else {
            seq![]
        };
        proof {
            let p = q - pos;
            if q < n {
                let first = s.take(p);
                assert(first =~= cs@.subrange(pos as int, q as int));
                if q > pos && cs@[q - 1] == '\r' {
                    assert(strip_cr(first) =~= line@);
                } else {
                    assert(strip_cr(first) =~= line@);
                }
                assert(s.skip(p + 1) =~= rest);
                assert(lines_of(s) == seq![line@] + lines_of(rest));
            } else {
                assert(line@ =~= s);
                assert(lines_of(s) == seq![line@]);
                assert(lines_of(rest) =~= Seq::<Seq<char>>::empty());
                assert(seq![line@] + lines_of(rest) =~= seq![line@]);
            }
            let ls = seq![line@] + lines_of(rest);
            assert(ls.drop_first() =~= lines_of(rest));
            assert(ls[0] == line@);
        }
        let ghost before = out@;
        if let Some(v) = value {
            out.push(v);
        }
        pos = if q < n {
            q + 1
        } else {
            n
        };
        proof {
            if q >= n {
                assert(cs@.skip(pos as int) =~= Seq::<char>::empty());
            }
            assert(cs@.skip(pos as int) =~= rest);
            match value {
                Some(v) => {
                    assert(out@ + pts_values(lines_of(rest)) =~= before + (seq![v] + pts_values(
                        lines_of(rest),
                    )));
                },
                None => {},
            }
        }
    }
    assert(cs@.skip(n as int) =~= Seq::<char>::empty());
    assert(lines_of(Seq::<char>::empty()) =~= Seq::<Seq<char>>::empty());
    assert(out@ + Seq::<i64>::empty() =~= out@);
    out
}

} // verus!
