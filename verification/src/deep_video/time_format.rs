//! Rendering of millisecond times as `MM:SS.T` labels.

use vstd::prelude::*;
use crate::text::{decimal, padded_decimal, push_char, push_decimal, push_padded_decimal};
use crate::deep_video::types::{EvidenceFrame, EvidenceTimeRange};

verus! {

/// A time of `ms` milliseconds as `MM:SS.T`, rounded to the nearest tenth of a
/// second (halves away from zero); negative times are unknown.
pub open spec fn seconds_text(ms: int) -> Seq<char> {
    if ms < 0 {
        "time unknown"@
    } else {
        let tenths = (ms + 50) / 100;
        let total = tenths / 10;
        padded_decimal((total / 60) as nat, 2) + seq![':'] + padded_decimal((total % 60) as nat, 2)
            + seq!['.'] + decimal((tenths % 10) as nat)
    }
}

/// Two times at least this many milliseconds apart are shown as a range.
pub open spec fn min_range_ms() -> int {
    50
}

/// The bracketed label of a time range.
pub open spec fn time_label(r: EvidenceTimeRange) -> Seq<char> {
    match r.start_ms {
        Some(s) => match r.end_ms {
            Some(e) if s - e >= min_range_ms() || e - s >= min_range_ms() => seq!['['] + seconds_text(
                s as int,
            ) + seq!['-'] + seconds_text(e as int) + seq![']'],
            _ => seq!['['] + seconds_text(s as int) + seq![']'],
        },
        None => "[time unknown]"@,
    }
}

/// The citation of a frame: its identifier and the label of its timestamp.
pub open spec fn frame_citation(frame_id: Seq<char>, timestamp_ms: Option<i64>) -> Seq<char> {
    frame_id + seq![' '] + time_label(EvidenceTimeRange { start_ms: timestamp_ms, end_ms: timestamp_ms })
}

/// Appends the `MM:SS.T` text of a time.
pub fn push_seconds(out: &mut String, ms: i64)
    ensures
        final(out)@ == old(out)@ + seconds_text(ms as int),
{
    if ms < 0 {
        out.append("time unknown");
        return;
    }
    let tenths: u64 = (ms as u64 + 50) / 100;
    let total = tenths / 10;
    let ghost start = out@;
    push_padded_decimal(out, total / 60, 2);
    push_char(out, ':');
    push_padded_decimal(out, total % 60, 2);
    push_char(out, '.');
    push_decimal(out, tenths % 10);
    assert(out@ =~= start + seconds_text(ms as int));
}

/// A time as `MM:SS.T`, or `time unknown` when it is negative.
pub fn format_seconds(ms: i64) -> (r: String)
    ensures
        r@ == seconds_text(ms as int),
{
    let mut out = String::new();
    push_seconds(&mut out, ms);
    assert(out@ =~= seconds_text(ms as int));
    out
}

/// Appends the bracketed label of a time range.
pub fn push_time_label(out: &mut String, range: &EvidenceTimeRange)
    ensures
        final(out)@ == old(out)@ + time_label(*range),
{
    let ghost start = out@;
    match range.start_ms {
        Some(s) => {
            let apart = match range.end_ms {
                Some(e) => (s as i128 - e as i128) >= 50 || (e as i128 - s as i128) >= 50,
                None => false,
            };
            push_char(out, '[');
            push_seconds(out, s);
            if apart {
                let e = range.end_ms.unwrap();
                push_char(out, '-');
                push_seconds(out, e);
            }
            push_char(out, ']');
            assert(out@ =~= start + time_label(*range));
        },
        None => {
            out.append("[time unknown]");
        },
    }
}

/// The bracketed label of a time range: `[start-end]` when both ends are known
/// and at least 50 ms apart, `[start]` when the start is known, else `[time unknown]`.
pub fn format_time_label(range: &EvidenceTimeRange) -> (r: String)
    ensures
        r@ == time_label(*range),
{
    let mut out = String::new();
    push_time_label(&mut out, range);
    assert(out@ =~= time_label(*range));
    out
}

/// The citation of a frame: its identifier, a space and the label of its timestamp.
pub fn format_frame_citation(frame: &EvidenceFrame) -> (r: String)
    ensures
        r@ == frame_citation(frame.frame_id@, frame.timestamp_ms),
{
    let range = EvidenceTimeRange { start_ms: frame.timestamp_ms, end_ms: frame.timestamp_ms };
    let mut out = String::new();
    out.append(frame.frame_id.as_str());
    push_char(&mut out, ' ');
    push_time_label(&mut out, &range);
    assert(out@ =~= frame_citation(frame.frame_id@, frame.timestamp_ms));
    out
}

} // verus!
