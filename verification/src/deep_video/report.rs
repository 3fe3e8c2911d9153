//! The Markdown report of an analysis.

use vstd::prelude::*;
use crate::text::{decimal, join_lines, join_with_newlines, push_decimal};
use crate::deep_video::time_format::{push_time_label, time_label};
use crate::deep_video::types::{
    candidates_view, category_name, items_view, kind_name, CandidateSegment, CandidateView,
    EvidenceItem, EvidenceItemView, EvidenceTimeRange,
};

verus! {

/// The report line of a candidate.
pub open spec fn candidate_line(c: CandidateView) -> Seq<char> {
    "- "@ + category_name(c.category) + ": "@ + c.text_excerpt + seq![' '] + time_label(
        EvidenceTimeRange { start_ms: c.start_ms, end_ms: c.end_ms },
    )
}

/// The report line of a timeline item.
pub open spec fn timeline_line(v: EvidenceItemView) -> Seq<char> {
    "- "@ + kind_name(v.kind) + ": "@ + v.excerpt + seq![' '] + time_label(v.time_range)
}

/// The title and executive summary lines of the report.
pub open spec fn report_header(title: Seq<char>, items: nat, candidates: nat) -> Seq<Seq<char>> {
    seq![
        "# "@ + title + " Deep Video Analysis"@,
        seq![],
        "## Executive Summary"@,
        "- Built a no-vision evidence timeline with "@ + decimal(items) + " evidence items and "@
            + decimal(candidates) + " text-guided candidates."@,
        "- Vision confirmation is disabled in Phase 1; claims are limited to transcript, OCR, and frame evidence."@,
        seq![],
        "## Candidate Structure"@,
    ]
}

/// The candidate lines of the report.
pub open spec fn candidate_section(candidates: Seq<CandidateView>) -> Seq<Seq<char>> {
    if candidates.len() == 0 {
        seq!["- No text-guided candidates were detected."@]
    } else {
        Seq::new(candidates.len(), |i: int| candidate_line(candidates[i]))
    }
}

/// The timeline lines of the report.
pub open spec fn timeline_section(timeline: Seq<EvidenceItemView>) -> Seq<Seq<char>> {
    seq![seq![], "## Evidence Timeline"@] + Seq::new(
        timeline.len(),
        |i: int| timeline_line(timeline[i]),
    )
}

/// The recommendations; the frame-citation advice only when a contact sheet exists.
pub open spec fn recommendations(has_evidence_sheet: bool) -> Seq<Seq<char>> {
    seq![
        seq![],
        "## Recommendations"@,
        "- Add vision confirmation in Phase 2 for frame-level visual claims."@,
    ] + if has_evidence_sheet {
        seq!["- Keep frame citations stable by referencing frame IDs from the contact sheet."@]
    } else {
        seq![]
    }
}

/// The lines of the report.
pub open spec fn report_lines(
    title: Seq<char>,
    timeline: Seq<EvidenceItemView>,
    candidates: Seq<CandidateView>,
    has_evidence_sheet: bool,
) -> Seq<Seq<char>> {
    report_header(title, timeline.len(), candidates.len()) + candidate_section(candidates)
        + timeline_section(timeline) + recommendations(has_evidence_sheet)
}

/// The report opens with the title heading, and its executive summary counts
/// the timeline items first and the candidates second, as given.
pub proof fn law_report_summary_counts(
    title: Seq<char>,
    timeline: Seq<EvidenceItemView>,
    candidates: Seq<CandidateView>,
    has_evidence_sheet: bool,
)
    ensures
        ({
            let lines = report_lines(title, timeline, candidates, has_evidence_sheet);
            &&& lines.len() > 3
            &&& lines[0] == "# "@ + title + " Deep Video Analysis"@
            &&& lines[3] == "- Built a no-vision evidence timeline with "@ + decimal(timeline.len())
                + " evidence items and "@ + decimal(candidates.len()) + " text-guided candidates."@
        }),
{
    let head = report_header(title, timeline.len(), candidates.len());
    let lines = report_lines(title, timeline, candidates, has_evidence_sheet);
    assert(head.len() == 7);
    assert(lines[0] == head[0]);
    assert(lines[3] == head[3]);
}

/// Every timeline item has its line in the report, in timeline order, after
/// the candidate section.
pub proof fn law_report_lists_timeline(
    title: Seq<char>,
    timeline: Seq<EvidenceItemView>,
    candidates: Seq<CandidateView>,
    has_evidence_sheet: bool,
    i: int,
)
    requires
        0 <= i < timeline.len(),
    ensures
        ({
            let lines = report_lines(title, timeline, candidates, has_evidence_sheet);
            let at = 9 + candidate_section(candidates).len() + i;
            &&& at < lines.len()
            &&& lines[at] == "- "@ + kind_name(timeline[i].kind) + ": "@ + timeline[i].excerpt + seq![' ']
                + time_label(timeline[i].time_range)
        }),
{
    let head = report_header(title, timeline.len(), candidates.len());
    let cs = candidate_section(candidates);
    let ts = timeline_section(timeline);
    let lines = report_lines(title, timeline, candidates, has_evidence_sheet);
    assert(head.len() == 7);
    assert(ts.len() == timeline.len() + 2);
    assert(ts[i + 2] == timeline_line(timeline[i]));
    assert(lines =~= (head + cs + ts) + recommendations(has_evidence_sheet));
    assert(lines[9 + cs.len() + i] == ts[i + 2]);
}

/// The report: its lines joined by newlines.
pub open spec fn report_spec(
    title: Seq<char>,
    timeline: Seq<EvidenceItemView>,
    candidates: Seq<CandidateView>,
    has_evidence_sheet: bool,
) -> Seq<char> {
    join_lines(report_lines(title, timeline, candidates, has_evidence_sheet))
}

fn string_of(s: &str) -> (r: String)
    ensures
        r@ == s@,
{
    let mut r = String::new();
    r.append(s);
    r
}

/// Builds the Markdown report: title, summary, candidate structure, the
/// evidence timeline with time labels, and recommendations.
pub fn build_markdown_report(
    title: &str,
    timeline: &[EvidenceItem],
    candidates: &[CandidateSegment],
    has_evidence_sheet: bool,
) -> (r: String)
    ensures
        r@ == report_spec(
            title@,
            items_view(timeline@),
            candidates_view(candidates@),
            has_evidence_sheet,
        ),
{
    let ghost tv = items_view(timeline@);
    let ghost cv = candidates_view(candidates@);
    let mut lines: Vec<String> = Vec::new();
    let mut heading = String::new();
    heading.append("# ");
    heading.append(title);
    heading.append(" Deep Video Analysis");
    lines.push(heading);
    lines.push(String::new());
    lines.push(string_of("## Executive Summary"));
    let mut summary = String::new();
    summary.append("- Built a no-vision evidence timeline with ");
    push_decimal(&mut summary, timeline.len() as u64);
    summary.append(" evidence items and ");
    push_decimal(&mut summary, candidates.len() as u64);
    summary.append(" text-guided candidates.");
    lines.push(summary);
    lines.push(
        string_of(
            "- Vision confirmation is disabled in Phase 1; claims are limited to transcript, OCR, and frame evidence.",
        ),
    );
    lines.push(String::new());
    lines.push(string_of("## Candidate Structure"));
    let ghost head = report_header(title@, tv.len(), cv.len());
    assert(lines@.map_values(|s: String| s@) =~= head);
    if candidates.len() == 0 {
        lines.push(string_of("- No text-guided candidates were detected."));
    } else {
        let mut i: usize = 0;
        while i < candidates.len()
            invariant
                i <= candidates.len(),
                cv == candidates_view(candidates@),
                lines@.map_values(|s: String| s@) == head + Seq::new(
                    i as nat,
                    |k: int| candidate_line(cv[k]),
                ),
            decreases candidates.len() - i,
        {
            let c = &candidates[i];
            let mut line = String::new();
            line.append("- ");
            line.append(c.category.name());
            line.append(": ");
            line.append(c.text_excerpt.as_str());
            crate::text::push_char(&mut line, ' ');
            let range = EvidenceTimeRange { start_ms: c.start_ms, end_ms: c.end_ms };
            push_time_label(&mut line, &range);
            assert(line@ =~= candidate_line(cv[i as int]));
            let ghost prev = lines@;
            let ghost lv = line@;
            lines.push(line);
            assert(lines@.map_values(|s: String| s@) =~= prev.map_values(|s: String| s@).push(lv));
            i = i + 1;
            assert(lines@.map_values(|s: String| s@) =~= head + Seq::new(
                i as nat,
                |k: int| candidate_line(cv[k]),
            ));
        }
    }
    let ghost head2 = head + candidate_section(cv);
    assert(lines@.map_values(|s: String| s@) =~= head2);
    lines.push(String::new());
    lines.push(string_of("## Evidence Timeline"));
    let ghost head3 = head2 + seq![seq![], "## Evidence Timeline"@];
    assert(lines@.map_values(|s: String| s@) =~= head3);
    let mut j: usize = 0;
    while j < timeline.len()
        invariant
            j <= timeline.len(),
            tv == items_view(timeline@),
            lines@.map_values(|s: String| s@) == head3 + Seq::new(
                j as nat,
                |k: int| timeline_line(tv[k]),
            ),
        decreases timeline.len() - j,
    {
        let item = &timeline[j];
        let mut line = String::new();
        line.append("- ");
        line.append(item.kind.name());
        line.append(": ");
        line.append(item.excerpt.as_str());
        crate::text::push_char(&mut line, ' ');
        push_time_label(&mut line, &item.time_range);
        assert(line@ =~= timeline_line(tv[j as int]));
        let ghost prev = lines@;
        let ghost lv = line@;
        lines.push(line);
        assert(lines@.map_values(|s: String| s@) =~= prev.map_values(|s: String| s@).push(lv));
        j = j + 1;
        assert(lines@.map_values(|s: String| s@) =~= head3 + Seq::new(
            j as nat,
            |k: int| timeline_line(tv[k]),
        ));
    }
    let ghost head4 = head2 + timeline_section(tv);
    assert(lines@.map_values(|s: String| s@) =~= head4);
    lines.push(String::new());
    lines.push(string_of("## Recommendations"));
    lines.push(string_of("- Add vision confirmation in Phase 2 for frame-level visual claims."));
    if has_evidence_sheet {
        lines.push(
            string_of(
                "- Keep frame citations stable by referencing frame IDs from the contact sheet.",
            ),
        );
    }
    assert(lines@.map_values(|s: String| s@) =~= report_lines(
        title@,
        tv,
        cv,
        has_evidence_sheet,
    ));
    join_with_newlines(&lines)
}

} // verus!
