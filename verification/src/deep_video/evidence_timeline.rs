//! The evidence timeline: one item per transcript segment, OCR item, candidate
//! and frame, in time order.

use vstd::prelude::*;
use crate::text::{decimal, padded_decimal, push_decimal, push_padded_decimal};
use crate::deep_video::types::{
    category_name, frame_id_for, frame_source_name, items_view, opt_view, CandidateSegment,
    EvidenceFrame, EvidenceItem, EvidenceItemView, EvidenceKind, EvidenceTimeRange,
    OcrInputItem, TranscriptInput, TranscriptSegment,
};

verus! {

broadcast use vstd::seq_lib::group_to_multiset_ensures;

/// The item of the transcript segment at position `index`.
pub open spec fn asr_item(index: nat, s: TranscriptSegment) -> EvidenceItemView {
    EvidenceItemView {
        kind: EvidenceKind::Asr,
        title: "ASR segment "@ + decimal(index + 1),
        time_range: EvidenceTimeRange { start_ms: s.start_ms, end_ms: s.end_ms },
        reference: "asr-"@ + padded_decimal(index + 1, 3),
        excerpt: s.text@,
        frame_ids: seq![],
        thumbnail_path: None,
    }
}

/// The item of the OCR item at position `index`.
pub open spec fn ocr_item(index: nat, o: OcrInputItem) -> EvidenceItemView {
    EvidenceItemView {
        kind: EvidenceKind::Ocr,
        title: "OCR text "@ + decimal(
            match o.frame_index {
                Some(f) => f as nat,
                None => index + 1,
            },
        ),
        time_range: EvidenceTimeRange { start_ms: o.timestamp_ms, end_ms: o.timestamp_ms },
        reference: match o.image_path {
            Some(p) => p@,
            None => "ocr-"@ + padded_decimal(index + 1, 3),
        },
        excerpt: o.text@,
        frame_ids: match o.frame_index {
            Some(f) => seq![frame_id_for(f as nat)],
            None => seq![],
        },
        thumbnail_path: opt_view(o.image_path),
    }
}

/// The item of a candidate segment.
pub open spec fn candidate_item(c: CandidateSegment) -> EvidenceItemView {
    EvidenceItemView {
        kind: EvidenceKind::Candidate,
        title: category_name(c.category) + " candidate"@,
        time_range: EvidenceTimeRange { start_ms: c.start_ms, end_ms: c.end_ms },
        reference: c.segment_id@,
        excerpt: c.text_excerpt@,
        frame_ids: seq![],
        thumbnail_path: None,
    }
}

/// The item of a sampled frame.
pub open spec fn frame_item(f: EvidenceFrame) -> EvidenceItemView {
    EvidenceItemView {
        kind: EvidenceKind::Frame,
        title: "Key frame "@ + f.frame_id@,
        time_range: EvidenceTimeRange { start_ms: f.timestamp_ms, end_ms: f.timestamp_ms },
        reference: f.image_path@,
        excerpt: frame_source_name(f.source) + " frame"@,
        frame_ids: seq![f.frame_id@],
        thumbnail_path: Some(f.image_path@),
    }
}

/// The evidence items of the transcript segments.
pub open spec fn asr_items(transcript: Option<TranscriptInput>) -> Seq<EvidenceItemView> {
    match transcript {
        Some(t) => Seq::new(t.segments.len() as nat, |i: int| asr_item(i as nat, t.segments@[i])),
        None => seq![],
    }
}

/// The evidence items of the OCR texts.
pub open spec fn ocr_evidence_items(items: Seq<OcrInputItem>) -> Seq<EvidenceItemView> {
    Seq::new(items.len(), |i: int| ocr_item(i as nat, items[i]))
}

/// The evidence items of the candidates.
pub open spec fn candidate_items(cs: Seq<CandidateSegment>) -> Seq<EvidenceItemView> {
    Seq::new(cs.len(), |i: int| candidate_item(cs[i]))
}

/// The evidence items of the key frames.
pub open spec fn frame_items(fs: Seq<EvidenceFrame>) -> Seq<EvidenceItemView> {
    Seq::new(fs.len(), |i: int| frame_item(fs[i]))
}

/// All items, before ordering: transcript, OCR, candidates, frames.
pub open spec fn unordered_items(
    transcript: Option<TranscriptInput>,
    ocr: Seq<OcrInputItem>,
    frames: Seq<EvidenceFrame>,
    candidates: Seq<CandidateSegment>,
) -> Seq<EvidenceItemView> {
    asr_items(transcript) + ocr_evidence_items(ocr) + candidate_items(candidates) + frame_items(frames)
}

/// The rank of a kind among items with the same start time.
pub open spec fn kind_rank(k: EvidenceKind) -> int {
    match k {
        EvidenceKind::Asr => 0,
        EvidenceKind::Ocr => 1,
        EvidenceKind::Candidate => 2,
        EvidenceKind::Frame => 3,
        EvidenceKind::Scene => 4,
        EvidenceKind::Screenshot => 5,
        EvidenceKind::Vision => 6,
    }
}

/// The ordering key of an item: items with a known start come first, by
/// start time; unknown starts come last; ties go by kind rank.
pub open spec fn order_key(v: EvidenceItemView) -> int {
    match v.time_range.start_ms {
        Some(t) => (t as int + 0x8000_0000_0000_0000) * 8 + kind_rank(v.kind),
        None => 0x1_0000_0000_0000_0000 * 8 + kind_rank(v.kind),
    }
}

/// Where `x` goes in `s`: after the last element whose key is not greater than its own.
pub open spec fn insert_pos(s: Seq<EvidenceItemView>, x: EvidenceItemView) -> int
    decreases s.len(),
{
    if s.len() > 0 && order_key(s.last()) > order_key(x) {
        insert_pos(s.drop_last(), x)
    } else {
        s.len() as int
    }
}

/// `s` ordered by key; items with equal keys keep their relative order.
pub open spec fn order_items(s: Seq<EvidenceItemView>) -> Seq<EvidenceItemView>
    decreases s.len(),
{
    if s.len() == 0 {
        s
    } else {
        let r = order_items(s.drop_last());
        r.insert(insert_pos(r, s.last()), s.last())
    }
}

/// The evidence timeline of the given inputs.
pub open spec fn timeline_spec(
    transcript: Option<TranscriptInput>,
    ocr: Seq<OcrInputItem>,
    frames: Seq<EvidenceFrame>,
    candidates: Seq<CandidateSegment>,
) -> Seq<EvidenceItemView> {
    order_items(unordered_items(transcript, ocr, frames, candidates))
}

/// Keys never decrease along `s`.
pub open spec fn is_ordered(s: Seq<EvidenceItemView>) -> bool {
    forall|i: int, j: int| 0 <= i < j < s.len() ==> order_key(#[trigger] s[i]) <= order_key(#[trigger] s[j])
}

/// `insert_pos` keeps the order: smaller or equal keys before it, greater ones after.
pub proof fn lemma_insert_pos(s: Seq<EvidenceItemView>, x: EvidenceItemView)
    ensures
        0 <= insert_pos(s, x) <= s.len(),
        forall|m: int| insert_pos(s, x) <= m < s.len() ==> order_key(#[trigger] s[m]) > order_key(x),
        insert_pos(s, x) > 0 ==> order_key(s[insert_pos(s, x) - 1]) <= order_key(x),
    decreases s.len(),
{
    if s.len() > 0 && order_key(s.last()) > order_key(x) {
        lemma_insert_pos(s.drop_last(), x);
        let p = insert_pos(s.drop_last(), x);
        assert forall|m: int| p <= m < s.len() implies order_key(#[trigger] s[m]) > order_key(x) by {
            if m < s.len() - 1 {
                assert(s[m] == s.drop_last()[m]);
            }
        }
        if p > 0 {
            assert(s[p - 1] == s.drop_last()[p - 1]);
        }
    }
}

/// Ordering keeps every item and adds none, and its result is ordered.
pub proof fn lemma_order_items(s: Seq<EvidenceItemView>)
    ensures
        order_items(s).to_multiset() == s.to_multiset(),
        order_items(s).len() == s.len(),
        is_ordered(order_items(s)),
    decreases s.len(),
{
    if s.len() > 0 {
        let r = order_items(s.drop_last());
        let x = s.last();
        lemma_order_items(s.drop_last());
        lemma_insert_pos(r, x);
        let p = insert_pos(r, x);
        let out = r.insert(p, x);
        assert(s.drop_last().push(x) =~= s);
        assert(out.to_multiset() == r.to_multiset().insert(x));
        assert(s.to_multiset() == s.drop_last().to_multiset().insert(x));
        assert forall|i: int, j: int| 0 <= i < j < out.len() implies order_key(
            #[trigger] out[i],
        ) <= order_key(#[trigger] out[j]) by {
            if j < p {
                assert(out[i] == r[i] && out[j] == r[j]);
            } else if j == p {
                assert(out[i] == r[i]);
                assert(order_key(r[i]) <= order_key(r[p - 1]));
            } else if i < p {
                assert(out[i] == r[i] && out[j] == r[j - 1]);
            } else if i == p {
                assert(out[j] == r[j - 1]);
            } else {
                assert(out[i] == r[i - 1] && out[j] == r[j - 1]);
            }
        }
    }
}

/// The items of `s` whose ordering key is `k`, in their order.
pub open spec fn with_key(s: Seq<EvidenceItemView>, k: int) -> Seq<EvidenceItemView> {
    s.filter(|v: EvidenceItemView| order_key(v) == k)
}

proof fn lemma_with_key_all_above(s: Seq<EvidenceItemView>, k: int)
    requires
        forall|m: int| 0 <= m < s.len() ==> order_key(#[trigger] s[m]) > k,
    ensures
        with_key(s, k) =~= Seq::<EvidenceItemView>::empty(),
    decreases s.len(),
{
    reveal(Seq::filter);
    if s.len() > 0 {
        lemma_with_key_all_above(s.drop_last(), k);
    }
}

/// Ordering is stable: for every key, the items with that key come out in
/// the order they went in.
pub proof fn lemma_order_items_stable(s: Seq<EvidenceItemView>, k: int)
    ensures
        with_key(order_items(s), k) == with_key(s, k),
    decreases s.len(),
{
    reveal(Seq::filter);
    if s.len() > 0 {
        let r = order_items(s.drop_last());
        let x = s.last();
        lemma_order_items_stable(s.drop_last(), k);
        lemma_insert_pos(r, x);
        let p = insert_pos(r, x);
        let f = |v: EvidenceItemView| order_key(v) == k;
        assert(r.insert(p, x) =~= r.take(p) + seq![x] + r.skip(p));
        Seq::filter_distributes_over_add(r.take(p) + seq![x], r.skip(p), f);
        Seq::filter_distributes_over_add(r.take(p), seq![x], f);
        Seq::filter_distributes_over_add(r.take(p), r.skip(p), f);
        assert(r.take(p) + r.skip(p) =~= r);
        assert(s.drop_last().push(x) =~= s);
        Seq::filter_distributes_over_add(s.drop_last(), seq![x], f);
        assert(seq![x].drop_last() =~= Seq::<EvidenceItemView>::empty());
        assert(Seq::<EvidenceItemView>::empty().filter(f) =~= Seq::<EvidenceItemView>::empty());
        assert(seq![x].filter(f) =~= if f(x) { seq![x] } else { Seq::<EvidenceItemView>::empty() });
        if order_key(x) == k {
            assert forall|m: int| 0 <= m < r.skip(p).len() implies order_key(#[trigger] r.skip(p)[m]) > k by {
                assert(r.skip(p)[m] == r[p + m]);
            }
            lemma_with_key_all_above(r.skip(p), k);
        }
    }
}

/// The timeline holds exactly the items built from the inputs, ordered:
/// known start times first, by time, then by kind; unknown times last. Items
/// with the same start time and kind keep the order of the inputs.
pub proof fn lemma_timeline_laws(
    transcript: Option<TranscriptInput>,
    ocr: Seq<OcrInputItem>,
    frames: Seq<EvidenceFrame>,
    candidates: Seq<CandidateSegment>,
    k: int,
)
    ensures
        ({
            let items = unordered_items(transcript, ocr, frames, candidates);
            let t = timeline_spec(transcript, ocr, frames, candidates);
            &&& t.to_multiset() == items.to_multiset()
            &&& t.len() == items.len()
            &&& is_ordered(t)
            &&& with_key(t, k) == with_key(items, k)
        }),
{
    let items = unordered_items(transcript, ocr, frames, candidates);
    lemma_order_items(items);
    lemma_order_items_stable(items, k);
}

/// Every transcript segment is in the timeline as a transcript item with the
/// segment's text and its time range, start and end; and every transcript item
/// of the timeline is such an item of some segment.
pub proof fn law_segments_keep_their_time_range(
    transcript: TranscriptInput,
    ocr: Seq<OcrInputItem>,
    frames: Seq<EvidenceFrame>,
    candidates: Seq<CandidateSegment>,
)
    ensures
        ({
            let t = timeline_spec(Some(transcript), ocr, frames, candidates);
            let segs = transcript.segments@;
            &&& forall|i: int|
                0 <= i < segs.len() ==> exists|j: int|
                    0 <= j < t.len() && t[j].kind == EvidenceKind::Asr && t[j].excerpt == (#[trigger] segs[i]).text@
                        && t[j].time_range.start_ms == segs[i].start_ms && t[j].time_range.end_ms
                        == segs[i].end_ms
            &&& forall|j: int|
                0 <= j < t.len() && (#[trigger] t[j]).kind == EvidenceKind::Asr ==> exists|i: int|
                    0 <= i < segs.len() && t[j].excerpt == segs[i].text@ && t[j].time_range.start_ms
                        == segs[i].start_ms && t[j].time_range.end_ms == segs[i].end_ms
        }),
{
    let items = unordered_items(Some(transcript), ocr, frames, candidates);
    let t = timeline_spec(Some(transcript), ocr, frames, candidates);
    let segs = transcript.segments@;
    let a = asr_items(Some(transcript));
    let b = ocr_evidence_items(ocr);
    let c = candidate_items(candidates);
    let d = frame_items(frames);
    lemma_timeline_laws(Some(transcript), ocr, frames, candidates, 0);
    assert(items == a + b + c + d);
    assert forall|i: int| 0 <= i < segs.len() implies exists|j: int|
        0 <= j < t.len() && t[j].kind == EvidenceKind::Asr && t[j].excerpt == (#[trigger] segs[i]).text@
            && t[j].time_range.start_ms == segs[i].start_ms && t[j].time_range.end_ms == segs[i].end_ms by {
        let x = asr_item(i as nat, segs[i]);
        assert(items[i] == x);
        assert(items.contains(x));
        assert(items.to_multiset().count(x) > 0);
        assert(t.to_multiset().count(x) > 0);
        assert(t.contains(x));
        let j = choose|j: int| 0 <= j < t.len() && t[j] == x;
        assert(t[j] == x);
    }
    assert forall|j: int| 0 <= j < t.len() && (#[trigger] t[j]).kind == EvidenceKind::Asr implies exists|i: int|
        0 <= i < segs.len() && t[j].excerpt == segs[i].text@ && t[j].time_range.start_ms == segs[i].start_ms
            && t[j].time_range.end_ms == segs[i].end_ms by {
        let x = t[j];
        assert(t.contains(x));
        assert(t.to_multiset().count(x) > 0);
        assert(items.to_multiset().count(x) > 0);
        assert(items.contains(x));
        let m = choose|m: int| 0 <= m < items.len() && items[m] == x;
        if m < a.len() {
            assert(items[m] == a[m]);
            assert(x == asr_item(m as nat, segs[m]));
        } else if m < a.len() + b.len() {
            assert(items[m] == b[m - a.len()]);
        } else if m < a.len() + b.len() + c.len() {
            assert(items[m] == c[m - a.len() - b.len()]);
        } else {
            assert(items[m] == d[m - a.len() - b.len() - c.len()]);
        }
    }
}

/// An item with a known start time comes before every item without one.
pub proof fn lemma_known_before_unknown(a: EvidenceItemView, b: EvidenceItemView)
    requires
        a.time_range.start_ms is Some,
        b.time_range.start_ms is None,
    ensures
        order_key(a) < order_key(b),
{
}

/// The rank of a kind among items with the same start time.
fn kind_priority(kind: &EvidenceKind) -> (r: usize)
    ensures
        r == kind_rank(*kind),
{
    match kind {
        EvidenceKind::Asr => 0,
        EvidenceKind::Ocr => 1,
        EvidenceKind::Candidate => 2,
        EvidenceKind::Frame => 3,
        EvidenceKind::Scene => 4,
        EvidenceKind::Screenshot => 5,
        EvidenceKind::Vision => 6,
    }
}

/// Whether `left` orders strictly after `right`.
fn orders_after(left: &EvidenceItem, right: &EvidenceItem) -> (b: bool)
    ensures
        b == (order_key(left@) > order_key(right@)),
{
    let lp = kind_priority(&left.kind);
    let rp = kind_priority(&right.kind);
    match (left.time_range.start_ms, right.time_range.start_ms) {
        (Some(_), None) => false,
        (None, Some(_)) => true,
        (Some(l), Some(r)) => l > r || (l == r && lp > rp),
        (None, None) => lp > rp,
    }
}

/// Inserts `x` into the ordered `items` after every item that does not order after it.
fn insert_ordered(items: &mut Vec<EvidenceItem>, x: EvidenceItem)
    ensures
        items_view(final(items)@) == items_view(old(items)@).insert(
            insert_pos(items_view(old(items)@), x@),
            x@,
        ),
{
    let ghost s = items_view(items@);
    let mut j: usize = items.len();
    proof {
        assert(s.take(j as int) =~= s);
    }
    while j > 0 && orders_after(&items[j - 1], &x)
        invariant
            j <= items.len(),
            s == items_view(items@),
            insert_pos(s.take(j as int), x@) == insert_pos(s, x@),
        decreases j,
    {
        proof {
            let t = s.take(j as int);
            assert(t.last() == items@[j - 1]@);
            assert(t.drop_last() =~= s.take(j - 1));
        }
        j = j - 1;
    }
    proof {
        let t = s.take(j as int);
        if j > 0 {
            assert(t.last() == items@[j - 1]@);
        }
        assert(insert_pos(t, x@) == j);
    }
    let ghost before = items@;
    items.insert(j, x);
    assert(items_view(items@) =~= items_view(before).insert(j as int, x@));
}

fn clone_opt_string(o: &Option<String>) -> (r: Option<String>)
    ensures
        r == *o,
{
    match o {
        Some(s) => Some(s.clone()),
        None => None,
    }
}

fn asr_evidence(index: usize, segment: &TranscriptSegment) -> (r: EvidenceItem)
    requires
        index < usize::MAX,
    ensures
        r@ == asr_item(index as nat, *segment),
{
    let mut title = String::new();
    title.append("ASR segment ");
    push_decimal(&mut title, (index + 1) as u64);
    let mut reference = String::new();
    reference.append("asr-");
    push_padded_decimal(&mut reference, (index + 1) as u64, 3);
    let r = EvidenceItem {
        kind: EvidenceKind::Asr,
        title,
        time_range: EvidenceTimeRange { start_ms: segment.start_ms, end_ms: segment.end_ms },
        reference,
        excerpt: segment.text.clone(),
        frame_ids: Vec::new(),
        thumbnail_path: None,
    };
    assert(r@.frame_ids =~= Seq::<Seq<char>>::empty());
    assert(r@ == asr_item(index as nat, *segment));
    r
}

fn ocr_evidence(index: usize, item: &OcrInputItem) -> (r: EvidenceItem)
    requires
        index < usize::MAX,
    ensures
        r@ == ocr_item(index as nat, *item),
{
    let mut title = String::new();
    title.append("OCR text ");
    let shown = match item.frame_index {
        Some(f) => f,
        None => index + 1,
    };
    push_decimal(&mut title, shown as u64);
    let reference = match &item.image_path {
        Some(p) => p.clone(),
        None => {
            let mut reference = String::new();
            reference.append("ocr-");
            push_padded_decimal(&mut reference, (index + 1) as u64, 3);
            reference
        },
    };
    let mut frame_ids: Vec<String> = Vec::new();
    if let Some(f) = item.frame_index {
        let mut id = String::new();
        crate::text::push_char(&mut id, '#');
        push_padded_decimal(&mut id, f as u64, 3);
        frame_ids.push(id);
    }
    let r = EvidenceItem {
        kind: EvidenceKind::Ocr,
        title,
        time_range: EvidenceTimeRange { start_ms: item.timestamp_ms, end_ms: item.timestamp_ms },
        reference,
        excerpt: item.text.clone(),
        frame_ids,
        thumbnail_path: clone_opt_string(&item.image_path),
    };
    assert(r@.frame_ids =~= ocr_item(index as nat, *item).frame_ids);
    assert(r@.title =~= ocr_item(index as nat, *item).title);
    assert(r@.reference =~= ocr_item(index as nat, *item).reference);
    r
}

fn candidate_evidence(c: &CandidateSegment) -> (r: EvidenceItem)
    ensures
        r@ == candidate_item(*c),
{
    let mut title = String::new();
    title.append(c.category.name());
    title.append(" candidate");
    let r = EvidenceItem {
        kind: EvidenceKind::Candidate,
        title,
        time_range: EvidenceTimeRange { start_ms: c.start_ms, end_ms: c.end_ms },
        reference: c.segment_id.clone(),
        excerpt: c.text_excerpt.clone(),
        frame_ids: Vec::new(),
        thumbnail_path: None,
    };
    assert(r@.frame_ids =~= Seq::<Seq<char>>::empty());
    assert(r@.title =~= candidate_item(*c).title);
    r
}

fn frame_evidence(f: &EvidenceFrame) -> (r: EvidenceItem)
    ensures
        r@ == frame_item(*f),
{
    let mut title = String::new();
    title.append("Key frame ");
    title.append(f.frame_id.as_str());
    let mut excerpt = String::new();
    excerpt.append(f.source.name());
    excerpt.append(" frame");
    let mut frame_ids: Vec<String> = Vec::new();
    frame_ids.push(f.frame_id.clone());
    let r = EvidenceItem {
        kind: EvidenceKind::Frame,
        title,
        time_range: EvidenceTimeRange { start_ms: f.timestamp_ms, end_ms: f.timestamp_ms },
        reference: f.image_path.clone(),
        excerpt,
        frame_ids,
        thumbnail_path: Some(f.image_path.clone()),
    };
    assert(r@.frame_ids =~= frame_item(*f).frame_ids);
    assert(r@.title =~= frame_item(*f).title);
    assert(r@.excerpt =~= frame_item(*f).excerpt);
    r
}

/// Builds the evidence timeline: one item per transcript segment, OCR item,
/// candidate and frame, ordered by start time (unknown starts last), ties by
/// kind (transcript, OCR, candidate, frame), and otherwise in input order.
pub fn build_evidence_timeline(
    transcript: Option<&TranscriptInput>,
    ocr_items: &[OcrInputItem],
    frames: &[EvidenceFrame],
    candidates: &[CandidateSegment],
) -> (r: Vec<EvidenceItem>)
    ensures
        items_view(r@) == timeline_spec(
            match transcript {
                Some(t) => Some(*t),
                None => None,
            },
            ocr_items@,
            frames@,
            candidates@,
        ),
{
    let ghost t_opt = match transcript {
        Some(t) => Some(*t),
        None => None,
    };
    let ghost all = unordered_items(t_opt, ocr_items@, frames@, candidates@);
    let ghost a = asr_items(t_opt);
    let ghost b = ocr_evidence_items(ocr_items@);
    let ghost c = candidate_items(candidates@);
    let ghost d = frame_items(frames@);
    let mut items: Vec<EvidenceItem> = Vec::new();
    let ghost seen: Seq<EvidenceItemView> = seq![];
    assert(items_view(items@) =~= order_items(seen));
    if let Some(transcript) = transcript {
        let segs = &transcript.segments;
        let mut i: usize = 0;
        assert(a == asr_items(Some(*transcript)));
        assert(a.len() == segs.len());
        while i < segs.len()
            invariant
                i <= segs.len(),
                a == asr_items(Some(*transcript)),
                segs@ == transcript.segments@,
                seen == a.take(i as int),
                items_view(items@) == order_items(seen),
            decreases segs.len() - i,
        {
            let e = asr_evidence(i, &segs[i]);
            proof {
                assert(a[i as int] == asr_item(i as nat, segs@[i as int]));
                assert(seen.push(e@).drop_last() =~= seen);
                seen = seen.push(e@);
                assert(seen =~= a.take(i + 1));
            }
            insert_ordered(&mut items, e);
            i = i + 1;
        }
        assert(seen =~= a);
    } else {
        assert(seen =~= a);
    }
    let ghost sa = seen;
    let mut k: usize = 0;
    while k < ocr_items.len()
        invariant
            k <= ocr_items.len(),
            b == ocr_evidence_items(ocr_items@),
            seen == sa + b.take(k as int),
            items_view(items@) == order_items(seen),
        decreases ocr_items.len() - k,
    {
        let e = ocr_evidence(k, &ocr_items[k]);
        proof {
            assert(seen.push(e@).drop_last() =~= seen);
            seen = seen.push(e@);
            assert(seen =~= sa + b.take(k + 1));
        }
        insert_ordered(&mut items, e);
        k = k + 1;
    }
    assert(seen =~= sa + b);
    let ghost sb = seen;
    let mut m: usize = 0;
    while m < candidates.len()
        invariant
            m <= candidates.len(),
            c == candidate_items(candidates@),
            seen == sb + c.take(m as int),
            items_view(items@) == order_items(seen),
        decreases candidates.len() - m,
    {
        let e = candidate_evidence(&candidates[m]);
        proof {
            assert(seen.push(e@).drop_last() =~= seen);
            seen = seen.push(e@);
            assert(seen =~= sb + c.take(m + 1));
        }
        insert_ordered(&mut items, e);
        m = m + 1;
    }
    assert(seen =~= sb + c);
    let ghost sc = seen;
    let mut n: usize = 0;
    while n < frames.len()
        invariant
            n <= frames.len(),
            d == frame_items(frames@),
            seen == sc + d.take(n as int),
            items_view(items@) == order_items(seen),
        decreases frames.len() - n,
    {
        let e = frame_evidence(&frames[n]);
        proof {
            assert(seen.push(e@).drop_last() =~= seen);
            seen = seen.push(e@);
            assert(seen =~= sc + d.take(n + 1));
        }
        insert_ordered(&mut items, e);
        n = n + 1;
    }
    assert(seen =~= all);
    items
}

} // verus!
