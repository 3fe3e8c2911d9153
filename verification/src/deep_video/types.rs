//! The evidence model. Times are whole milliseconds from the start of the video.

use vstd::prelude::*;
use crate::text::{padded_decimal, push_padded_decimal};

verus! {

/// Where the analysed material comes from.
#[derive(Debug, Clone, PartialEq)]
pub enum DeepVideoSource {
    LocalVideo { video_path: String },
    DownloadedDouyinVideo { video_path: String, source_url: String },
    TextOnly { source_url: Option<String> },
}

/// One analysis request.
#[derive(Debug, Clone, PartialEq)]
pub struct DeepVideoAnalysisRequest {
    pub source: DeepVideoSource,
    pub task_id: Option<String>,
    pub title: String,
    pub profile: AnalysisProfile,
    pub use_frame_analysis: bool,
    pub transcript: Option<TranscriptInput>,
    pub ocr_items: Vec<OcrInputItem>,
    pub reference_text: Option<String>,
}

/// A speech transcript: the full text and its timed segments.
#[derive(Debug, Clone, PartialEq)]
pub struct TranscriptInput {
    pub text: String,
    pub segments: Vec<TranscriptSegment>,
}

#[derive(Debug, Clone, PartialEq)]
pub struct TranscriptSegment {
    pub text: String,
    pub start_ms: Option<i64>,
    pub end_ms: Option<i64>,
}

/// Text read from one video frame.
#[derive(Debug, Clone, PartialEq)]
pub struct OcrInputItem {
    pub frame_index: Option<usize>,
    pub timestamp_ms: Option<i64>,
    pub image_path: Option<String>,
    pub text: String,
}

/// A sampling tier, or custom sampling options.
#[derive(Debug, Clone, Copy, PartialEq)]
pub enum AnalysisProfile {
    Economy,
    Balanced,
    Precise,
    Custom(AnalysisProfileOptions),
}

/// Frame sampling options.
#[derive(Debug, Clone, Copy, PartialEq)]
pub struct AnalysisProfileOptions {
    pub max_frames: usize,
    pub interval_ms: u64,
    pub candidate_window_ms: u64,
    pub frames_per_candidate: usize,
    pub use_scene_boundaries: bool,
    pub vision_passes: usize,
}

/// `x` limited to the range `lo..=hi`.
pub open spec fn clamp(x: int, lo: int, hi: int) -> int {
    if x < lo {
        lo
    } else if x > hi {
        hi
    } else {
        x
    }
}

/// The options of a tier, before clamping.
pub open spec fn tier_options(profile: AnalysisProfile) -> AnalysisProfileOptions {
    match profile {
        AnalysisProfile::Economy => AnalysisProfileOptions {
            max_frames: 12,
            interval_ms: 8000,
            candidate_window_ms: 6000,
            frames_per_candidate: 1,
            use_scene_boundaries: false,
            vision_passes: 1,
        },
        AnalysisProfile::Balanced => AnalysisProfileOptions {
            max_frames: 24,
            interval_ms: 5000,
            candidate_window_ms: 8000,
            frames_per_candidate: 2,
            use_scene_boundaries: true,
            vision_passes: 1,
        },
        AnalysisProfile::Precise => AnalysisProfileOptions {
            max_frames: 48,
            interval_ms: 3000,
            candidate_window_ms: 10000,
            frames_per_candidate: 3,
            use_scene_boundaries: true,
            vision_passes: 2,
        },
        AnalysisProfile::Custom(options) => options,
    }
}

/// Every option inside its allowed range.
pub open spec fn options_in_range(o: AnalysisProfileOptions) -> bool {
    &&& 1 <= o.max_frames <= 96
    &&& 1000 <= o.interval_ms <= 30000
    &&& 2000 <= o.candidate_window_ms <= 30000
    &&& 1 <= o.frames_per_candidate <= 5
    &&& o.vision_passes <= 3
}

/// The options with each value clamped to its allowed range.
pub open spec fn clamped_spec(o: AnalysisProfileOptions) -> AnalysisProfileOptions {
    AnalysisProfileOptions {
        max_frames: clamp(o.max_frames as int, 1, 96) as usize,
        interval_ms: clamp(o.interval_ms as int, 1000, 30000) as u64,
        candidate_window_ms: clamp(o.candidate_window_ms as int, 2000, 30000) as u64,
        frames_per_candidate: clamp(o.frames_per_candidate as int, 1, 5) as usize,
        use_scene_boundaries: o.use_scene_boundaries,
        vision_passes: clamp(o.vision_passes as int, 0, 3) as usize,
    }
}

fn clamp_usize(x: usize, lo: usize, hi: usize) -> (r: usize)
    requires
        lo <= hi,
    ensures
        r == clamp(x as int, lo as int, hi as int),
{
    if x < lo {
        lo
    } else if x > hi {
        hi
    } else {
        x
    }
}

fn clamp_u64(x: u64, lo: u64, hi: u64) -> (r: u64)
    requires
        lo <= hi,
    ensures
        r == clamp(x as int, lo as int, hi as int),
{
    if x < lo {
        lo
    } else if x > hi {
        hi
    } else {
        x
    }
}

impl AnalysisProfile {
    /// The sampling options of this profile, clamped to the allowed ranges.
    pub fn normalized_options(&self) -> (r: AnalysisProfileOptions)
        ensures
            r == clamped_spec(tier_options(*self)),
            options_in_range(r),
    {
        let options = match self {
            AnalysisProfile::Economy => AnalysisProfileOptions {
                max_frames: 12,
                interval_ms: 8000,
                candidate_window_ms: 6000,
                frames_per_candidate: 1,
                use_scene_boundaries: false,
                vision_passes: 1,
            },
            AnalysisProfile::Balanced => AnalysisProfileOptions {
                max_frames: 24,
                interval_ms: 5000,
                candidate_window_ms: 8000,
                frames_per_candidate: 2,
                use_scene_boundaries: true,
                vision_passes: 1,
            },
            AnalysisProfile::Precise => AnalysisProfileOptions {
                max_frames: 48,
                interval_ms: 3000,
                candidate_window_ms: 10000,
                frames_per_candidate: 3,
                use_scene_boundaries: true,
                vision_passes: 2,
            },
            AnalysisProfile::Custom(options) => AnalysisProfileOptions {
                max_frames: options.max_frames,
                interval_ms: options.interval_ms,
                candidate_window_ms: options.candidate_window_ms,
                frames_per_candidate: options.frames_per_candidate,
                use_scene_boundaries: options.use_scene_boundaries,
                vision_passes: options.vision_passes,
            },
        };
        options.clamped()
    }
}

impl AnalysisProfileOptions {
    /// Each option clamped to its allowed range.
    pub fn clamped(self) -> (r: Self)
        ensures
            r == clamped_spec(self),
            options_in_range(r),
    {
        AnalysisProfileOptions {
            max_frames: clamp_usize(self.max_frames, 1, 96),
            interval_ms: clamp_u64(self.interval_ms, 1000, 30000),
            candidate_window_ms: clamp_u64(self.candidate_window_ms, 2000, 30000),
            frames_per_candidate: clamp_usize(self.frames_per_candidate, 1, 5),
            use_scene_boundaries: self.use_scene_boundaries,
            vision_passes: clamp_usize(self.vision_passes, 0, 3),
        }
    }
}

/// Clamping lands inside the allowed ranges and changes nothing the second
/// time; options already in range are kept as they are.
pub proof fn lemma_clamped_laws(o: AnalysisProfileOptions)
    ensures
        options_in_range(clamped_spec(o)),
        clamped_spec(clamped_spec(o)) == clamped_spec(o),
        options_in_range(o) ==> clamped_spec(o) == o,
{
}

/// How a frame was chosen.
#[derive(Debug, Clone, Copy, PartialEq, Eq)]
pub enum FrameSource {
    Interval,
    Scene,
    TextCandidate,
    Opening,
}

/// The name of a frame source, as shown in labels.
pub open spec fn frame_source_name(s: FrameSource) -> Seq<char> {
    match s {
        FrameSource::Interval => "Interval"@,
        FrameSource::Scene => "Scene"@,
        FrameSource::TextCandidate => "TextCandidate"@,
        FrameSource::Opening => "Opening"@,
    }
}

impl FrameSource {
    pub fn name(&self) -> (r: &'static str)
        ensures
            r@ == frame_source_name(*self),
    {
        match self {
            FrameSource::Interval => "Interval",
            FrameSource::Scene => "Scene",
            FrameSource::TextCandidate => "TextCandidate",
            FrameSource::Opening => "Opening",
        }
    }
}

/// The identifier of the frame with the given index: `#` and at least three digits.
pub open spec fn frame_id_for(index: nat) -> Seq<char> {
    seq!['#'] + padded_decimal(index, 3)
}

/// A sampled frame.
#[derive(Debug, Clone, PartialEq)]
pub struct EvidenceFrame {
    pub frame_id: String,
    pub index: usize,
    pub timestamp_ms: Option<i64>,
    pub image_path: String,
    pub source: FrameSource,
}

impl EvidenceFrame {
    /// A frame whose identifier is derived from its index.
    pub fn new(index: usize, timestamp_ms: Option<i64>, image_path: String, source: FrameSource) -> (r: Self)
        ensures
            r.frame_id@ == frame_id_for(index as nat),
            r.index == index,
            r.timestamp_ms == timestamp_ms,
            r.image_path == image_path,
            r.source == source,
    {
        let mut frame_id = String::new();
        push_char_hash(&mut frame_id);
        push_padded_decimal(&mut frame_id, index as u64, 3);
        assert(frame_id@ =~= frame_id_for(index as nat));
        EvidenceFrame { frame_id, index, timestamp_ms, image_path, source }
    }
}

fn push_char_hash(s: &mut String)
    ensures
        final(s)@ == old(s)@.push('#'),
{
    crate::text::push_char(s, '#');
}

/// The contact sheet that shows the sampled frames; `generated_at` is an
/// RFC 3339 timestamp.
#[derive(Debug, Clone, PartialEq)]
pub struct EvidenceSheet {
    pub image_path: String,
    pub frames: Vec<EvidenceFrame>,
    pub generated_at: String,
}

/// The structural role of a candidate segment.
#[derive(Debug, Clone, Copy, PartialEq, Eq)]
pub enum CandidateCategory {
    Hook,
    PainPoint,
    Benefit,
    TurningPoint,
    Proof,
    Offer,
    Warning,
    Cta,
}

/// The name of a category, as shown in titles and reports.
pub open spec fn category_name(c: CandidateCategory) -> Seq<char> {
    match c {
        CandidateCategory::Hook => "Hook"@,
        CandidateCategory::PainPoint => "PainPoint"@,
        CandidateCategory::Benefit => "Benefit"@,
        CandidateCategory::TurningPoint => "TurningPoint"@,
        CandidateCategory::Proof => "Proof"@,
        CandidateCategory::Offer => "Offer"@,
        CandidateCategory::Warning => "Warning"@,
        CandidateCategory::Cta => "Cta"@,
    }
}

impl CandidateCategory {
    pub fn name(&self) -> (r: &'static str)
        ensures
            r@ == category_name(*self),
    {
        match self {
            CandidateCategory::Hook => "Hook",
            CandidateCategory::PainPoint => "PainPoint",
            CandidateCategory::Benefit => "Benefit",
            CandidateCategory::TurningPoint => "TurningPoint",
            CandidateCategory::Proof => "Proof",
            CandidateCategory::Offer => "Offer",
            CandidateCategory::Warning => "Warning",
            CandidateCategory::Cta => "Cta",
        }
    }
}

/// Which input a candidate was mined from.
#[derive(Debug, Clone, Copy, PartialEq, Eq)]
pub enum CandidateSource {
    Asr,
    Ocr,
    ReferenceText,
}

/// A stretch of the material that matched structure keywords.
#[derive(Debug, Clone, PartialEq)]
pub struct CandidateSegment {
    pub segment_id: String,
    pub category: CandidateCategory,
    pub start_ms: Option<i64>,
    pub end_ms: Option<i64>,
    pub reason: String,
    pub text_excerpt: String,
    pub source: CandidateSource,
}

/// A candidate segment with its strings taken as character sequences.
pub struct CandidateView {
    pub segment_id: Seq<char>,
    pub category: CandidateCategory,
    pub start_ms: Option<i64>,
    pub end_ms: Option<i64>,
    pub reason: Seq<char>,
    pub text_excerpt: Seq<char>,
    pub source: CandidateSource,
}

impl View for CandidateSegment {
    type V = CandidateView;

    open spec fn view(&self) -> CandidateView {
        CandidateView {
            segment_id: self.segment_id@,
            category: self.category,
            start_ms: self.start_ms,
            end_ms: self.end_ms,
            reason: self.reason@,
            text_excerpt: self.text_excerpt@,
            source: self.source,
        }
    }
}

/// The views of a sequence of candidates.
pub open spec fn candidates_view(s: Seq<CandidateSegment>) -> Seq<CandidateView> {
    s.map_values(|c: CandidateSegment| c@)
}

/// The kind of an evidence item.
#[derive(Debug, Clone, Copy, PartialEq, Eq)]
pub enum EvidenceKind {
    Asr,
    Ocr,
    Candidate,
    Frame,
    Scene,
    Screenshot,
    Vision,
}

/// The name of an evidence kind, as shown in reports.
pub open spec fn kind_name(k: EvidenceKind) -> Seq<char> {
    match k {
        EvidenceKind::Asr => "Asr"@,
        EvidenceKind::Ocr => "Ocr"@,
        EvidenceKind::Candidate => "Candidate"@,
        EvidenceKind::Frame => "Frame"@,
        EvidenceKind::Scene => "Scene"@,
        EvidenceKind::Screenshot => "Screenshot"@,
        EvidenceKind::Vision => "Vision"@,
    }
}

impl EvidenceKind {
    pub fn name(&self) -> (r: &'static str)
        ensures
            r@ == kind_name(*self),
    {
        match self {
            EvidenceKind::Asr => "Asr",
            EvidenceKind::Ocr => "Ocr",
            EvidenceKind::Candidate => "Candidate",
            EvidenceKind::Frame => "Frame",
            EvidenceKind::Scene => "Scene",
            EvidenceKind::Screenshot => "Screenshot",
            EvidenceKind::Vision => "Vision",
        }
    }
}

/// A start and an end time, either of which may be unknown.
#[derive(Debug, Clone, Copy, PartialEq, Eq)]
pub struct EvidenceTimeRange {
    pub start_ms: Option<i64>,
    pub end_ms: Option<i64>,
}

/// One entry of the evidence timeline.
#[derive(Debug, Clone, PartialEq)]
pub struct EvidenceItem {
    pub kind: EvidenceKind,
    pub title: String,
    pub time_range: EvidenceTimeRange,
    pub reference: String,
    pub excerpt: String,
    pub frame_ids: Vec<String>,
    pub thumbnail_path: Option<String>,
}

/// An evidence item with its strings taken as character sequences.
pub struct EvidenceItemView {
    pub kind: EvidenceKind,
    pub title: Seq<char>,
    pub time_range: EvidenceTimeRange,
    pub reference: Seq<char>,
    pub excerpt: Seq<char>,
    pub frame_ids: Seq<Seq<char>>,
    pub thumbnail_path: Option<Seq<char>>,
}

/// The view of an optional string.
pub open spec fn opt_view(o: Option<String>) -> Option<Seq<char>> {
    match o {
        Some(s) => Some(s@),
        None => None,
    }
}

/// The views of a sequence of strings.
pub open spec fn strings_view(s: Seq<String>) -> Seq<Seq<char>> {
    s.map_values(|x: String| x@)
}

impl View for EvidenceItem {
    type V = EvidenceItemView;

    open spec fn view(&self) -> EvidenceItemView {
        EvidenceItemView {
            kind: self.kind,
            title: self.title@,
            time_range: self.time_range,
            reference: self.reference@,
            excerpt: self.excerpt@,
            frame_ids: strings_view(self.frame_ids@),
            thumbnail_path: opt_view(self.thumbnail_path),
        }
    }
}

/// The views of a sequence of evidence items.
pub open spec fn items_view(s: Seq<EvidenceItem>) -> Seq<EvidenceItemView> {
    s.map_values(|x: EvidenceItem| x@)
}

/// Where each artifact of an analysis was written.
#[derive(Debug, Clone, PartialEq)]
pub struct DeepVideoArtifacts {
    pub request_json: String,
    pub frame_result_json: String,
    pub evidence_sheet_jpg: Option<String>,
    pub candidate_segments_json: String,
    pub vision_result_json: Option<String>,
    pub evidence_timeline_json: String,
    pub result_json: String,
    pub report_md: String,
}

/// The outcome of one analysis.
#[derive(Debug, Clone, PartialEq)]
pub struct DeepVideoAnalysisResult {
    pub task_id: String,
    pub title: String,
    pub source_video_path: Option<String>,
    pub profile: AnalysisProfile,
    pub frames: Vec<EvidenceFrame>,
    pub evidence_sheet: Option<EvidenceSheet>,
    pub candidates: Vec<CandidateSegment>,
    pub timeline: Vec<EvidenceItem>,
    pub report_markdown: String,
    pub artifacts: DeepVideoArtifacts,
}

} // verus!
