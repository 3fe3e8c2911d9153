//! The pure steps of an analysis run: which video to sample, which artifacts
//! exist, and the assembly of the result.

use vstd::prelude::*;
use crate::text::{push_signed_decimal, signed_decimal};
use crate::deep_video::artifacts::DeepVideoArtifactPaths;
use crate::deep_video::evidence_timeline::{build_evidence_timeline, timeline_spec};
use crate::deep_video::report::{build_markdown_report, report_spec};
use crate::deep_video::types::{
    candidates_view, clamped_spec, items_view, opt_view, tier_options, AnalysisProfileOptions,
    CandidateSegment, DeepVideoAnalysisRequest, DeepVideoAnalysisResult, DeepVideoArtifacts,
    DeepVideoSource, EvidenceFrame, EvidenceSheet,
};
use crate::deep_video::artifacts::artifact_paths_spec;
use crate::deep_video::candidate_mining::{mine_candidate_segments, mine_spec};

verus! {

/// The video file of a source, if it has one.
pub open spec fn source_path_spec(source: DeepVideoSource) -> Option<String> {
    match source {
        DeepVideoSource::LocalVideo { video_path } => Some(video_path),
        DeepVideoSource::DownloadedDouyinVideo { video_path, .. } => Some(video_path),
        DeepVideoSource::TextOnly { .. } => None,
    }
}

/// The video file of a source, if it has one.
pub fn source_video_path(source: &DeepVideoSource) -> (r: Option<String>)
    ensures
        r == source_path_spec(*source),
{
    match source {
        DeepVideoSource::LocalVideo { video_path } => Some(video_path.clone()),
        DeepVideoSource::DownloadedDouyinVideo { video_path, .. } => Some(video_path.clone()),
        DeepVideoSource::TextOnly { .. } => None,
    }
}

/// The video to sample frames from: none when frame analysis is off, the
/// source's video file when it is on, and an error when it is on but the
/// source has no video file.
pub fn frame_video_path(request: &DeepVideoAnalysisRequest) -> (r: Result<Option<String>, String>)
    ensures
        !request.use_frame_analysis ==> r == Ok::<Option<String>, String>(None),
        request.use_frame_analysis && source_path_spec(request.source) is Some ==> r == Ok::<
            Option<String>,
            String,
        >(source_path_spec(request.source)),
        request.use_frame_analysis && source_path_spec(request.source) is None ==> r is Err && r->Err_0@
            == "Frame evidence requires a video source"@,
{
    if !request.use_frame_analysis {
        return Ok(None);
    }
    match source_video_path(&request.source) {
        Some(path) => Ok(Some(path)),
        None => {
            let mut msg = String::new();
            msg.append("Frame evidence requires a video source");
            Err(msg)
        },
    }
}

/// The error for a video file that does not exist.
pub fn missing_video_message(video_path: &str) -> (r: String)
    ensures
        r@ == "Video source does not exist: "@ + video_path@,
{
    let mut msg = String::new();
    msg.append("Video source does not exist: ");
    msg.append(video_path);
    msg
}

/// The task id used when a request has none: `deep-video-` and a millisecond timestamp.
pub fn default_task_id(now_ms: i64) -> (r: String)
    ensures
        r@ == "deep-video-"@ + signed_decimal(now_ms as int),
{
    let mut id = String::new();
    id.append("deep-video-");
    push_signed_decimal(&mut id, now_ms);
    id
}

/// The artifacts a run writes: the contact sheet only when frames are
/// analysed, and no vision result.
pub fn artifacts_for(paths: &DeepVideoArtifactPaths, use_frame_analysis: bool) -> (r: DeepVideoArtifacts)
    ensures
        r.request_json == paths.request_json,
        r.frame_result_json == paths.frame_result_json,
        r.evidence_sheet_jpg == (if use_frame_analysis {
            Some(paths.evidence_sheet_jpg)
        } else {
            None
        }),
        r.candidate_segments_json == paths.candidate_segments_json,
        r.vision_result_json.is_none(),
        r.evidence_timeline_json == paths.evidence_timeline_json,
        r.result_json == paths.result_json,
        r.report_md == paths.report_md,
{
    DeepVideoArtifacts {
        request_json: paths.request_json.clone(),
        frame_result_json: paths.frame_result_json.clone(),
        evidence_sheet_jpg: if use_frame_analysis {
            Some(paths.evidence_sheet_jpg.clone())
        } else {
            None
        },
        candidate_segments_json: paths.candidate_segments_json.clone(),
        vision_result_json: None,
        evidence_timeline_json: paths.evidence_timeline_json.clone(),
        result_json: paths.result_json.clone(),
        report_md: paths.report_md.clone(),
    }
}

/// Assembles the result of a run from its parts: the timeline is built from
/// the request's transcript and OCR items, the frames and the candidates, and
/// the report from the timeline and candidates.
pub fn assemble_analysis_result(
    task_id: &str,
    request: &DeepVideoAnalysisRequest,
    frames: Vec<EvidenceFrame>,
    evidence_sheet: Option<EvidenceSheet>,
    candidates: Vec<CandidateSegment>,
    artifacts: DeepVideoArtifacts,
) -> (r: DeepVideoAnalysisResult)
    ensures
        r.task_id@ == task_id@,
        r.title == request.title,
        r.source_video_path == source_path_spec(request.source),
        r.profile == request.profile,
        r.frames == frames,
        r.evidence_sheet == evidence_sheet,
        r.candidates == candidates,
        items_view(r.timeline@) == timeline_spec(request.transcript, request.ocr_items@, frames@, candidates@),
        r.report_markdown@ == report_spec(
            request.title@,
            items_view(r.timeline@),
            candidates_view(candidates@),
            evidence_sheet is Some,
        ),
        r.artifacts == artifacts,
{
    let timeline = build_evidence_timeline(
        request.transcript.as_ref(),
        request.ocr_items.as_slice(),
        frames.as_slice(),
        candidates.as_slice(),
    );
    let report_markdown = build_markdown_report(
        request.title.as_str(),
        timeline.as_slice(),
        candidates.as_slice(),
        evidence_sheet.is_some(),
    );
    let mut id = String::new();
    id.append(task_id);
    DeepVideoAnalysisResult {
        task_id: id,
        title: request.title.clone(),
        source_video_path: source_video_path(&request.source),
        profile: request.profile,
        frames,
        evidence_sheet,
        candidates,
        timeline,
        report_markdown,
        artifacts,
    }
}


/// `r` is the result assembled from the parts of a run (see `assemble_analysis_result`).
pub open spec fn assembled(
    r: DeepVideoAnalysisResult,
    task_id: Seq<char>,
    request: DeepVideoAnalysisRequest,
    frames: Seq<EvidenceFrame>,
    evidence_sheet: Option<EvidenceSheet>,
    candidates: Seq<CandidateSegment>,
    artifacts: DeepVideoArtifacts,
) -> bool {
    &&& r.task_id@ == task_id
    &&& r.title == request.title
    &&& r.source_video_path == source_path_spec(request.source)
    &&& r.profile == request.profile
    &&& r.frames@ == frames
    &&& r.evidence_sheet == evidence_sheet
    &&& r.candidates@ == candidates
    &&& items_view(r.timeline@) == timeline_spec(request.transcript, request.ocr_items@, frames, candidates)
    &&& r.report_markdown@ == report_spec(
        request.title@,
        items_view(r.timeline@),
        candidates_view(candidates),
        evidence_sheet is Some,
    )
    &&& r.artifacts == artifacts
}

/// The files a finished run writes.
#[derive(Debug, Clone, Copy, PartialEq, Eq)]
pub enum ArtifactKind {
    /// The request, as received.
    Request,
    /// The sampled frames.
    Frames,
    /// The mined candidates.
    Candidates,
    /// The evidence timeline.
    Timeline,
    /// The Markdown report.
    Report,
    /// The whole result.
    Result,
}

/// The next thing a run needs done outside the library.
#[derive(Debug, PartialEq)]
pub enum RunStep {
    /// Create this directory and the ones above it.
    CreateDirs { dir: String },
    /// Tell whether this video file exists.
    CheckVideo { video_path: String },
    /// Sample frames of the video into the frames directory.
    SampleFrames { video_path: String, frames_dir: String, options: AnalysisProfileOptions },
    /// Draw the contact sheet of the run's frames into this image.
    DrawSheet { image_path: String },
    /// Write these files of the run's result, in this order.
    WriteArtifacts { files: Vec<(ArtifactKind, String)> },
    /// The run is over.
    Done(Result<DeepVideoAnalysisResult, String>),
}

/// A deep video run in progress.
pub struct DeepVideoRun {
    pub request: DeepVideoAnalysisRequest,
    pub task_id: String,
    pub paths: DeepVideoArtifactPaths,
    pub candidates: Vec<CandidateSegment>,
    pub frames: Vec<EvidenceFrame>,
    pub sheet: Option<EvidenceSheet>,
    /// The assembled result, once there is one.
    pub result: Option<DeepVideoAnalysisResult>,
}

/// The files of a result, in the order they are written: the request, the
/// frames, the candidates, the timeline, the report, then the whole result.
pub open spec fn artifact_files_spec(paths: DeepVideoArtifactPaths) -> Seq<(ArtifactKind, Seq<char>)> {
    seq![
        (ArtifactKind::Request, paths.request_json@),
        (ArtifactKind::Frames, paths.frame_result_json@),
        (ArtifactKind::Candidates, paths.candidate_segments_json@),
        (ArtifactKind::Timeline, paths.evidence_timeline_json@),
        (ArtifactKind::Report, paths.report_md@),
        (ArtifactKind::Result, paths.result_json@),
    ]
}

/// Files taken as (kind, path text).
pub open spec fn files_view(files: Seq<(ArtifactKind, String)>) -> Seq<(ArtifactKind, Seq<char>)> {
    files.map_values(|f: (ArtifactKind, String)| (f.0, f.1@))
}

/// The task id of a request: its own, or `deep-video-` and the time.
pub open spec fn task_id_spec(request: DeepVideoAnalysisRequest, now_ms: i64) -> Seq<char> {
    match request.task_id {
        Some(id) => id@,
        None => "deep-video-"@ + signed_decimal(now_ms as int),
    }
}

/// The run's input stays as it was given.
pub open spec fn same_run(a: DeepVideoRun, b: DeepVideoRun) -> bool {
    &&& a.request == b.request
    &&& a.task_id == b.task_id
    &&& a.paths == b.paths
}

fn artifact_files(paths: &DeepVideoArtifactPaths) -> (r: Vec<(ArtifactKind, String)>)
    ensures
        files_view(r@) == artifact_files_spec(*paths),
{
    let mut files: Vec<(ArtifactKind, String)> = Vec::new();
    files.push((ArtifactKind::Request, paths.request_json.clone()));
    files.push((ArtifactKind::Frames, paths.frame_result_json.clone()));
    files.push((ArtifactKind::Candidates, paths.candidate_segments_json.clone()));
    files.push((ArtifactKind::Timeline, paths.evidence_timeline_json.clone()));
    files.push((ArtifactKind::Report, paths.report_md.clone()));
    files.push((ArtifactKind::Result, paths.result_json.clone()));
    assert(files_view(files@) =~= artifact_files_spec(*paths));
    files
}

/// A run whose parts are complete: the parts go into the assembled result,
/// which is then written out.
fn finish_parts(run: DeepVideoRun) -> (r: (DeepVideoRun, RunStep))
    ensures
        same_run(r.0, run),
        r.0.result is Some,
        assembled(
            r.0.result->Some_0,
            run.task_id@,
            run.request,
            run.frames@,
            run.sheet,
            run.candidates@,
            artifacts_spec(run.paths, run.request.use_frame_analysis),
        ),
        writes_artifacts(r.1, run.paths),
{
    let artifacts = artifacts_for(&run.paths, run.request.use_frame_analysis);
    let result = assemble_analysis_result(
        run.task_id.as_str(),
        &run.request,
        run.frames,
        run.sheet,
        run.candidates,
        artifacts,
    );
    let files = artifact_files(&run.paths);
    let next = DeepVideoRun {
        request: run.request,
        task_id: run.task_id,
        paths: run.paths,
        candidates: Vec::new(),
        frames: Vec::new(),
        sheet: None,
        result: Some(result),
    };
    (next, RunStep::WriteArtifacts { files })
}

/// The artifacts recorded for a run (see `artifacts_for`).
pub open spec fn artifacts_spec(paths: DeepVideoArtifactPaths, use_frame_analysis: bool) -> DeepVideoArtifacts {
    DeepVideoArtifacts {
        request_json: paths.request_json,
        frame_result_json: paths.frame_result_json,
        evidence_sheet_jpg: if use_frame_analysis {
            Some(paths.evidence_sheet_jpg)
        } else {
            None
        },
        candidate_segments_json: paths.candidate_segments_json,
        vision_result_json: None,
        evidence_timeline_json: paths.evidence_timeline_json,
        result_json: paths.result_json,
        report_md: paths.report_md,
    }
}


/// The step writes the files of a result under `paths`, in their order.
pub open spec fn writes_artifacts(step: RunStep, paths: DeepVideoArtifactPaths) -> bool {
    step matches RunStep::WriteArtifacts { files } && files_view(files@) == artifact_files_spec(paths)
}

/// The step checks that the video exists.
pub open spec fn checks_video(step: RunStep, video: String) -> bool {
    step matches RunStep::CheckVideo { video_path } && video_path == video
}

/// The step samples frames of the video into the directory with the options.
pub open spec fn samples_frames(step: RunStep, video: String, dir: String, opts: AnalysisProfileOptions) -> bool {
    step matches RunStep::SampleFrames { video_path, frames_dir, options } && video_path == video && frames_dir
        == dir && options == opts
}

/// The step draws the contact sheet into the image.
pub open spec fn draws_sheet(step: RunStep, image: String) -> bool {
    step matches RunStep::DrawSheet { image_path } && image_path == image
}

/// The step creates the directory.
pub open spec fn creates_dirs(step: RunStep, directory: String) -> bool {
    step matches RunStep::CreateDirs { dir } && dir == directory
}

/// The transcript segments and OCR items of the request can be numbered as
/// candidates.
pub open spec fn request_fits(request: DeepVideoAnalysisRequest) -> bool {
    (match request.transcript {
        Some(t) => t.segments.len() as int,
        None => 0,
    }) + request.ocr_items@.len() + 2 <= usize::MAX
}

/// The run is over with this error.
pub open spec fn ends_with_error(step: RunStep, message: Seq<char>) -> bool {
    step matches RunStep::Done(Err(e)) && e@ == message
}

impl DeepVideoRun {
    /// Starts a run with its artifacts under `artifact_root`; `now_ms` names
    /// a task that has no id. The first step creates the frames directory.
    pub fn start(request: DeepVideoAnalysisRequest, artifact_root: &str, now_ms: i64) -> (r: (DeepVideoRun, RunStep))
        ensures
            r.0.request == request,
            r.0.task_id@ == task_id_spec(request, now_ms),
            artifact_paths_spec(artifact_root@, r.0.task_id@, r.0.paths),
            r.0.candidates@.len() == 0,
            r.0.frames@.len() == 0,
            r.0.sheet is None,
            r.0.result is None,
            creates_dirs(r.1, r.0.paths.frames_dir),
    {
        let task_id = match &request.task_id {
            Some(id) => id.clone(),
            None => default_task_id(now_ms),
        };
        let paths = DeepVideoArtifactPaths::from_root(artifact_root, task_id.as_str());
        let dir = paths.frames_dir.clone();
        let run = DeepVideoRun {
            request,
            task_id,
            paths,
            candidates: Vec::new(),
            frames: Vec::new(),
            sheet: None,
            result: None,
        };
        (run, RunStep::CreateDirs { dir })
    }

    /// After the directories were created (or not): the candidates are mined;
    /// then, without frame analysis, the result is written; with it, the video
    /// is checked, unless the source has none.
    pub fn on_dirs_created(self, outcome: Result<(), String>) -> (r: (DeepVideoRun, RunStep))
        requires
            request_fits(self.request),
            self.frames@.len() == 0,
            self.sheet is None,
        ensures
            same_run(r.0, self),
            outcome is Err ==> ends_with_error(r.1, "Failed to create deep video artifact dirs: "@ + outcome->Err_0@),
            outcome is Ok && self.request.use_frame_analysis ==> candidates_view(r.0.candidates@) == mine_spec(
                self.request.transcript,
                self.request.ocr_items@,
                opt_view(self.request.reference_text),
            ),
            outcome is Ok && !self.request.use_frame_analysis ==> r.0.result is Some && candidates_view(
                r.0.result->Some_0.candidates@,
            ) == mine_spec(
                self.request.transcript,
                self.request.ocr_items@,
                opt_view(self.request.reference_text),
            ) && assembled(
                r.0.result->Some_0,
                self.task_id@,
                self.request,
                Seq::empty(),
                None,
                r.0.result->Some_0.candidates@,
                artifacts_spec(self.paths, false),
            ) && writes_artifacts(r.1, self.paths),
            outcome is Ok && self.request.use_frame_analysis && source_path_spec(self.request.source) is None
                ==> ends_with_error(r.1, "Frame evidence requires a video source"@),
            outcome is Ok && self.request.use_frame_analysis && source_path_spec(self.request.source) is Some
                ==> r.0.frames@.len() == 0 && r.0.sheet is None && r.0.result is None && checks_video(
                r.1,
                source_path_spec(self.request.source)->Some_0,
            ),
    {
        if let Err(e) = outcome {
            let mut msg = String::new();
            msg.append("Failed to create deep video artifact dirs: ");
            msg.append(e.as_str());
            return (self, RunStep::Done(Err(msg)));
        }
        let candidates = mine_candidate_segments(
            self.request.transcript.as_ref(),
            self.request.ocr_items.as_slice(),
            match &self.request.reference_text {
                Some(t) => Some(t.as_str()),
                None => None,
            },
        );
        let video = frame_video_path(&self.request);
        let run = DeepVideoRun {
            request: self.request,
            task_id: self.task_id,
            paths: self.paths,
            candidates,
            frames: self.frames,
            sheet: self.sheet,
            result: None,
        };
        match video {
            Err(e) => (run, RunStep::Done(Err(e))),
            Ok(None) => {
                assert(run.frames@ =~= Seq::<EvidenceFrame>::empty());
                finish_parts(run)
            },
            Ok(Some(video_path)) => (run, RunStep::CheckVideo { video_path }),
        }
    }

    /// After the video was looked for: a missing video ends the run;
    /// otherwise frames are sampled with the profile's options.
    pub fn on_video_checked(self, video_path: String, exists: bool) -> (r: (DeepVideoRun, RunStep))
        ensures
            same_run(r.0, self),
            r.0.candidates == self.candidates,
            r.0.frames == self.frames,
            r.0.sheet == self.sheet,
            r.0.result == self.result,
            !exists ==> ends_with_error(r.1, "Video source does not exist: "@ + video_path@),
            exists ==> samples_frames(
                r.1,
                video_path,
                self.paths.frames_dir,
                clamped_spec(tier_options(self.request.profile)),
            ),
    {
        if !exists {
            return (self, RunStep::Done(Err(missing_video_message(video_path.as_str()))));
        }
        let options = self.request.profile.normalized_options();
        let frames_dir = self.paths.frames_dir.clone();
        (self, RunStep::SampleFrames { video_path, frames_dir, options })
    }

    /// After frames were sampled (or not): the contact sheet is drawn next.
    pub fn on_frames_sampled(self, outcome: Result<Vec<EvidenceFrame>, String>) -> (r: (DeepVideoRun, RunStep))
        ensures
            same_run(r.0, self),
            r.0.candidates == self.candidates,
            r.0.sheet == self.sheet,
            r.0.result == self.result,
            outcome is Err ==> r.0.frames == self.frames && ends_with_error(r.1, outcome->Err_0@),
            outcome is Ok ==> r.0.frames == outcome->Ok_0 && draws_sheet(r.1, self.paths.evidence_sheet_jpg),
    {
        match outcome {
            Err(e) => (self, RunStep::Done(Err(e))),
            Ok(frames) => {
                let image_path = self.paths.evidence_sheet_jpg.clone();
                let run = DeepVideoRun {
                    request: self.request,
                    task_id: self.task_id,
                    paths: self.paths,
                    candidates: self.candidates,
                    frames,
                    sheet: self.sheet,
                    result: self.result,
                };
                (run, RunStep::DrawSheet { image_path })
            },
        }
    }

    /// After the contact sheet was drawn (or not): the result is assembled
    /// with it and written out.
    pub fn on_sheet_drawn(self, outcome: Result<EvidenceSheet, String>) -> (r: (DeepVideoRun, RunStep))
        ensures
            same_run(r.0, self),
            outcome is Err ==> ends_with_error(r.1, outcome->Err_0@),
            outcome is Ok ==> r.0.result is Some && assembled(
                r.0.result->Some_0,
                self.task_id@,
                self.request,
                self.frames@,
                Some(outcome->Ok_0),
                self.candidates@,
                artifacts_spec(self.paths, self.request.use_frame_analysis),
            ) && writes_artifacts(r.1, self.paths),
    {
        match outcome {
            Err(e) => (self, RunStep::Done(Err(e))),
            Ok(sheet) => {
                let run = DeepVideoRun {
                    request: self.request,
                    task_id: self.task_id,
                    paths: self.paths,
                    candidates: self.candidates,
                    frames: self.frames,
                    sheet: Some(sheet),
                    result: None,
                };
                finish_parts(run)
            },
        }
    }

    /// After the artifacts were written (or not): the run ends with its
    /// result, or with the first write error.
    pub fn on_artifacts_written(self, outcome: Result<(), String>) -> (r: RunStep)
        requires
            self.result is Some,
        ensures
            outcome is Err ==> ends_with_error(r, outcome->Err_0@),
            outcome is Ok ==> r == RunStep::Done(Ok::<DeepVideoAnalysisResult, String>(self.result->Some_0)),
    {
        match outcome {
            Err(e) => RunStep::Done(Err(e)),
            Ok(()) => RunStep::Done(Ok(self.result.unwrap())),
        }
    }
}
} // verus!
