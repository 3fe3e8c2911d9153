//! The layout of the files written for one analysis task.

use vstd::prelude::*;
use crate::text::{join_path, join_path_str};

verus! {

/// The paths of the artifacts of one task, under `<root>/deep-video/<task id>`.
#[derive(Debug, Clone, PartialEq)]
pub struct DeepVideoArtifactPaths {
    pub task_dir: String,
    pub frames_dir: String,
    pub request_json: String,
    pub frame_result_json: String,
    pub evidence_sheet_jpg: String,
    pub candidate_segments_json: String,
    pub vision_result_json: String,
    pub evidence_timeline_json: String,
    pub result_json: String,
    pub report_md: String,
}

/// The task directory under an artifact root.
pub open spec fn task_dir_for(root: Seq<char>, task_id: Seq<char>) -> Seq<char> {
    join_path(join_path(root, "deep-video"@), task_id)
}

/// The artifact paths of a task under `root`.
pub open spec fn artifact_paths_spec(root: Seq<char>, task_id: Seq<char>, p: DeepVideoArtifactPaths) -> bool {
    let dir = task_dir_for(root, task_id);
    &&& p.task_dir@ == dir
    &&& p.frames_dir@ == join_path(dir, "frames"@)
    &&& p.request_json@ == join_path(dir, "deep_analysis_request.json"@)
    &&& p.frame_result_json@ == join_path(dir, "frame_result.json"@)
    &&& p.evidence_sheet_jpg@ == join_path(dir, "evidence_sheet.jpg"@)
    &&& p.candidate_segments_json@ == join_path(dir, "candidate_segments.json"@)
    &&& p.vision_result_json@ == join_path(dir, "vision_result.json"@)
    &&& p.evidence_timeline_json@ == join_path(dir, "evidence_timeline.json"@)
    &&& p.result_json@ == join_path(dir, "deep_analysis_result.json"@)
    &&& p.report_md@ == join_path(dir, "report.md"@)
}

impl DeepVideoArtifactPaths {
    /// The artifact paths of `task_id` under the artifact root `root`.
    pub fn from_root(root: &str, task_id: &str) -> (r: Self)
        ensures
            artifact_paths_spec(root@, task_id@, r),
    {
        let base = join_path_str(root, "deep-video");
        let task_dir = join_path_str(base.as_str(), task_id);
        let d = task_dir.as_str();
        DeepVideoArtifactPaths {
            frames_dir: join_path_str(d, "frames"),
            request_json: join_path_str(d, "deep_analysis_request.json"),
            frame_result_json: join_path_str(d, "frame_result.json"),
            evidence_sheet_jpg: join_path_str(d, "evidence_sheet.jpg"),
            candidate_segments_json: join_path_str(d, "candidate_segments.json"),
            vision_result_json: join_path_str(d, "vision_result.json"),
            evidence_timeline_json: join_path_str(d, "evidence_timeline.json"),
            result_json: join_path_str(d, "deep_analysis_result.json"),
            report_md: join_path_str(d, "report.md"),
            task_dir,
        }
    }
}

} // verus!
