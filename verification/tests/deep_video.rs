use douyin_creator_tools::deep_video::artifacts::DeepVideoArtifactPaths;
use douyin_creator_tools::deep_video::candidate_mining::mine_candidate_segments;
use douyin_creator_tools::deep_video::evidence_timeline::build_evidence_timeline;
use douyin_creator_tools::deep_video::frame_sampling::{
    build_interval_timestamps, parse_showinfo_timestamps, plan_interval_frames,
};
use douyin_creator_tools::deep_video::report::build_markdown_report;
use douyin_creator_tools::deep_video::runner::{
    artifacts_for, assemble_analysis_result, default_task_id, frame_video_path,
    missing_video_message, source_video_path,
};
use douyin_creator_tools::deep_video::time_format::{
    format_frame_citation, format_seconds, format_time_label,
};
use douyin_creator_tools::deep_video::types::{
    AnalysisProfile, AnalysisProfileOptions, CandidateCategory, CandidateSegment,
    CandidateSource, DeepVideoAnalysisRequest, DeepVideoArtifacts, DeepVideoSource,
    EvidenceFrame, EvidenceItem, EvidenceKind, EvidenceSheet, EvidenceTimeRange, FrameSource,
    OcrInputItem, TranscriptInput, TranscriptSegment,
};
use std::path::Path;

fn hook_candidate(start_ms: i64, end_ms: i64, excerpt: &str) -> CandidateSegment {
    CandidateSegment {
        segment_id: "candidate-001".to_string(),
        category: CandidateCategory::Hook,
        start_ms: Some(start_ms),
        end_ms: Some(end_ms),
        reason: "opening".to_string(),
        text_excerpt: excerpt.to_string(),
        source: CandidateSource::Asr,
    }
}

fn text_request(source: DeepVideoSource, use_frame_analysis: bool) -> DeepVideoAnalysisRequest {
    DeepVideoAnalysisRequest {
        source,
        task_id: Some("task-1".to_string()),
        title: "sample.mp4".to_string(),
        profile: AnalysisProfile::Economy,
        use_frame_analysis,
        transcript: None,
        ocr_items: Vec::new(),
        reference_text: None,
    }
}

#[test]
fn creates_expected_deep_video_filenames() {
    let root = "C:/tmp/test-app-data";
    let paths = DeepVideoArtifactPaths::from_root(root, "task-123");

    assert!(Path::new(&paths.task_dir).ends_with("deep-video/task-123"));
    assert!(Path::new(&paths.request_json).ends_with("deep_analysis_request.json"));
    assert!(Path::new(&paths.evidence_sheet_jpg).ends_with("evidence_sheet.jpg"));
    assert!(Path::new(&paths.report_md).ends_with("report.md"));
}

#[test]
fn artifact_paths_are_joined_under_the_task_dir() {
    let paths = DeepVideoArtifactPaths::from_root("/data/", "t1");
    assert_eq!(paths.task_dir, "/data/deep-video/t1");
    assert_eq!(paths.frames_dir, "/data/deep-video/t1/frames");
    assert_eq!(paths.frame_result_json, "/data/deep-video/t1/frame_result.json");
    assert_eq!(paths.candidate_segments_json, "/data/deep-video/t1/candidate_segments.json");
    assert_eq!(paths.vision_result_json, "/data/deep-video/t1/vision_result.json");
    assert_eq!(paths.evidence_timeline_json, "/data/deep-video/t1/evidence_timeline.json");
    assert_eq!(paths.result_json, "/data/deep-video/t1/deep_analysis_result.json");
}

#[test]
fn mines_hook_from_opening_segment() {
    let transcript = TranscriptInput {
        text: "你是不是也遇到这个问题？后面我给你一个方法".to_string(),
        segments: vec![
            TranscriptSegment {
                text: "你是不是也遇到这个问题？".to_string(),
                start_ms: Some(0),
                end_ms: Some(3000),
            },
            TranscriptSegment {
                text: "后面我给你一个方法".to_string(),
                start_ms: Some(3000),
                end_ms: Some(8000),
            },
        ],
    };

    let segments = mine_candidate_segments(Some(&transcript), &[], None);

    assert!(segments.iter().any(|item| {
        item.category == CandidateCategory::Hook
            && item.source == CandidateSource::Asr
            && item.start_ms == Some(0)
    }));
}

#[test]
fn mines_offer_from_ocr_text() {
    let ocr = vec![OcrInputItem {
        frame_index: Some(4),
        timestamp_ms: Some(12000),
        image_path: Some("frame-004.jpg".to_string()),
        text: "限时福利 立减 99 元".to_string(),
    }];

    let segments = mine_candidate_segments(None, &ocr, None);

    assert_eq!(segments[0].category, CandidateCategory::Offer);
    assert_eq!(segments[0].source, CandidateSource::Ocr);
    assert_eq!(segments[0].start_ms, Some(12000));
}

#[test]
fn mining_numbers_segments_and_reads_reference_text() {
    let ocr = vec![OcrInputItem {
        frame_index: None,
        timestamp_ms: None,
        image_path: None,
        text: "点击关注".to_string(),
    }];
    let segments = mine_candidate_segments(None, &ocr, Some("不要错过这个坑"));

    assert_eq!(segments.len(), 2);
    assert_eq!(segments[0].segment_id, "candidate-001");
    assert_eq!(segments[0].category, CandidateCategory::Cta);
    assert_eq!(segments[1].segment_id, "candidate-002");
    assert_eq!(segments[1].source, CandidateSource::ReferenceText);
    assert_eq!(segments[1].start_ms, None);
}

#[test]
fn mining_ignores_blank_and_plain_text() {
    let ocr = vec![
        OcrInputItem {
            frame_index: None,
            timestamp_ms: Some(1000),
            image_path: None,
            text: "   ".to_string(),
        },
        OcrInputItem {
            frame_index: None,
            timestamp_ms: Some(2000),
            image_path: None,
            text: "today is sunny".to_string(),
        },
    ];
    assert!(mine_candidate_segments(None, &ocr, None).is_empty());
}

#[test]
fn timeline_sorts_known_times_before_unknown_times() {
    let frames = vec![
        EvidenceFrame::new(1, None, "frame-001.jpg".to_string(), FrameSource::Scene),
        EvidenceFrame::new(2, Some(3000), "frame-002.jpg".to_string(), FrameSource::Interval),
    ];
    let candidates = vec![hook_candidate(1000, 2000, "你是不是也这样")];

    let timeline = build_evidence_timeline(None, &[], &frames, &candidates);

    assert_eq!(timeline[0].kind, EvidenceKind::Candidate);
    assert_eq!(timeline[1].kind, EvidenceKind::Frame);
    assert_eq!(timeline[2].time_range.start_ms, None);
}

#[test]
fn timeline_includes_frame_ids_and_thumbnails() {
    let frames = vec![EvidenceFrame::new(
        7,
        Some(12000),
        "frame-007.jpg".to_string(),
        FrameSource::Interval,
    )];

    let timeline = build_evidence_timeline(None, &[], &frames, &[]);

    assert_eq!(timeline[0].frame_ids, vec!["#007"]);
    assert_eq!(timeline[0].thumbnail_path, Some("frame-007.jpg".to_string()));
}

#[test]
fn timeline_breaks_time_ties_by_kind_and_keeps_every_item() {
    let transcript = TranscriptInput {
        text: "hello".to_string(),
        segments: vec![TranscriptSegment {
            text: "hello".to_string(),
            start_ms: Some(5000),
            end_ms: Some(6000),
        }],
    };
    let ocr = vec![OcrInputItem {
        frame_index: Some(2),
        timestamp_ms: Some(5000),
        image_path: None,
        text: "caption".to_string(),
    }];
    let frames = vec![EvidenceFrame::new(1, Some(5000), "f.jpg".to_string(), FrameSource::Opening)];
    let candidates = vec![hook_candidate(5000, 6000, "hook")];

    let timeline = build_evidence_timeline(Some(&transcript), &ocr, &frames, &candidates);

    assert_eq!(timeline.len(), 4);
    assert_eq!(timeline[0].kind, EvidenceKind::Asr);
    assert_eq!(timeline[0].title, "ASR segment 1");
    assert_eq!(timeline[0].reference, "asr-001");
    assert_eq!(timeline[1].kind, EvidenceKind::Ocr);
    assert_eq!(timeline[1].title, "OCR text 2");
    assert_eq!(timeline[1].reference, "ocr-001");
    assert_eq!(timeline[1].frame_ids, vec!["#002"]);
    assert_eq!(timeline[2].kind, EvidenceKind::Candidate);
    assert_eq!(timeline[2].title, "Hook candidate");
    assert_eq!(timeline[3].kind, EvidenceKind::Frame);
    assert_eq!(timeline[3].title, "Key frame #001");
    assert_eq!(timeline[3].excerpt, "Opening frame");
}

#[test]
fn builds_interval_timestamps_from_duration_and_options() {
    let options = AnalysisProfileOptions {
        max_frames: 4,
        interval_ms: 5000,
        candidate_window_ms: 8000,
        frames_per_candidate: 2,
        use_scene_boundaries: true,
        vision_passes: 1,
    };

    assert_eq!(build_interval_timestamps(18_000, &options), vec![0, 5000, 10000, 15000]);
}

#[test]
fn interval_timestamps_for_empty_and_short_videos() {
    let options = AnalysisProfile::Balanced.normalized_options();
    assert_eq!(build_interval_timestamps(0, &options), vec![0]);
    assert_eq!(build_interval_timestamps(4_999, &options), vec![0]);
    assert_eq!(build_interval_timestamps(5_001, &options), vec![0, 5000]);
}

#[test]
fn plans_numbered_frames_with_opening_first() {
    let frames = plan_interval_frames("/tmp/frames", &vec![0, 5000]);
    assert_eq!(frames.len(), 2);
    assert_eq!(frames[0].frame_id, "#001");
    assert_eq!(frames[0].image_path, "/tmp/frames/frame-001.jpg");
    assert_eq!(frames[0].source, FrameSource::Opening);
    assert_eq!(frames[1].image_path, "/tmp/frames/frame-002.jpg");
    assert_eq!(frames[1].source, FrameSource::Interval);
    assert_eq!(frames[1].timestamp_ms, Some(5000));
}

#[test]
fn parses_showinfo_pts_time_values() {
    let stderr = "[Parsed_showinfo_1] n: 0 pts: 1024 pts_time:2.133 pos:0\n[Parsed_showinfo_1] n: 1 pts: 2048 pts_time:4.266 pos:0";

    assert_eq!(parse_showinfo_timestamps(stderr), vec![2133, 4266]);
}

#[test]
fn showinfo_lines_without_a_number_are_skipped() {
    let stderr = "no marker here\npts_time:abc\npts_time:7\r\nx pts_time:0.5 y";
    assert_eq!(parse_showinfo_timestamps(stderr), vec![7000, 500]);
}

#[test]
fn showinfo_values_in_exponent_form_are_read() {
    let stderr = "pts_time:4e-05\npts_time:1.5e1\npts_time:2E+0\npts_time:5e-3\npts_time:-1.25e2\npts_time:5e-4";
    assert_eq!(parse_showinfo_timestamps(stderr), vec![0, 15000, 2000, 5, -125000, 1]);
}

#[test]
fn showinfo_values_with_extreme_exponents() {
    let stderr = "pts_time:0e999999999999999999999999\npts_time:1e-999999999999999999999999\npts_time:1e300\npts_time:4.9999e-4";
    assert_eq!(parse_showinfo_timestamps(stderr), vec![0, 0, 0]);
}

#[test]
fn showinfo_values_with_malformed_exponents_are_skipped() {
    let stderr = "pts_time:1e\npts_time:e5\npts_time:1e+\npts_time:1e5e3\npts_time:.e2\npts_time:nan\npts_time:1.2.3";
    assert_eq!(parse_showinfo_timestamps(stderr), Vec::<i64>::new());
}

#[test]
fn report_contains_title_and_timestamp_citation() {
    let timeline = vec![EvidenceItem {
        kind: EvidenceKind::Candidate,
        title: "Hook candidate".to_string(),
        time_range: EvidenceTimeRange { start_ms: Some(0), end_ms: Some(3000) },
        reference: "candidate-001".to_string(),
        excerpt: "你是不是也这样".to_string(),
        frame_ids: Vec::new(),
        thumbnail_path: None,
    }];
    let candidates = vec![hook_candidate(0, 3000, "你是不是也这样")];

    let report = build_markdown_report("sample.mp4", &timeline, &candidates, true);

    assert!(report.contains("# sample.mp4 Deep Video Analysis"));
    assert!(report.contains("[00:00.0-00:03.0]"));
}

#[test]
fn report_without_sheet_omits_frame_id_advice() {
    let report = build_markdown_report("t", &[], &[], false);
    assert!(report.contains("- No text-guided candidates were detected."));
    assert!(report.contains("with 0 evidence items and 0 text-guided candidates."));
    assert!(!report.contains("contact sheet"));
    assert!(!report.contains("frame IDs"));
    let with_sheet = build_markdown_report("t", &[], &[], true);
    assert!(with_sheet.ends_with(
        "- Keep frame citations stable by referencing frame IDs from the contact sheet."
    ));
}

#[test]
fn assembles_result_from_components() {
    let request = text_request(
        DeepVideoSource::LocalVideo { video_path: "sample.mp4".to_string() },
        true,
    );
    let frames = vec![EvidenceFrame::new(1, Some(0), "frame-001.jpg".to_string(), FrameSource::Opening)];
    let sheet = EvidenceSheet {
        image_path: "evidence_sheet.jpg".to_string(),
        frames: frames.clone(),
        generated_at: chrono::Utc::now().to_rfc3339(),
    };
    let candidates = vec![hook_candidate(0, 2000, "opening")];

    let result = assemble_analysis_result(
        "task-1",
        &request,
        frames,
        Some(sheet),
        candidates,
        DeepVideoArtifacts {
            request_json: "request.json".to_string(),
            frame_result_json: "frame_result.json".to_string(),
            evidence_sheet_jpg: Some("evidence_sheet.jpg".to_string()),
            candidate_segments_json: "candidate_segments.json".to_string(),
            vision_result_json: None,
            evidence_timeline_json: "timeline.json".to_string(),
            result_json: "result.json".to_string(),
            report_md: "report.md".to_string(),
        },
    );

    assert_eq!(result.task_id, "task-1");
    assert!(result.report_markdown.contains("sample.mp4 Deep Video Analysis"));
    assert_eq!(result.timeline.len(), 2);
}

#[test]
fn text_only_result_has_no_frame_artifacts() {
    let mut request = text_request(
        DeepVideoSource::LocalVideo { video_path: "C:/tmp/does-not-exist/text-only.mp4".to_string() },
        false,
    );
    request.transcript = Some(TranscriptInput {
        text: "Limited offer. Tap now to claim it.".to_string(),
        segments: vec![TranscriptSegment {
            text: "Limited offer. Tap now to claim it.".to_string(),
            start_ms: Some(1000),
            end_ms: Some(4000),
        }],
    });
    let candidates = mine_candidate_segments(request.transcript.as_ref(), &request.ocr_items, None);
    let paths = DeepVideoArtifactPaths::from_root("/root", "text-only");
    let artifacts = artifacts_for(&paths, false);
    let result = assemble_analysis_result("text-only", &request, Vec::new(), None, candidates, artifacts);

    assert!(result.frames.is_empty());
    assert!(result.evidence_sheet.is_none());
    assert!(result.artifacts.evidence_sheet_jpg.is_none());
    assert!(result.timeline.iter().any(|item| item.kind == EvidenceKind::Candidate));
    assert!(!result.report_markdown.contains("contact sheet"));
    assert!(!result.report_markdown.contains("frame IDs"));
    assert_eq!(result.source_video_path, Some("C:/tmp/does-not-exist/text-only.mp4".to_string()));
}

#[test]
fn frame_evidence_requires_a_video_source() {
    let text_only = text_request(DeepVideoSource::TextOnly { source_url: None }, true);
    assert_eq!(
        frame_video_path(&text_only),
        Err("Frame evidence requires a video source".to_string())
    );
    let no_frames = text_request(DeepVideoSource::TextOnly { source_url: None }, false);
    assert_eq!(frame_video_path(&no_frames), Ok(None));
    let downloaded = text_request(
        DeepVideoSource::DownloadedDouyinVideo {
            video_path: "v.mp4".to_string(),
            source_url: "https://v.douyin.com/x/".to_string(),
        },
        true,
    );
    assert_eq!(frame_video_path(&downloaded), Ok(Some("v.mp4".to_string())));
    assert_eq!(source_video_path(&downloaded.source), Some("v.mp4".to_string()));
    assert_eq!(
        missing_video_message("C:/tmp/missing.mp4"),
        "Video source does not exist: C:/tmp/missing.mp4"
    );
    assert_eq!(default_task_id(1700000000123), "deep-video-1700000000123");
}

#[test]
fn formats_single_time_with_rollover() {
    let range = EvidenceTimeRange { start_ms: Some(59_950), end_ms: Some(59_950) };

    assert_eq!(format_time_label(&range), "[01:00.0]");
}

#[test]
fn formats_time_range_with_rollover() {
    let range = EvidenceTimeRange { start_ms: Some(119_950), end_ms: Some(125_240) };

    assert_eq!(format_time_label(&range), "[02:00.0-02:05.2]");
}

#[test]
fn formats_unknown_time() {
    let range = EvidenceTimeRange { start_ms: None, end_ms: None };

    assert_eq!(format_time_label(&range), "[time unknown]");
}

#[test]
fn formats_frame_citation() {
    let frame = EvidenceFrame::new(
        2,
        Some(5400),
        "deep-video/task/frames/frame-002.jpg".to_string(),
        FrameSource::Interval,
    );

    assert_eq!(format_frame_citation(&frame), "#002 [00:05.4]");
}

#[test]
fn formats_negative_and_close_times() {
    assert_eq!(format_seconds(-1), "time unknown");
    assert_eq!(format_seconds(3_723_450), "62:03.5");
    let close = EvidenceTimeRange { start_ms: Some(1000), end_ms: Some(1049) };
    assert_eq!(format_time_label(&close), "[00:01.0]");
    let apart = EvidenceTimeRange { start_ms: Some(1000), end_ms: Some(1050) };
    assert_eq!(format_time_label(&apart), "[00:01.0-00:01.1]");
    let open_end = EvidenceTimeRange { start_ms: Some(2000), end_ms: None };
    assert_eq!(format_time_label(&open_end), "[00:02.0]");
}

#[test]
fn profile_defaults_match_product_tiers() {
    assert_eq!(
        AnalysisProfile::Economy.normalized_options(),
        AnalysisProfileOptions {
            max_frames: 12,
            interval_ms: 8000,
            candidate_window_ms: 6000,
            frames_per_candidate: 1,
            use_scene_boundaries: false,
            vision_passes: 1,
        }
    );
    assert_eq!(AnalysisProfile::Balanced.normalized_options().max_frames, 24);
    assert_eq!(AnalysisProfile::Precise.normalized_options().max_frames, 48);
}

#[test]
fn custom_profile_values_are_clamped() {
    let profile = AnalysisProfile::Custom(AnalysisProfileOptions {
        max_frames: 500,
        interval_ms: 200,
        candidate_window_ms: 99_000,
        frames_per_candidate: 9,
        use_scene_boundaries: true,
        vision_passes: 7,
    });

    assert_eq!(
        profile.normalized_options(),
        AnalysisProfileOptions {
            max_frames: 96,
            interval_ms: 1000,
            candidate_window_ms: 30_000,
            frames_per_candidate: 5,
            use_scene_boundaries: true,
            vision_passes: 3,
        }
    );
}

#[test]
fn clamping_raises_values_below_the_range() {
    let low = AnalysisProfileOptions {
        max_frames: 0,
        interval_ms: 0,
        candidate_window_ms: 0,
        frames_per_candidate: 0,
        use_scene_boundaries: false,
        vision_passes: 0,
    };
    let clamped = low.clamped();
    assert_eq!(clamped.max_frames, 1);
    assert_eq!(clamped.interval_ms, 1000);
    assert_eq!(clamped.candidate_window_ms, 2000);
    assert_eq!(clamped.frames_per_candidate, 1);
    assert_eq!(clamped.vision_passes, 0);
    assert_eq!(clamped.clamped(), clamped);
}

#[test]
fn evidence_frame_assigns_stable_frame_id() {
    let frame = EvidenceFrame::new(
        3,
        Some(10_250),
        "deep-video/task/frames/frame-003.jpg".to_string(),
        FrameSource::Interval,
    );

    assert_eq!(frame.frame_id, "#003");
    assert_eq!(frame.index, 3);
    assert_eq!(frame.timestamp_ms, Some(10_250));
    assert_eq!(EvidenceFrame::new(1234, None, String::new(), FrameSource::Scene).frame_id, "#1234");
}

#[test]
fn timeline_keeps_input_order_for_equal_keys() {
    let ocr = vec![
        OcrInputItem { frame_index: Some(9), timestamp_ms: Some(2000), image_path: None, text: "second".to_string() },
        OcrInputItem { frame_index: Some(3), timestamp_ms: Some(2000), image_path: None, text: "first".to_string() },
        OcrInputItem { frame_index: Some(5), timestamp_ms: Some(1000), image_path: None, text: "earliest".to_string() },
    ];
    let timeline = build_evidence_timeline(None, &ocr, &[], &[]);
    let excerpts: Vec<&str> = timeline.iter().map(|item| item.excerpt.as_str()).collect();
    assert_eq!(excerpts, vec!["earliest", "second", "first"]);
}

#[test]
fn candidates_are_numbered_across_sources() {
    let transcript = TranscriptInput {
        text: String::new(),
        segments: vec![
            TranscriptSegment { text: "今天聊聊".to_string(), start_ms: Some(0), end_ms: Some(1000) },
            TranscriptSegment { text: "但是要注意".to_string(), start_ms: Some(1000), end_ms: Some(2000) },
        ],
    };
    let ocr = vec![OcrInputItem { frame_index: None, timestamp_ms: Some(3000), image_path: None, text: "立减".to_string() }];
    let segments = mine_candidate_segments(Some(&transcript), &ocr, Some("实测数据"));
    let ids: Vec<&str> = segments.iter().map(|c| c.segment_id.as_str()).collect();
    assert_eq!(ids, vec!["candidate-001", "candidate-002", "candidate-003", "candidate-004"]);
    assert_eq!(segments[0].category, CandidateCategory::Hook);
    assert_eq!(segments[1].category, CandidateCategory::TurningPoint);
    assert_eq!(segments[2].category, CandidateCategory::Offer);
    assert_eq!(segments[3].category, CandidateCategory::Proof);
}

#[test]
fn transcript_without_segments_is_kept_whole() {
    let transcript = TranscriptInput { text: "  一段完整的口播  ".to_string(), segments: Vec::new() };
    let segments = mine_candidate_segments(Some(&transcript), &[], None);
    assert_eq!(segments.len(), 1);
    assert_eq!(segments[0].category, CandidateCategory::Hook);
    assert_eq!(segments[0].start_ms, None);
    assert_eq!(segments[0].text_excerpt, "  一段完整的口播  ");
    let long = TranscriptInput { text: "字".repeat(200), segments: Vec::new() };
    assert_eq!(mine_candidate_segments(Some(&long), &[], None)[0].text_excerpt.chars().count(), 180);
}

use douyin_creator_tools::deep_video::runner::{ArtifactKind, DeepVideoRun, RunStep};

#[test]
fn text_only_run_goes_straight_to_writing() {
    let mut request = text_request(
        DeepVideoSource::LocalVideo { video_path: "C:/tmp/does-not-exist/text-only.mp4".to_string() },
        false,
    );
    request.task_id = None;
    request.transcript = Some(TranscriptInput {
        text: "Limited offer. Tap now to claim it.".to_string(),
        segments: vec![TranscriptSegment {
            text: "Limited offer. Tap now to claim it.".to_string(),
            start_ms: Some(1000),
            end_ms: Some(4000),
        }],
    });
    let (run, step) = DeepVideoRun::start(request, "/data", 42);
    assert_eq!(run.task_id, "deep-video-42");
    assert_eq!(step, RunStep::CreateDirs { dir: "/data/deep-video/deep-video-42/frames".to_string() });
    let (run, step) = run.on_dirs_created(Ok(()));
    match step {
        RunStep::WriteArtifacts { files } => {
            let kinds: Vec<ArtifactKind> = files.iter().map(|f| f.0).collect();
            assert_eq!(
                kinds,
                vec![
                    ArtifactKind::Request,
                    ArtifactKind::Frames,
                    ArtifactKind::Candidates,
                    ArtifactKind::Timeline,
                    ArtifactKind::Report,
                    ArtifactKind::Result,
                ]
            );
            assert_eq!(files[5].1, "/data/deep-video/deep-video-42/deep_analysis_result.json");
        }
        other => panic!("expected the artifacts to be written, got {other:?}"),
    }
    let result = run.result.as_ref().unwrap();
    assert!(result.frames.is_empty());
    assert!(result.evidence_sheet.is_none());
    assert!(result.artifacts.evidence_sheet_jpg.is_none());
    assert!(!result.report_markdown.contains("contact sheet"));
    match run.on_artifacts_written(Err("disk full".to_string())) {
        RunStep::Done(Err(e)) => assert_eq!(e, "disk full"),
        other => panic!("expected a failed run, got {other:?}"),
    }
}

#[test]
fn frame_run_checks_video_samples_and_draws() {
    let request = text_request(DeepVideoSource::LocalVideo { video_path: "v.mp4".to_string() }, true);
    let (run, _) = DeepVideoRun::start(request, "/r", 0);
    let (run, step) = run.on_dirs_created(Ok(()));
    assert_eq!(step, RunStep::CheckVideo { video_path: "v.mp4".to_string() });
    let (run, step) = run.on_video_checked("v.mp4".to_string(), true);
    match step {
        RunStep::SampleFrames { video_path, frames_dir, options } => {
            assert_eq!(video_path, "v.mp4");
            assert_eq!(frames_dir, "/r/deep-video/task-1/frames");
            assert_eq!(options, AnalysisProfile::Economy.normalized_options());
        }
        other => panic!("expected sampling, got {other:?}"),
    }
    let frames = vec![EvidenceFrame::new(1, Some(0), "f.jpg".to_string(), FrameSource::Opening)];
    let (run, step) = run.on_frames_sampled(Ok(frames));
    assert_eq!(step, RunStep::DrawSheet { image_path: "/r/deep-video/task-1/evidence_sheet.jpg".to_string() });
    let sheet = EvidenceSheet { image_path: "s.jpg".to_string(), frames: run.frames.clone(), generated_at: String::new() };
    let (run, step) = run.on_sheet_drawn(Ok(sheet));
    assert!(matches!(step, RunStep::WriteArtifacts { .. }));
    let result = run.result.clone().unwrap();
    assert_eq!(result.artifacts.evidence_sheet_jpg, Some("/r/deep-video/task-1/evidence_sheet.jpg".to_string()));
    assert!(result.report_markdown.contains("frame IDs"));
    assert_eq!(run.on_artifacts_written(Ok(())), RunStep::Done(Ok(result)));
}

#[test]
fn frame_run_stops_on_missing_video_or_source() {
    let request = text_request(DeepVideoSource::LocalVideo { video_path: "gone.mp4".to_string() }, true);
    let (run, _) = DeepVideoRun::start(request, "/r", 0);
    let (run, _) = run.on_dirs_created(Ok(()));
    let (_, step) = run.on_video_checked("gone.mp4".to_string(), false);
    assert_eq!(step, RunStep::Done(Err("Video source does not exist: gone.mp4".to_string())));

    let text_only = text_request(DeepVideoSource::TextOnly { source_url: None }, true);
    let (run, _) = DeepVideoRun::start(text_only, "/r", 0);
    let (_, step) = run.on_dirs_created(Ok(()));
    assert_eq!(step, RunStep::Done(Err("Frame evidence requires a video source".to_string())));

    let (run, _) = DeepVideoRun::start(text_request(DeepVideoSource::TextOnly { source_url: None }, false), "/r", 0);
    let (_, step) = run.on_dirs_created(Err("denied".to_string()));
    assert_eq!(step, RunStep::Done(Err("Failed to create deep video artifact dirs: denied".to_string())));
}
