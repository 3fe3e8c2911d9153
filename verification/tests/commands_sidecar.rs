use douyin_creator_tools::commands::deep_video::{
    abort_deep_video_task, deep_video_task_step, task_source, AbortRegistry, DeepVideoTaskAction,
    DeepVideoTaskEvent, DeepVideoTaskPhase,
};
use douyin_creator_tools::host::sidecar_manager::first_flagged_candidate;
use douyin_creator_tools::deep_video::types::{AnalysisProfile, DeepVideoAnalysisRequest, DeepVideoSource};
use douyin_creator_tools::host::sidecar_manager::{
    asr_status_from, first_existing, health_url, keep_flagged, plan_asr_start, python_candidates,
    runtime_dir_candidates, runtime_search_dirs, script_candidates, AsrServiceStatus, AsrStartPlan,
    ASR_GPU_PORT,
};
use futures_util::future::AbortHandle;

fn request(source: DeepVideoSource) -> DeepVideoAnalysisRequest {
    DeepVideoAnalysisRequest {
        source,
        task_id: None,
        title: "my title".to_string(),
        profile: AnalysisProfile::Balanced,
        use_frame_analysis: false,
        transcript: None,
        ocr_items: Vec::new(),
        reference_text: None,
    }
}

#[test]
fn abort_aborts_registered_task_once() {
    let mut registry = AbortRegistry::new();
    let (handle, _registration) = AbortHandle::new_pair();
    let watcher = handle.clone();
    registry.insert("task-1".to_string(), handle);

    assert!(!abort_deep_video_task(&mut registry, "task-2"));
    assert!(!watcher.is_aborted());
    assert!(abort_deep_video_task(&mut registry, "task-1"));
    assert!(watcher.is_aborted());
    assert!(!abort_deep_video_task(&mut registry, "task-1"));
}

#[test]
fn registry_replaces_and_removes_handles() {
    let mut registry = AbortRegistry::new();
    let (first, _r1) = AbortHandle::new_pair();
    let (second, _r2) = AbortHandle::new_pair();
    let (other, _r3) = AbortHandle::new_pair();
    let first_watch = first.clone();
    let second_watch = second.clone();
    registry.insert("a".to_string(), first);
    registry.insert("b".to_string(), other);
    registry.insert("a".to_string(), second);
    assert!(abort_deep_video_task(&mut registry, "a"));
    assert!(second_watch.is_aborted());
    assert!(!first_watch.is_aborted());
    assert!(registry.remove("b").is_some());
    assert!(registry.remove("b").is_none());
}

#[test]
fn task_source_names_videos_by_file_name() {
    let local = request(DeepVideoSource::LocalVideo { video_path: "C:/videos/clip.mp4".to_string() });
    assert_eq!(
        task_source(&local),
        (Some("C:/videos/clip.mp4".to_string()), "clip.mp4".to_string())
    );
    let downloaded = request(DeepVideoSource::DownloadedDouyinVideo {
        video_path: "/tmp/dl/video-1.mp4".to_string(),
        source_url: "https://v.douyin.com/x/".to_string(),
    });
    assert_eq!(task_source(&downloaded).1, "video-1.mp4");
    let no_name = request(DeepVideoSource::LocalVideo { video_path: "/tmp/..".to_string() });
    assert_eq!(task_source(&no_name).1, "video");
}

#[test]
fn text_only_tasks_are_named_by_url_or_title() {
    let with_url = request(DeepVideoSource::TextOnly { source_url: Some("https://v.douyin.com/a/".to_string()) });
    assert_eq!(task_source(&with_url), (None, "https://v.douyin.com/a/".to_string()));
    let without = request(DeepVideoSource::TextOnly { source_url: None });
    assert_eq!(task_source(&without), (None, "my title".to_string()));
}

#[test]
fn python_and_script_candidates_in_priority_order() {
    assert_eq!(
        python_candidates("/app"),
        vec![
            "/app/resources/python-embed/python.exe".to_string(),
            "/app/python-embed/python.exe".to_string(),
            "/app/resources/python-env/Scripts/python.exe".to_string(),
            "python".to_string(),
            "py".to_string(),
        ]
    );
    assert_eq!(
        script_candidates("/app/", "douyin_api_server.py"),
        vec![
            "/app/resources/dy-mcp/douyin_api_server.py".to_string(),
            "/app/dy-mcp/douyin_api_server.py".to_string(),
        ]
    );
    assert_eq!(runtime_dir_candidates("/r").len(), 6);
    assert_eq!(runtime_dir_candidates("/r")[0], "/r/resources/bin");
    assert_eq!(runtime_dir_candidates("/r")[5], "/r/dy-mcp");
}

#[test]
fn missing_directories_are_left_out() {
    let root = "/definitely/not/a/real/root-9f3c";
    assert!(runtime_search_dirs(root).is_empty());
    assert_eq!(first_existing(&script_candidates(root, "asr_gpu_server.py")), None);
    let existing = vec!["/definitely/missing-1".to_string(), "/".to_string(), "/tmp".to_string()];
    assert_eq!(first_existing(&existing), Some("/".to_string()));
    assert_eq!(
        keep_flagged(vec!["a".to_string(), "b".to_string(), "c".to_string()], &vec![true, false, true]),
        vec!["a".to_string(), "c".to_string()]
    );
}

#[test]
fn asr_health_decisions() {
    assert_eq!(ASR_GPU_PORT, 38081);
    assert_eq!(health_url(38081), "http://127.0.0.1:38081/health");
    assert_eq!(asr_status_from(Some(200)), AsrServiceStatus::Healthy);
    assert_eq!(asr_status_from(Some(503)), AsrServiceStatus::Unavailable);
    assert_eq!(asr_status_from(None), AsrServiceStatus::Unavailable);
    assert_eq!(plan_asr_start(AsrServiceStatus::Healthy, Some("s.py".to_string())), AsrStartPlan::Reuse);
    assert_eq!(
        plan_asr_start(AsrServiceStatus::Unavailable, Some("s.py".to_string())),
        AsrStartPlan::Start { script: "s.py".to_string() }
    );
    assert_eq!(plan_asr_start(AsrServiceStatus::Unavailable, None), AsrStartPlan::NoScript);
}

#[test]
fn first_flagged_candidate_keeps_the_order() {
    let candidates = vec!["resources/dy-mcp/s.py".to_string(), "dy-mcp/s.py".to_string()];
    assert_eq!(first_flagged_candidate(&candidates, &vec![true, true]), Some("resources/dy-mcp/s.py".to_string()));
    assert_eq!(first_flagged_candidate(&candidates, &vec![false, true]), Some("dy-mcp/s.py".to_string()));
    assert_eq!(first_flagged_candidate(&candidates, &vec![false, false]), None);
}

#[test]
fn completed_task_is_announced_after_the_queue_accepts() {
    let (phase, actions) = deep_video_task_step(DeepVideoTaskPhase::Queued, DeepVideoTaskEvent::Started { running: true });
    assert_eq!(phase, DeepVideoTaskPhase::Running);
    assert_eq!(actions, vec![DeepVideoTaskAction::ReportRunning]);
    let (phase, actions) = deep_video_task_step(phase, DeepVideoTaskEvent::RunFinished(Ok("r.json".to_string())));
    assert_eq!(phase, DeepVideoTaskPhase::Completing("r.json".to_string()));
    assert_eq!(actions, vec![DeepVideoTaskAction::CompleteInQueue("r.json".to_string())]);
    let (phase, actions) = deep_video_task_step(phase, DeepVideoTaskEvent::QueueAnswered(true));
    assert_eq!(phase, DeepVideoTaskPhase::Finished);
    assert_eq!(
        actions,
        vec![DeepVideoTaskAction::EmitCompleted("r.json".to_string()), DeepVideoTaskAction::ForgetHandle]
    );
    let (phase, actions) = deep_video_task_step(phase, DeepVideoTaskEvent::Aborted);
    assert_eq!(phase, DeepVideoTaskPhase::Finished);
    assert!(actions.is_empty());
}

#[test]
fn stale_failed_or_aborted_tasks_announce_nothing() {
    let (_, actions) = deep_video_task_step(DeepVideoTaskPhase::Failing("boom".to_string()), DeepVideoTaskEvent::QueueAnswered(false));
    assert_eq!(actions, vec![DeepVideoTaskAction::ForgetHandle]);
    let (_, actions) = deep_video_task_step(DeepVideoTaskPhase::Failing("boom".to_string()), DeepVideoTaskEvent::QueueAnswered(true));
    assert_eq!(actions, vec![DeepVideoTaskAction::EmitFailed("boom".to_string()), DeepVideoTaskAction::ForgetHandle]);
    let (phase, actions) = deep_video_task_step(DeepVideoTaskPhase::Running, DeepVideoTaskEvent::Aborted);
    assert_eq!((phase, actions), (DeepVideoTaskPhase::Finished, vec![DeepVideoTaskAction::ForgetHandle]));
    let (_, actions) = deep_video_task_step(DeepVideoTaskPhase::Queued, DeepVideoTaskEvent::StartRejected);
    assert_eq!(actions, vec![DeepVideoTaskAction::ForgetHandle]);
    let (_, actions) = deep_video_task_step(DeepVideoTaskPhase::Queued, DeepVideoTaskEvent::Started { running: false });
    assert_eq!(actions, vec![DeepVideoTaskAction::ForgetHandle]);
    let (phase, actions) = deep_video_task_step(DeepVideoTaskPhase::Running, DeepVideoTaskEvent::QueueAnswered(true));
    assert_eq!((phase, actions), (DeepVideoTaskPhase::Running, Vec::new()));
}
