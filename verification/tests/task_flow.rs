use zinc_core::engines::{
    model_file_gate, model_installed_gate, pre_transcribe_check, EngineProbe, EngineStatus,
    MoonshineEngine, TranscriptionDispatcher, WhisperRsEngine,
};
use zinc_core::errors::TranscribeError;
use zinc_core::pipeline::{cancel_gate, media_tool_gate, pipeline_outcome};
use zinc_core::tasks::{
    check_local_start, container_format_choice, is_audio_only, resolve_subtitle_choice,
    SubtitleSettings, Task, TaskKind, TaskOutcome, TaskRegistry, TaskStatus,
};

fn task(id: &str, kind: TaskKind) -> Task {
    Task {
        id: id.to_string(),
        url: "https://example.test/v".to_string(),
        title: "clip".to_string(),
        status: TaskStatus::Pending,
        progress: 0,
        speed: None,
        eta: None,
        output_path: None,
        format: "best".to_string(),
        error: None,
        duration_ms: Some(700_000),
        engine: Some("whisper_rs".to_string()),
        model: Some("base".to_string()),
        transcription_progress: None,
        transcription_message: None,
        kind,
        source_path: Some("/tmp/in.mp4".to_string()),
    }
}

fn status_text(reg: &TaskRegistry, id: &str) -> String {
    reg.get(&id.to_string()).unwrap().status.text()
}

#[test]
fn create_rejects_duplicate_ids() {
    let mut reg = TaskRegistry::new();
    reg.create(task("a", TaskKind::RemoteFetch)).unwrap();
    assert!(reg.create(task("a", TaskKind::RemoteFetch)).is_err());
    assert!(reg.create(task("b", TaskKind::RemoteFetch)).is_ok());
}

#[test]
fn cancellation_wins_over_later_progress_and_errors() {
    let mut reg = TaskRegistry::new();
    let id = "t1".to_string();
    reg.create(task("t1", TaskKind::LocalTranscribe)).unwrap();
    reg.apply_transcribe_progress(&id, &"extracting".to_string(), 10, &"working".to_string());
    assert_eq!(status_text(&reg, "t1"), "transcribing:extracting");

    reg.request_cancel(&id);
    assert!(reg.is_cancel_requested(&id));
    reg.request_cancel(&id);
    assert!(reg.is_cancel_requested(&id));

    reg.record_outcome(&id, &TaskOutcome::Cancelled);
    assert_eq!(status_text(&reg, "t1"), "cancelled");

    reg.apply_transcribe_progress(&id, &"embedding".to_string(), 50, &"late".to_string());
    assert_eq!(status_text(&reg, "t1"), "cancelled");

    reg.record_outcome(&id, &TaskOutcome::Failed("boom".to_string()));
    assert_eq!(status_text(&reg, "t1"), "cancelled");
    assert!(reg.get(&id).unwrap().error.is_none());
}

#[test]
fn completed_tasks_ignore_late_progress() {
    let mut reg = TaskRegistry::new();
    let id = "t2".to_string();
    reg.create(task("t2", TaskKind::RemoteFetch)).unwrap();
    reg.record_outcome(&id, &TaskOutcome::Completed);
    assert_eq!(status_text(&reg, "t2"), "completed");
    assert_eq!(reg.get(&id).unwrap().progress, 100);
    reg.apply_fetch_progress(&id, 10, None, None, None);
    assert_eq!(status_text(&reg, "t2"), "completed");
    assert_eq!(reg.get(&id).unwrap().progress, 100);
}

#[test]
fn remote_caption_failure_still_completes_with_warning() {
    let mut reg = TaskRegistry::new();
    let id = "t3".to_string();
    reg.create(task("t3", TaskKind::RemoteFetch)).unwrap();
    let failure = TranscribeError::NotInstalled("Engine 'whisper_rs' is not installed".to_string());
    let outcome = pipeline_outcome(TaskKind::RemoteFetch, Some(&failure));
    reg.record_outcome(&id, &outcome);
    assert_eq!(status_text(&reg, "t3"), "completed");
    assert_eq!(
        reg.get(&id).unwrap().error.as_deref(),
        Some("Subtitle generation failed: Engine 'whisper_rs' is not installed")
    );
}

#[test]
fn local_failure_is_an_error_and_cancel_is_never_downgraded() {
    let failed = pipeline_outcome(TaskKind::LocalTranscribe, Some(&TranscribeError::EmptyResult));
    assert!(matches!(failed, TaskOutcome::Failed(_)));
    let cancelled = pipeline_outcome(TaskKind::LocalTranscribe, Some(&TranscribeError::Cancelled));
    assert!(matches!(cancelled, TaskOutcome::Cancelled));
    let fine = pipeline_outcome(TaskKind::RemoteFetch, None);
    assert!(matches!(fine, TaskOutcome::Completed));
}

#[test]
fn cancel_flag_lifecycle() {
    let mut reg = TaskRegistry::new();
    reg.create(task("t4", TaskKind::RemoteFetch)).unwrap();
    let id = "t4".to_string();
    assert!(!reg.is_cancel_requested(&id));
    reg.request_cancel(&id);
    assert!(reg.is_cancel_requested(&id));
    reg.remove_cancel_flag(&id);
    assert!(!reg.is_cancel_requested(&id));
}

#[test]
fn clear_completed_keeps_running_tasks() {
    let mut reg = TaskRegistry::new();
    reg.create(task("a", TaskKind::RemoteFetch)).unwrap();
    reg.create(task("b", TaskKind::RemoteFetch)).unwrap();
    reg.record_outcome(&"a".to_string(), &TaskOutcome::Completed);
    reg.clear_completed();
    assert!(reg.get(&"a".to_string()).is_none());
    assert!(reg.get(&"b".to_string()).is_some());
}

#[test]
fn update_settings_only_for_pending() {
    let mut reg = TaskRegistry::new();
    reg.create(task("a", TaskKind::LocalTranscribe)).unwrap();
    reg.update_settings(&"a".to_string(), Some("moonshine".to_string()), None).unwrap();
    assert_eq!(reg.get(&"a".to_string()).unwrap().engine.as_deref(), Some("moonshine"));
    reg.record_outcome(&"a".to_string(), &TaskOutcome::Completed);
    assert!(reg.update_settings(&"a".to_string(), None, None).is_err());
}

#[test]
fn engine_must_be_ready_before_any_subprocess() {
    let empty_probe = EngineProbe {
        runtime_installed: false,
        gpu_available: false,
        installed_models: Vec::new(),
    };
    match pre_transcribe_check("whisper_rs", &empty_probe) {
        Err(TranscribeError::NotInstalled(m)) => {
            assert_eq!(m, "Engine 'whisper_rs' is not installed");
        },
        _ => panic!("a missing model must fail before any subprocess"),
    }
    match pre_transcribe_check("no_such_engine", &empty_probe) {
        Err(TranscribeError::NotFound(m)) => {
            assert_eq!(m, "Engine 'no_such_engine' not found");
        },
        _ => panic!("an unknown engine id must be refused"),
    }
    let ready = EngineProbe {
        runtime_installed: true,
        gpu_available: false,
        installed_models: vec!["base".to_string()],
    };
    assert!(pre_transcribe_check("whisper_rs", &ready).is_ok());
}

#[test]
fn gates_observe_cancellation_and_missing_tool() {
    assert!(cancel_gate(false).is_ok());
    match cancel_gate(true) {
        Err(TranscribeError::Cancelled) => {},
        _ => panic!("cancellation must be a distinguishable outcome"),
    }
    match media_tool_gate(false) {
        Err(e) => assert_eq!(
            e.message(),
            "ffmpeg is required for subtitle generation but was not found. Please install ffmpeg."
        ),
        Ok(_) => panic!("a missing tool must fail fast"),
    }
}

#[test]
fn submission_choice_prefers_per_task_settings() {
    let settings = Some(SubtitleSettings {
        enabled: true,
        engine: "moonshine".to_string(),
        model: "tiny".to_string(),
        style: "word".to_string(),
    });
    let (on, engine, model, style) =
        resolve_subtitle_choice(&settings, false, &"whisper_rs".to_string(), &"base".to_string());
    assert!(on);
    assert_eq!((engine.as_str(), model.as_str(), style.as_str()), ("moonshine", "tiny", "word"));
    let (on2, engine2, model2, style2) =
        resolve_subtitle_choice(&None, true, &"whisper_rs".to_string(), &"base".to_string());
    assert!(on2);
    assert_eq!(
        (engine2.as_str(), model2.as_str(), style2.as_str()),
        ("whisper_rs", "base", "sentence")
    );
}

#[test]
fn container_choice_rules() {
    assert!(is_audio_only("audio") && is_audio_only("mp3") && !is_audio_only("720p"));
    assert_eq!(container_format_choice(&Some("original".to_string()), false, &"mp4".to_string()), None);
    assert_eq!(
        container_format_choice(&Some("mkv".to_string()), false, &"mp4".to_string()).as_deref(),
        Some("mkv")
    );
    assert_eq!(container_format_choice(&None, true, &"mp4".to_string()), None);
    assert_eq!(container_format_choice(&None, false, &"mp4".to_string()).as_deref(), Some("mp4"));
}

#[test]
fn local_start_checks_mirror_submission_errors() {
    let good = task("x", TaskKind::LocalTranscribe);
    let (source, engine, model) = check_local_start(&good).unwrap();
    assert_eq!((source.as_str(), engine.as_str(), model.as_str()), ("/tmp/in.mp4", "whisper_rs", "base"));

    let wrong_kind = task("x", TaskKind::RemoteFetch);
    assert_eq!(check_local_start(&wrong_kind).unwrap_err(), "Not a local transcription task");

    let mut started = task("x", TaskKind::LocalTranscribe);
    started.status = TaskStatus::Downloading;
    assert_eq!(
        check_local_start(&started).unwrap_err(),
        "Task is not pending, status: downloading"
    );

    let mut no_source = task("x", TaskKind::LocalTranscribe);
    no_source.source_path = None;
    assert_eq!(check_local_start(&no_source).unwrap_err(), "No source path");
}

#[test]
fn task_constructors_record_the_submission() {
    let fetch = zinc_core::tasks::make_fetch_task(
        "f1".to_string(),
        "https://example.test/v".to_string(),
        "clip".to_string(),
        "best".to_string(),
        Some(700_000),
        true,
        "whisper_rs".to_string(),
        "base".to_string(),
    );
    assert_eq!(fetch.status.text(), "pending");
    assert_eq!(fetch.engine.as_deref(), Some("whisper_rs"));
    assert!(matches!(fetch.kind, TaskKind::RemoteFetch));

    let no_captions = zinc_core::tasks::make_fetch_task(
        "f2".to_string(),
        "u".to_string(),
        "t".to_string(),
        "best".to_string(),
        None,
        false,
        "whisper_rs".to_string(),
        "base".to_string(),
    );
    assert!(no_captions.engine.is_none() && no_captions.model.is_none());

    let local = zinc_core::tasks::make_local_task(
        "l1".to_string(),
        "clip".to_string(),
        "/tmp/in.mp4".to_string(),
        "moonshine".to_string(),
        "tiny".to_string(),
    );
    assert_eq!(local.source_path.as_deref(), Some("/tmp/in.mp4"));
    assert_eq!(local.output_path.as_deref(), Some("/tmp/in.mp4"));
    assert!(matches!(local.kind, TaskKind::LocalTranscribe));
}

#[test]
fn engine_descriptors_recompute_from_the_probe() {
    let empty = EngineProbe {
        runtime_installed: false,
        gpu_available: false,
        installed_models: Vec::new(),
    };
    let ready = EngineProbe {
        runtime_installed: true,
        gpu_available: true,
        installed_models: vec!["base".to_string()],
    };
    let info = WhisperRsEngine::new().get_info(&ready);
    assert!(matches!(info.status, EngineStatus::Available));
    assert_eq!(info.languages.len(), 99);
    assert_eq!(info.models.len(), 5);
    assert!(info.models[1].installed);
    assert!(!info.models[0].installed);
    let off = MoonshineEngine::new().get_info(&empty);
    assert!(matches!(off.status, EngineStatus::NotInstalled));
    let infos = TranscriptionDispatcher::new().get_engine_infos(&ready, &empty);
    assert_eq!(infos.len(), 2);
    assert_eq!(infos[0].id, "whisper_rs");
    assert_eq!(infos[1].id, "moonshine");
}

#[test]
fn model_gates_fail_before_any_work() {
    assert!(model_installed_gate("base", true).is_ok());
    match model_installed_gate("base", false) {
        Err(TranscribeError::NotInstalled(m)) => {
            assert_eq!(m, "Model 'base' is not installed. Please download it first.");
        },
        _ => panic!("a missing model must fail with the not-installed condition"),
    }
    match model_file_gate("/d/tokens.txt", false) {
        Err(TranscribeError::NotInstalled(m)) => {
            assert_eq!(m, "Model file '/d/tokens.txt' not found. Please download the model first.");
        },
        _ => panic!("a missing model file must fail with the not-installed condition"),
    }
}

#[test]
fn remove_deletes_exactly_one_task_and_its_flag() {
    let mut reg = TaskRegistry::new();
    reg.create(task("a", TaskKind::RemoteFetch)).unwrap();
    reg.create(task("b", TaskKind::RemoteFetch)).unwrap();
    reg.request_cancel(&"a".to_string());
    reg.remove(&"a".to_string());
    assert!(reg.get(&"a".to_string()).is_none());
    assert!(!reg.is_cancel_requested(&"a".to_string()));
    let b = reg.get(&"b".to_string()).unwrap();
    assert_eq!(b.title, "clip");
    assert_eq!(b.url, "https://example.test/v");
}

#[test]
fn update_settings_touches_nothing_else() {
    let mut reg = TaskRegistry::new();
    reg.create(task("a", TaskKind::LocalTranscribe)).unwrap();
    reg.update_settings(&"a".to_string(), Some("moonshine".to_string()), Some("tiny".to_string()))
        .unwrap();
    let t = reg.get(&"a".to_string()).unwrap();
    assert_eq!(t.engine.as_deref(), Some("moonshine"));
    assert_eq!(t.model.as_deref(), Some("tiny"));
    assert_eq!(t.title, "clip");
    assert_eq!(t.url, "https://example.test/v");
    assert_eq!(t.progress, 0);
    assert_eq!(t.source_path.as_deref(), Some("/tmp/in.mp4"));
    assert_eq!(t.duration_ms, Some(700_000));
}
