use zinc_core::config::AppConfig;
use zinc_core::engines::{MoonshineEngine, ParakeetEngine, WhisperCppEngine, WhisperRsEngine};
use zinc_core::jsontext::{
    find_json_line, parse_duration_ms, parse_json_text_field, parse_sherpa_timestamps,
    parse_sherpa_tokens,
};
use zinc_core::managers::{
    path_join, DenoManager, SherpaManager, WhisperManager, YtDlpManager, YtDlpStatus,
};
use zinc_core::ytdlp::YtDlp;
use zinc_core::network::get_network_interfaces;
use zinc_core::pipeline::{
    build_extract_audio_args, build_mux_args, build_probe_duration_args, build_segment_extract_args,
    build_whisper_args, format_seconds, get_language_metadata, parse_whisper_progress,
    sibling_path, subtitle_codec_for_container,
};
use zinc_core::ytdlp::{
    build_error_tail, build_download_args, get_format_presets, is_download_complete_line,
    parse_fetch_progress, parse_format_selection, resolve_format, try_capture_already_downloaded,
    try_capture_destination, try_capture_merger, DownloadOptions,
};

#[test]
fn fetch_progress_line_parses() {
    let line = "[download]  45.2% of ~ 120.5MiB at 2.3MiB/s ETA 00:42";
    let p = parse_fetch_progress(line).unwrap();
    assert_eq!(p.percent_tenths, 452);
    assert_eq!(p.size, "120.5MiB");
    assert_eq!(p.speed, "2.3MiB/s");
    assert_eq!(p.eta, "00:42");
}

#[test]
fn fetch_progress_attached_tilde_and_whole_percent() {
    let line = "[download] 7% of ~120MiB at 1MiB/s ETA 01:00";
    let p = parse_fetch_progress(line).unwrap();
    assert_eq!(p.percent_tenths, 70);
    assert_eq!(p.size, "120MiB");
}

#[test]
fn fetch_progress_tolerates_malformed_lines() {
    assert!(parse_fetch_progress("").is_none());
    assert!(parse_fetch_progress("[download] Destination: /tmp/x").is_none());
    assert!(parse_fetch_progress("[download] nonsense of stuff").is_none());
}

#[test]
fn filename_captures() {
    assert_eq!(
        try_capture_destination("[download] Destination: /tmp/My Clip.mp4").as_deref(),
        Some("/tmp/My Clip.mp4")
    );
    assert_eq!(try_capture_destination("[download] 12% of 3MiB"), None);
    assert_eq!(
        try_capture_merger("[Merger] Merging formats into \"/tmp/My Clip.mp4\"").as_deref(),
        Some("/tmp/My Clip.mp4")
    );
    assert_eq!(
        try_capture_already_downloaded(
            "[download] /tmp/My Clip.mp4 has already been downloaded"
        )
        .as_deref(),
        Some("/tmp/My Clip.mp4")
    );
}

#[test]
fn download_completion_line_detected() {
    assert!(is_download_complete_line("[download] 100% of 3MiB in 00:01"));
    assert!(!is_download_complete_line("[download]  99.9% of 3MiB"));
}

#[test]
fn error_tail_takes_last_three_lines() {
    assert_eq!(build_error_tail(&Vec::new()), "Download failed with unknown error");
    let lines: Vec<String> = ["a", "b", "c", "d"].iter().map(|s| s.to_string()).collect();
    assert_eq!(build_error_tail(&lines), "b | c | d");
}

#[test]
fn format_presets_and_resolution() {
    let presets = YtDlp::get_format_presets();
    assert_eq!(presets.len(), 6);
    assert_eq!(resolve_format("best"), "bestvideo+bestaudio/best");
    assert_eq!(resolve_format("720p"), "bestvideo[height<=720]+bestaudio/best[height<=720]");
    assert_eq!(resolve_format("137+140"), "137+140");
    let (q, c) = parse_format_selection("720p:mkv");
    assert_eq!((q.as_str(), c.as_deref()), ("720p", Some("mkv")));
    let (q2, c2) = parse_format_selection("best");
    assert_eq!((q2.as_str(), c2), ("best", None));
}

#[test]
fn download_invocation_shape() {
    let options = DownloadOptions {
        format: "best".to_string(),
        output_dir: "/out".to_string(),
        filename_template: None,
        container_format: Some("mp4".to_string()),
    };
    let args = build_download_args(&options, "https://example.test/v");
    assert_eq!(
        args,
        vec![
            "--newline",
            "--progress",
            "--no-warnings",
            "--no-playlist",
            "--restrict-filenames",
            "-f",
            "best",
            "-o",
            "/out/%(title)s.%(ext)s",
            "--merge-output-format",
            "mp4",
            "https://example.test/v",
        ]
    );
}

#[test]
fn ffmpeg_invocations() {
    assert_eq!(format_seconds(12_345), "12.345");
    assert_eq!(format_seconds(500), "0.500");
    let extract = build_extract_audio_args("/v.mp4", "/tmp/audio.wav");
    assert_eq!(extract[0], "-i");
    assert_eq!(extract[extract.len() - 1], "/tmp/audio.wav");
    let window = build_segment_extract_args("/a.wav", "/tmp/c0.wav", 298_000, 300_000);
    assert_eq!(window[2], "298.000");
    assert_eq!(window[6], "300.000");
    let probe = build_probe_duration_args("/a.wav");
    assert_eq!(probe[3], "format=duration");
}

#[test]
fn mux_requests_webvtt_and_maps_new_stream_first_for_webm() {
    let args = build_mux_args("/v.webm", "/v.srt", "/v_subtitled.webm", "en");
    let new_map = args.iter().position(|a| a == "1:s").unwrap();
    let existing_map = args.iter().position(|a| a == "0:s?").unwrap();
    assert!(new_map < existing_map);
    let codec_at = args.iter().position(|a| a == "-c:s").unwrap();
    assert_eq!(args[codec_at + 1], "webvtt");
    assert!(args.contains(&"-c:v".to_string()));
}

#[test]
fn mux_passes_srt_through_for_matroska_and_text_codec_otherwise() {
    let mkv = build_mux_args("/v.mkv", "/v.srt", "/v_subtitled.mkv", "de");
    let codec_at = mkv.iter().position(|a| a == "-c:s").unwrap();
    assert_eq!(mkv[codec_at + 1], "srt");
    assert!(mkv.contains(&"language=deu".to_string()));
    assert!(mkv.contains(&"title=German".to_string()));
    let mp4 = build_mux_args("/v.mp4", "/v.srt", "/v_subtitled.mp4", "en");
    let codec_at2 = mp4.iter().position(|a| a == "-c:s").unwrap();
    assert_eq!(mp4[codec_at2 + 1], "mov_text");
}

#[test]
fn codec_choice_per_container() {
    assert_eq!(subtitle_codec_for_container("webm"), ("webvtt", true));
    assert_eq!(subtitle_codec_for_container("mkv"), ("srt", false));
    assert_eq!(subtitle_codec_for_container("mp4"), ("mov_text", false));
    assert_eq!(subtitle_codec_for_container("avi"), ("mov_text", false));
}

#[test]
fn language_metadata_mapping() {
    assert_eq!(get_language_metadata("auto"), ("eng", "English"));
    assert_eq!(get_language_metadata("ja"), ("jpn", "Japanese"));
    assert_eq!(get_language_metadata("xx"), ("eng", "English"));
}

#[test]
fn sibling_paths() {
    assert_eq!(sibling_path("/d/video.mp4", ".srt"), "/d/video.srt");
    assert_eq!(sibling_path("/d/video.mp4", "_subtitled.mp4"), "/d/video_subtitled.mp4");
    assert_eq!(sibling_path("clip.webm", "_original.webm"), "clip_original.webm");
    assert_eq!(sibling_path("/d/noext", ".srt"), "/d/noext.srt");
}

#[test]
fn whisper_invocation_and_progress() {
    let args = build_whisper_args("/m/ggml-base.bin", "/tmp/output", "auto", "/tmp/a.wav");
    assert_eq!(args, vec!["-m", "/m/ggml-base.bin", "-osrt", "-of", "/tmp/output", "/tmp/a.wav"]);
    let with_lang = build_whisper_args("/m/ggml-base.bin", "/tmp/output", "de", "/tmp/a.wav");
    assert_eq!(with_lang[5], "-l");
    assert_eq!(with_lang[6], "de");
    assert_eq!(
        parse_whisper_progress("whisper_print_progress_callback: progress =  42%"),
        Some(42)
    );
    assert_eq!(parse_whisper_progress("no percent here"), None);
}

#[test]
fn json_text_field_and_arrays() {
    let json = "{\"text\": \"hello there\", \"timestamps\": [0.00, 1.48, bad, 2.5], \"tokens\": [\" he\", \"llo\", \" the\\\"re\"]}";
    assert_eq!(parse_json_text_field(json), "hello there");
    assert_eq!(parse_json_text_field("{\"other\": 1}"), "");
    assert_eq!(parse_sherpa_timestamps(json), vec![0, 1_480, 2_500]);
    assert_eq!(parse_sherpa_tokens(json), vec![" he", "llo", " the\"re"]);
}

#[test]
fn json_line_found_from_the_end() {
    let lines: Vec<String> = [
        "loading model",
        "{\"text\": \"early\"}",
        "progress 50%",
        "  {\"text\": \"final\", \"tokens\": []}",
        "done",
    ]
    .iter()
    .map(|s| s.to_string())
    .collect();
    let line = find_json_line(&lines).unwrap();
    assert!(line.starts_with("{\"text\": \"final\""));
    assert_eq!(find_json_line(&vec!["nothing".to_string()]), None);
}

#[test]
fn duration_probe_output_parses_to_milliseconds() {
    assert_eq!(parse_duration_ms(" 700.25 \n"), Some(700_250));
    assert_eq!(parse_duration_ms("60"), Some(60_000));
    assert_eq!(parse_duration_ms("1.5"), Some(1_500));
    assert_eq!(parse_duration_ms("nope"), None);
    assert_eq!(parse_duration_ms(""), None);
}

#[test]
fn engine_catalogs() {
    let whisper = WhisperRsEngine::new();
    assert_eq!(whisper.id(), "whisper_rs");
    assert_eq!(whisper.speed_multiplier("tiny"), (320, 80));
    assert_eq!(whisper.speed_multiplier("unknown"), (160, 40));
    assert_eq!(whisper.supported_languages().len(), 99);
    assert_eq!(WhisperRsEngine::get_model_filename("large-v3"), "ggml-large-v3.bin");
    let moonshine = MoonshineEngine::new();
    assert_eq!(moonshine.id(), "moonshine");
    assert_eq!(MoonshineEngine::get_model_dir_name("base"), "sherpa-onnx-moonshine-base-en-int8");
    assert_eq!(moonshine.supported_languages(), vec!["en"]);
}

#[test]
fn manager_paths_and_statuses() {
    assert_eq!(path_join("/base", "x"), "/base/x");
    assert_eq!(YtDlpManager::get_binary_path("/b"), "/b/yt-dlp");
    assert_eq!(DenoManager::get_binary_path("/b"), "/b/deno");
    assert_eq!(SherpaManager::get_binary_path("/b/sherpa"), "/b/sherpa/sherpa-onnx-offline");
    assert_eq!(WhisperManager::get_model_path("/m", "base"), "/m/ggml-base.bin");
    assert_eq!(YtDlp::get_command(None), "yt-dlp");
    assert_eq!(YtDlp::get_command(Some("/b/yt-dlp".to_string())), "/b/yt-dlp");
    let status = YtDlpManager::check_status_from(
        &Ok("/b/yt-dlp".to_string()),
        true,
        &Ok("2026.01.01".to_string()),
        &Some("2026.02.01".to_string()),
    );
    match status {
        YtDlpStatus::UpdateAvailable { current, latest, path } => {
            assert_eq!((current.as_str(), latest.as_str(), path.as_str()),
                ("2026.01.01", "2026.02.01", "/b/yt-dlp"));
        },
        _ => panic!("a newer release must be offered"),
    }
    assert_eq!(YtDlpManager::update_available("1", "1"), None);
    assert_eq!(YtDlpManager::update_available("1", "2").as_deref(), Some("2"));
    assert!(WhisperManager::has_any_model(&vec![false, true, false]));
    assert!(!WhisperManager::has_any_model(&vec![false, false]));
}

#[test]
fn defaults_and_interfaces() {
    let config = AppConfig::default();
    assert_eq!(config.default_format, "mp4");
    assert_eq!(config.transcription_engine, "whisper_cpp");
    assert!(!config.generate_subtitles);
    assert_eq!(get_network_interfaces().unwrap().len(), 0);
}

#[test]
fn model_locations_per_engine() {
    assert_eq!(WhisperRsEngine::get_models_dir("/m"), "/m/whisper-rs");
    assert_eq!(WhisperRsEngine::get_model_path("/m/whisper-rs", "tiny"), "/m/whisper-rs/ggml-tiny.bin");
    assert!(WhisperRsEngine::get_model_url("tiny").ends_with("/ggml-tiny.bin"));
    assert_eq!(MoonshineEngine::get_models_dir("/m"), "/m/moonshine");
    assert!(MoonshineEngine::get_model_url("base").ends_with("-base-en-int8.tar.bz2"));
    let (pre, enc, unc, cached, tokens) = MoonshineEngine::get_model_paths("/d");
    assert_eq!(pre, "/d/preprocess.onnx");
    assert_eq!(enc, "/d/encode.int8.onnx");
    assert_eq!(unc, "/d/uncached_decode.int8.onnx");
    assert_eq!(cached, "/d/cached_decode.int8.onnx");
    assert_eq!(tokens, "/d/tokens.txt");
    let (e2, d2, j2, t2) = ParakeetEngine::get_model_paths("/p");
    assert_eq!((e2.as_str(), d2.as_str()), ("/p/encoder.int8.onnx", "/p/decoder.int8.onnx"));
    assert_eq!((j2.as_str(), t2.as_str()), ("/p/joiner.int8.onnx", "/p/tokens.txt"));
    assert_eq!(ParakeetEngine::get_models_dir("/m"), "/m/parakeet");
    assert!(ParakeetEngine::get_model_url("0.6b").ends_with("-v3-int8.tar.bz2"));
}

#[test]
fn whisper_cpp_command_resolution() {
    assert_eq!(WhisperCppEngine::get_command(None), "whisper");
    assert_eq!(WhisperCppEngine::get_command(Some("/b/whisper".to_string())), "/b/whisper");
}

#[test]
fn engine_cli_invocations() {
    let moon = MoonshineEngine::build_transcribe_args(
        "/d/preprocess.onnx",
        "/d/encode.int8.onnx",
        "/d/uncached_decode.int8.onnx",
        "/d/cached_decode.int8.onnx",
        "/d/tokens.txt",
        "/a.wav",
    );
    assert_eq!(moon[0], "--moonshine-preprocessor=/d/preprocess.onnx");
    assert_eq!(moon[5], "--num-threads=4");
    assert_eq!(moon[6], "/a.wav");
    assert_eq!(ParakeetEngine::provider_for(true), "cuda");
    assert_eq!(ParakeetEngine::provider_for(false), "cpu");
    let par = ParakeetEngine::build_transcribe_args(
        "/b/run.py", "/p/encoder.int8.onnx", "/p/decoder.int8.onnx", "/p/joiner.int8.onnx",
        "/p/tokens.txt", "cuda", "/a.wav",
    );
    assert_eq!(par[0], "/b/run.py");
    assert_eq!(par[5], "--provider=cuda");
}

#[test]
fn speed_multiplier_dispatch() {
    let d = zinc_core::engines::TranscriptionDispatcher::new();
    assert_eq!(d.get_speed_multiplier("whisper_rs", "tiny", true), 320);
    assert_eq!(d.get_speed_multiplier("whisper_rs", "tiny", false), 80);
    assert_eq!(d.get_speed_multiplier("moonshine", "base", false), 100);
    assert_eq!(d.get_speed_multiplier("unknown", "base", true), 50);
}
