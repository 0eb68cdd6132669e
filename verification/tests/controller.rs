//! Tests for the application controller and the worker computations.

use ytdlp_gui::controller::download_args;
use ytdlp_gui::controller::download_outcome;
use ytdlp_gui::controller::list_formats_args;
use ytdlp_gui::controller::list_formats_outcome;
use ytdlp_gui::controller::partition_formats;
use ytdlp_gui::controller::ClipboardRead;
use ytdlp_gui::controller::Controller;
use ytdlp_gui::controller::DownloadType;
use ytdlp_gui::controller::StatusLevel;
use ytdlp_gui::format::parse_formats;
use ytdlp_gui::format::Format;

const HEADER: &str = "ID  EXT  RESOLUTION FPS  FILESIZE  TBR PROTO";

fn record(id: &str, ext: &str, resolution: &str, video: bool, audio: bool) -> Format {
    Format {
        id: id.to_string(),
        extension: ext.to_string(),
        resolution: resolution.to_string(),
        description: String::new(),
        is_video: video,
        is_audio: audio,
    }
}

#[test]
fn new_controller_is_idle_and_ready() {
    let c = Controller::new("/home/user".to_string());
    assert_eq!(c.url, "");
    assert_eq!(c.output_dir, "/home/user");
    assert_eq!(c.status_message, "Ready");
    assert_eq!(c.status_level, StatusLevel::Neutral);
    assert!(!c.is_processing);
    assert!(!c.fetch_in_flight);
    assert!(!c.download_in_flight);
    assert_eq!(c.download_progress, 0);
    assert_eq!(c.download_type, DownloadType::VideoAudio);
}

#[test]
fn fetch_without_url_is_rejected() {
    let mut c = Controller::new("/tmp".to_string());
    let job = c.request_fetch();
    assert!(job.is_none());
    assert_eq!(c.status_message, "Please enter a URL first");
    assert_eq!(c.status_level, StatusLevel::Error);
    assert!(!c.is_processing);
}

#[test]
fn fetch_with_url_starts_a_task() {
    let mut c = Controller::new("/tmp".to_string());
    c.url = "https://example.org/v".to_string();
    let job = c.request_fetch();
    assert_eq!(job.as_deref(), Some("https://example.org/v"));
    assert!(c.is_processing);
    assert!(c.fetch_in_flight);
    assert_eq!(c.status_message, "Fetching available formats...");
    assert_eq!(c.status_level, StatusLevel::Busy);
}

#[test]
fn fetch_while_running_spawns_nothing() {
    let mut c = Controller::new("/tmp".to_string());
    c.url = "https://example.org/v".to_string();
    assert!(c.request_fetch().is_some());
    // A second trigger while the first listing is still running must
    // neither spawn a worker nor disturb the outstanding task.
    let second = c.request_fetch();
    assert!(second.is_none());
    assert!(c.fetch_in_flight);
    assert!(c.is_processing);
    assert_eq!(c.status_message, "Fetching available formats...");
}

#[test]
fn download_while_running_spawns_nothing() {
    let mut c = Controller::new("/tmp".to_string());
    c.url = "https://example.org/v".to_string();
    c.download_type = DownloadType::AudioOnly;
    assert!(c.request_download().is_some());
    assert!(c.request_download().is_none());
    assert!(c.download_in_flight);
}

#[test]
fn successful_listing_selects_defaults() {
    let mut c = Controller::new("/tmp".to_string());
    c.url = "https://example.org/v".to_string();
    assert!(c.request_fetch().is_some());
    let raw = format!(
        "{}\n137 mp4 1920x1080 1920x1080 60fps\n140 m4a audio only  128k\n",
        HEADER
    );
    let outcome = list_formats_outcome(true, &raw, String::new());
    c.apply_fetch_result(outcome);
    assert_eq!(c.available_video_formats.len(), 1);
    assert_eq!(c.available_audio_formats.len(), 1);
    assert_eq!(c.selected_video_format, "137");
    assert_eq!(c.selected_audio_format, "140");
    assert_eq!(c.status_message, "Formats fetched successfully");
    assert_eq!(c.status_level, StatusLevel::Success);
    assert!(!c.is_processing);
    assert!(!c.fetch_in_flight);
}

#[test]
fn listing_without_usable_rows_reports_nothing_usable() {
    let mut c = Controller::new("/tmp".to_string());
    c.url = "https://example.org/v".to_string();
    assert!(c.request_fetch().is_some());
    let outcome = list_formats_outcome(true, "banner text only\n", String::new());
    c.apply_fetch_result(outcome);
    assert!(c.available_video_formats.is_empty());
    assert!(c.available_audio_formats.is_empty());
    assert_eq!(c.selected_video_format, "");
    assert_eq!(c.selected_audio_format, "");
    assert_eq!(
        c.status_message,
        "No formats available or could not distinguish audio/video formats"
    );
    assert_eq!(c.status_level, StatusLevel::Error);
}

#[test]
fn failed_listing_shows_tool_error_verbatim() {
    let mut c = Controller::new("/tmp".to_string());
    c.url = "https://example.org/v".to_string();
    assert!(c.request_fetch().is_some());
    let outcome = list_formats_outcome(false, "", "ERROR: unsupported URL".to_string());
    c.apply_fetch_result(outcome);
    assert_eq!(c.status_message, "ERROR: unsupported URL");
    assert_eq!(c.status_level, StatusLevel::Error);
    assert!(!c.is_processing);
}

#[test]
fn combined_download_without_audio_selection_is_rejected() {
    let mut c = Controller::new("/tmp".to_string());
    c.url = "https://example.org/v".to_string();
    c.available_video_formats = vec![record("137", "mp4", "1920x1080", true, false)];
    c.selected_video_format = "137".to_string();
    // Audio list and selection are empty: a combined download must be
    // rejected synchronously, without starting a task.
    let job = c.request_download();
    assert!(job.is_none());
    assert_eq!(
        c.status_message,
        "Please fetch and select both video and audio formats"
    );
    assert_eq!(c.status_level, StatusLevel::Error);
    assert!(!c.is_processing);
    assert!(!c.download_in_flight);
}

#[test]
fn download_without_output_dir_is_rejected() {
    let mut c = Controller::new(String::new());
    c.url = "https://example.org/v".to_string();
    let job = c.request_download();
    assert!(job.is_none());
    assert_eq!(c.status_message, "Please select an output directory");
    assert_eq!(c.status_level, StatusLevel::Error);
}

#[test]
fn download_without_url_is_rejected() {
    let mut c = Controller::new("/tmp".to_string());
    let job = c.request_download();
    assert!(job.is_none());
    assert_eq!(c.status_message, "Please enter a URL first");
}

#[test]
fn combined_download_builds_request_from_state() {
    let mut c = Controller::new("/downloads".to_string());
    c.url = "https://example.org/v".to_string();
    c.available_video_formats = vec![record("137", "mp4", "1920x1080", true, false)];
    c.available_audio_formats = vec![record("140", "m4a", "audio only", false, true)];
    c.selected_video_format = "137".to_string();
    c.selected_audio_format = "140".to_string();
    let req = c.request_download().expect("download should start");
    assert_eq!(req.url, "https://example.org/v");
    assert_eq!(req.output_dir, "/downloads");
    assert_eq!(req.mode, DownloadType::VideoAudio);
    assert_eq!(req.video_format_id, "137");
    assert_eq!(req.audio_format_id, "140");
    assert!(c.is_processing);
    assert!(c.download_in_flight);
    assert_eq!(c.download_progress, 0);
    assert_eq!(c.status_message, "Downloading...");
}

#[test]
fn failed_download_shows_stderr_verbatim_and_clears_busy() {
    let mut c = Controller::new("/tmp".to_string());
    c.url = "https://example.org/v".to_string();
    c.download_type = DownloadType::AudioOnly;
    assert!(c.request_download().is_some());
    let progress_before = c.download_progress;
    let outcome = download_outcome(false, "ERROR: network unreachable".to_string());
    c.apply_download_result(outcome);
    assert_eq!(c.status_message, "ERROR: network unreachable");
    assert_eq!(c.status_level, StatusLevel::Error);
    assert!(!c.is_processing);
    assert!(!c.download_in_flight);
    assert_eq!(c.download_progress, progress_before);
}

#[test]
fn successful_download_completes_progress() {
    let mut c = Controller::new("/tmp".to_string());
    c.url = "https://example.org/v".to_string();
    c.download_type = DownloadType::AudioOnly;
    assert!(c.request_download().is_some());
    c.apply_download_result(download_outcome(true, String::new()));
    assert_eq!(c.status_message, "Download completed successfully");
    assert_eq!(c.status_level, StatusLevel::Success);
    assert_eq!(c.download_progress, 100);
    assert!(!c.is_processing);
}

#[test]
fn clipboard_text_replaces_url() {
    let mut c = Controller::new("/tmp".to_string());
    let before = c.status_message.clone();
    c.apply_clipboard(ClipboardRead::Text("https://example.org/clip".to_string()));
    assert_eq!(c.url, "https://example.org/clip");
    assert_eq!(c.status_message, before);
}

#[test]
fn clipboard_failures_are_reported() {
    let mut c = Controller::new("/tmp".to_string());
    c.apply_clipboard(ClipboardRead::ReadFailed);
    assert_eq!(c.status_message, "Failed to paste from clipboard");
    assert_eq!(c.status_level, StatusLevel::Error);
    c.apply_clipboard(ClipboardRead::Unavailable);
    assert_eq!(c.status_message, "Clipboard access failed");
}

#[test]
fn selection_accepts_only_listed_ids() {
    let mut c = Controller::new("/tmp".to_string());
    c.available_video_formats = vec![
        record("137", "mp4", "1920x1080", true, false),
        record("616", "webm", "2560x1440", true, false),
    ];
    assert!(c.select_video_format("616".to_string()));
    assert_eq!(c.selected_video_format, "616");
    assert!(!c.select_video_format("999".to_string()));
    assert_eq!(c.selected_video_format, "616");
    assert!(!c.select_audio_format("140".to_string()));
    assert_eq!(c.selected_audio_format, "");
}

#[test]
fn partition_may_put_a_record_in_both_lists() {
    let formats = vec![
        record("137", "mp4", "1920x1080", true, false),
        record("18", "mp4", "audio only", true, true),
        record("140", "m4a", "audio only", false, true),
    ];
    let (videos, audios) = partition_formats(&formats);
    assert_eq!(videos.len(), 2);
    assert_eq!(audios.len(), 2);
    assert_eq!(videos[0].id, "137");
    assert_eq!(videos[1].id, "18");
    assert_eq!(audios[0].id, "18");
    assert_eq!(audios[1].id, "140");
}

#[test]
fn listing_outcome_parses_and_partitions() {
    let raw = format!(
        "{}\n137 mp4 1920x1080 1920x1080 60fps\n140 m4a audio only  128k\n",
        HEADER
    );
    let (videos, audios) = list_formats_outcome(true, &raw, String::new()).expect("exit ok");
    let all = parse_formats(&raw);
    assert_eq!(all.len(), 2);
    assert_eq!(videos.len(), 1);
    assert_eq!(videos[0].id, "137");
    assert_eq!(audios.len(), 1);
    assert_eq!(audios[0].id, "140");
}

#[test]
fn listing_outcome_on_failure_carries_stderr() {
    let r = list_formats_outcome(false, "ignored", "boom".to_string());
    assert_eq!(r.err().as_deref(), Some("boom"));
}

#[test]
fn list_args_name_the_flag_and_url() {
    let args = list_formats_args(&"https://example.org/v".to_string());
    assert_eq!(args, vec!["--list-formats", "https://example.org/v"]);
}

#[test]
fn combined_download_args_merge_to_mp4() {
    let mut c = Controller::new("/downloads".to_string());
    c.url = "https://example.org/v".to_string();
    c.available_video_formats = vec![record("137", "mp4", "1920x1080", true, false)];
    c.available_audio_formats = vec![record("140", "m4a", "audio only", false, true)];
    c.selected_video_format = "137".to_string();
    c.selected_audio_format = "140".to_string();
    let req = c.request_download().expect("download should start");
    let args = download_args(&req);
    assert_eq!(
        args,
        vec![
            "-f",
            "137+140",
            "-o",
            "/downloads/%(title)s.%(ext)s",
            "--merge-output-format",
            "mp4",
            "https://example.org/v",
        ]
    );
}

#[test]
fn audio_only_download_args_extract_mp3() {
    let mut c = Controller::new("/music".to_string());
    c.url = "https://example.org/v".to_string();
    c.download_type = DownloadType::AudioOnly;
    let req = c.request_download().expect("download should start");
    let args = download_args(&req);
    assert_eq!(
        args,
        vec![
            "-x",
            "--audio-format",
            "mp3",
            "-o",
            "/music/%(title)s.%(ext)s",
            "https://example.org/v",
        ]
    );
}

#[test]
fn set_status_changes_only_the_status() {
    let mut c = Controller::new("/tmp".to_string());
    c.url = "kept".to_string();
    c.set_status("hello".to_string(), StatusLevel::Success);
    assert_eq!(c.status_message, "hello");
    assert_eq!(c.status_level, StatusLevel::Success);
    assert_eq!(c.url, "kept");
}
