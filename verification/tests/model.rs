use dictation::model::{
    check_model_exists, check_model_exists_for_version, flatten_rename, get_extracted_folder_name,
    get_model_dir_for_version, get_model_url, get_model_detailed_status, get_model_versions_status,
    get_version_subdir, parse_model_version, switch_model_version, DirListing, DownloadAction,
    DownloadEvent, DownloadTask, SwitchError,
};
use dictation::model::{should_relocate_model_dir, str_contains};
use dictation::storage::{AppConfig, ModelVersion};

#[test]
fn substring_search() {
    assert!(str_contains("abcdef", "cde"));
    assert!(str_contains("abc", ""));
    assert!(str_contains("abc", "abc"));
    assert!(!str_contains("abc", "abcd"));
    assert!(!str_contains("abc", "x"));
}

#[test]
fn model_dir_relocation_rule() {
    assert!(should_relocate_model_dir("./models/sense-voice"));
    assert!(should_relocate_model_dir("C:\\Users\\u\\AppData\\Roaming\\app\\models"));
    assert!(!should_relocate_model_dir("/home/u/.local/share/models"));
}

#[test]
fn model_urls_and_folder_names() {
    assert_eq!(
        get_model_url(&ModelVersion::Quantized),
        "https://github.com/k2-fsa/sherpa-onnx/releases/download/asr-models/sherpa-onnx-sense-voice-zh-en-ja-ko-yue-int8-2025-09-09.tar.bz2"
    );
    assert_eq!(
        get_model_url(&ModelVersion::Unquantized),
        "https://github.com/k2-fsa/sherpa-onnx/releases/download/asr-models/sherpa-onnx-sense-voice-zh-en-ja-ko-yue-2024-07-17.tar.bz2"
    );
    assert_eq!(
        get_extracted_folder_name(&ModelVersion::Quantized),
        "sherpa-onnx-sense-voice-zh-en-ja-ko-yue-int8-2025-09-09"
    );
    assert_eq!(get_version_subdir(&ModelVersion::Quantized), "quantized");
    assert_eq!(get_version_subdir(&ModelVersion::Unquantized), "unquantized");
    assert_eq!(
        get_model_dir_for_version("/data/models", &ModelVersion::Quantized),
        "/data/models/quantized"
    );
}

#[test]
fn version_labels() {
    assert_eq!(parse_model_version("quantized"), Some(ModelVersion::Quantized));
    assert_eq!(parse_model_version("unquantized"), Some(ModelVersion::Unquantized));
    assert_eq!(parse_model_version("best"), None);
    assert_eq!(parse_model_version(""), None);
}

fn listing_with(files: &[&str]) -> DirListing {
    let mut l = DirListing::new();
    for f in files {
        l.add(String::from(*f));
    }
    l
}

#[test]
fn model_presence_needs_both_files() {
    let both = listing_with(&["/m/quantized/model.onnx", "/m/quantized/tokens.txt"]);
    assert!(check_model_exists_for_version("/m", &ModelVersion::Quantized, &both));
    assert!(check_model_exists("/m/quantized", &both));

    let one = listing_with(&["/m/quantized/model.onnx"]);
    assert!(!check_model_exists_for_version("/m", &ModelVersion::Quantized, &one));
    assert!(!check_model_exists_for_version("/m", &ModelVersion::Unquantized, &both));
    assert!(!check_model_exists("/m/quantized", &DirListing::new()));
}

#[test]
fn flatten_renames_only_foreign_onnx_files() {
    assert_eq!(flatten_rename("model.int8.onnx"), "model.onnx");
    assert_eq!(flatten_rename("model.onnx"), "model.onnx");
    assert_eq!(flatten_rename("tokens.txt"), "tokens.txt");
    assert_eq!(flatten_rename("LICENSE"), "LICENSE");
}

#[test]
fn statuses_reflect_the_listing() {
    let mut cfg = AppConfig::default();
    cfg.model_dir = String::from("/m");
    cfg.model_version = ModelVersion::Unquantized;
    let listing = listing_with(&["/m/quantized/model.onnx", "/m/quantized/tokens.txt"]);
    let vs = get_model_versions_status(&cfg, &listing);
    assert!(vs.quantized);
    assert!(!vs.unquantized);
    assert_eq!(vs.current, "unquantized");
    let ds = get_model_detailed_status(&cfg, &listing, true);
    assert!(!ds.downloaded);
    assert!(ds.loaded);
}

#[test]
fn switching_versions() {
    let mut cfg = AppConfig::default();
    cfg.model_dir = String::from("/m");
    let listing = listing_with(&["/m/unquantized/model.onnx", "/m/unquantized/tokens.txt"]);

    assert_eq!(switch_model_version(&mut cfg, "best", &listing), Err(SwitchError::InvalidVersion));
    assert_eq!(cfg.model_version, ModelVersion::Quantized);

    assert_eq!(
        switch_model_version(&mut cfg, "quantized", &listing),
        Err(SwitchError::NotDownloaded)
    );
    assert_eq!(cfg.model_version, ModelVersion::Quantized);

    assert_eq!(
        switch_model_version(&mut cfg, "unquantized", &listing),
        Ok(String::from("/m/unquantized"))
    );
    assert_eq!(cfg.model_version, ModelVersion::Unquantized);
}

#[test]
fn download_reports_progress_per_chunk() {
    let mut task = DownloadTask::new(100);
    let a = task.step(DownloadEvent::Chunk(30));
    assert!(matches!(a[0], DownloadAction::Progress(30, 100)));
    let a = task.step(DownloadEvent::Chunk(30));
    assert!(matches!(a[0], DownloadAction::Progress(60, 100)));
    assert!(!task.finished);
    let a = task.step(DownloadEvent::StreamEnd);
    assert!(matches!(a[0], DownloadAction::ExtractArchive));
    assert!(matches!(a[1], DownloadAction::RemoveArchive));
    assert!(matches!(a[2], DownloadAction::ReportComplete));
    assert!(task.finished);
}

#[test]
fn cancelled_download_removes_the_partial_archive() {
    // A cancel after one progress tick: the archive is deleted before the
    // cancellation is announced, and the model files never appeared.
    let mut task = DownloadTask::new(1000);
    let a = task.step(DownloadEvent::Chunk(10));
    assert!(matches!(a[0], DownloadAction::Progress(10, 1000)));
    let a = task.step(DownloadEvent::CancelRequested);
    assert!(matches!(a[0], DownloadAction::RemoveArchive));
    assert!(matches!(a[1], DownloadAction::ReportCancelled));
    assert!(task.finished);
    assert!(!check_model_exists_for_version("/m", &ModelVersion::Quantized, &DirListing::new()));
}

#[test]
fn failed_download_removes_the_partial_archive() {
    let mut task = DownloadTask::new(0);
    let a = task.step(DownloadEvent::ChunkFailed);
    assert!(matches!(a[0], DownloadAction::RemoveArchive));
    assert!(matches!(a[1], DownloadAction::ReportFailed));
}
