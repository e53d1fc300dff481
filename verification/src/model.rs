//! Speech-model management: where each model version lives on disk, where
//! it is downloaded from, when it counts as present, and the decisions of
//! the download task (progress, cancellation, cleanup).
//!
//! File-system and network work is the caller's: this module computes
//! paths and actions over a listing of the paths that exist.

use vstd::prelude::*;
use crate::storage::{AppConfig, ModelVersion};
use crate::text::{str_eq, str_ends_with};

verus! {

/// Download address of a model version.
pub open spec fn spec_model_url(v: ModelVersion) -> Seq<char> {
    match v {
        ModelVersion::Quantized => "https://github.com/k2-fsa/sherpa-onnx/releases/download/asr-models/sherpa-onnx-sense-voice-zh-en-ja-ko-yue-int8-2025-09-09.tar.bz2"@,
        ModelVersion::Unquantized => "https://github.com/k2-fsa/sherpa-onnx/releases/download/asr-models/sherpa-onnx-sense-voice-zh-en-ja-ko-yue-2024-07-17.tar.bz2"@,
    }
}

/// Name of the directory nested inside a downloaded archive.
pub open spec fn spec_extracted_folder_name(v: ModelVersion) -> Seq<char> {
    match v {
        ModelVersion::Quantized => "sherpa-onnx-sense-voice-zh-en-ja-ko-yue-int8-2025-09-09"@,
        ModelVersion::Unquantized => "sherpa-onnx-sense-voice-zh-en-ja-ko-yue-2024-07-17"@,
    }
}

/// Per-version subdirectory under the model base directory.
pub open spec fn spec_version_subdir(v: ModelVersion) -> Seq<char> {
    match v {
        ModelVersion::Quantized => "quantized"@,
        ModelVersion::Unquantized => "unquantized"@,
    }
}

/// Get the download URL for a specific model version.
pub fn get_model_url(version: &ModelVersion) -> (r: &'static str)
    ensures
        r@ == spec_model_url(*version),
{
    match version {
        ModelVersion::Quantized => "https://github.com/k2-fsa/sherpa-onnx/releases/download/asr-models/sherpa-onnx-sense-voice-zh-en-ja-ko-yue-int8-2025-09-09.tar.bz2",
        ModelVersion::Unquantized => "https://github.com/k2-fsa/sherpa-onnx/releases/download/asr-models/sherpa-onnx-sense-voice-zh-en-ja-ko-yue-2024-07-17.tar.bz2",
    }
}

/// Get the name of the folder a downloaded archive extracts into.
pub fn get_extracted_folder_name(version: &ModelVersion) -> (r: &'static str)
    ensures
        r@ == spec_extracted_folder_name(*version),
{
    match version {
        ModelVersion::Quantized => "sherpa-onnx-sense-voice-zh-en-ja-ko-yue-int8-2025-09-09",
        ModelVersion::Unquantized => "sherpa-onnx-sense-voice-zh-en-ja-ko-yue-2024-07-17",
    }
}

/// Get the subdirectory name for a specific model version.
pub fn get_version_subdir(version: &ModelVersion) -> (r: &'static str)
    ensures
        r@ == spec_version_subdir(*version),
{
    match version {
        ModelVersion::Quantized => "quantized",
        ModelVersion::Unquantized => "unquantized",
    }
}

/// `dir`/`name`, joined with a forward slash.
pub open spec fn spec_join(dir: Seq<char>, name: Seq<char>) -> Seq<char> {
    dir + "/"@ + name
}

/// Join a directory and an entry name with a forward slash.
pub fn join_path(dir: &str, name: &str) -> (r: String)
    ensures
        r@ == spec_join(dir@, name@),
{
    let r = String::from_str(dir).concat("/").concat(name);
    proof {
        assert(r@ =~= spec_join(dir@, name@));
    }
    r
}

/// Directory that holds the files of one model version.
pub open spec fn spec_model_dir_for_version(base_dir: Seq<char>, v: ModelVersion) -> Seq<char> {
    spec_join(base_dir, spec_version_subdir(v))
}

/// Get the full model directory path for a specific version.
pub fn get_model_dir_for_version(base_dir: &str, version: &ModelVersion) -> (r: String)
    ensures
        r@ == spec_model_dir_for_version(base_dir@, *version),
{
    join_path(base_dir, get_version_subdir(version))
}

/// The paths that exist on disk, as far as the caller has looked them up.
/// Model-presence checks are decided against such a listing.
pub struct DirListing {
    pub files: Vec<String>,
}

impl DirListing {
    /// Is `p` one of the listed paths?
    pub open spec fn has(self, p: Seq<char>) -> bool {
        exists|i: int| 0 <= i < self.files@.len() && #[trigger] self.files@[i]@ == p
    }

    /// An empty listing: nothing exists.
    pub fn new() -> (r: Self)
        ensures
            r.files@.len() == 0,
    {
        DirListing { files: Vec::new() }
    }

    /// Record one more existing path.
    pub fn add(&mut self, p: String)
        ensures
            final(self).files@ == old(self).files@.push(p),
    {
        self.files.push(p);
    }

    /// Executable form of [`DirListing::has`].
    pub fn contains_path(&self, p: &String) -> (r: bool)
        ensures
            r == self.has(p@),
    {
        let n = self.files.len();
        let mut i: usize = 0;
        while i < n
            invariant
                i <= n,
                n == self.files@.len(),
                forall|k: int| 0 <= k < i ==> #[trigger] self.files@[k]@ != p@,
            decreases n - i,
        {
            if self.files[i].eq(p) {
                return true;
            }
            i = i + 1;
        }
        false
    }
}

/// A model version is present when both of its files exist.
pub open spec fn spec_model_present(listing: DirListing, dir: Seq<char>) -> bool {
    listing.has(spec_join(dir, "model.onnx"@)) && listing.has(spec_join(dir, "tokens.txt"@))
}

/// Check if model files exist for a specific version: both `model.onnx`
/// and `tokens.txt` must be in the version directory.
pub fn check_model_exists_for_version(
    base_dir: &str,
    version: &ModelVersion,
    listing: &DirListing,
) -> (r: bool)
    ensures
        r == spec_model_present(*listing, spec_model_dir_for_version(base_dir@, *version)),
{
    let dir = get_model_dir_for_version(base_dir, version);
    check_model_exists(dir.as_str(), listing)
}

/// Check if a model directory holds both required files.
pub fn check_model_exists(model_dir: &str, listing: &DirListing) -> (r: bool)
    ensures
        r == spec_model_present(*listing, model_dir@),
{
    let onnx = join_path(model_dir, "model.onnx");
    let tokens = join_path(model_dir, "tokens.txt");
    listing.contains_path(&onnx) && listing.contains_path(&tokens)
}

/// Read a version label as the configuration and the UI use it.
pub fn parse_model_version(label: &str) -> (r: Option<ModelVersion>)
    ensures
        label@ == "quantized"@ ==> r == Some(ModelVersion::Quantized),
        label@ == "unquantized"@ ==> r == Some(ModelVersion::Unquantized),
        label@ != "quantized"@ && label@ != "unquantized"@ ==> r is None,
{
    proof {
        reveal_strlit("quantized");
        reveal_strlit("unquantized");
        assert("quantized"@.len() != "unquantized"@.len());
    }
    if str_eq(label, "quantized") {
        Some(ModelVersion::Quantized)
    } else if str_eq(label, "unquantized") {
        Some(ModelVersion::Unquantized)
    } else {
        None
    }
}

/// When the extracted archive contents are flattened into the version
/// directory, any `.onnx` file that is not already called `model.onnx`
/// is renamed to `model.onnx`; every other entry keeps its name.
pub fn flatten_rename(name: &str) -> (r: String)
    ensures
        (name@.len() >= 5 && name@.skip(name@.len() - 5) == ".onnx"@ && name@ != "model.onnx"@)
            ==> r@ == "model.onnx"@,
        !(name@.len() >= 5 && name@.skip(name@.len() - 5) == ".onnx"@ && name@ != "model.onnx"@)
            ==> r@ == name@,
{
    proof {
        reveal_strlit(".onnx");
    }
    if str_ends_with(name, ".onnx") && !str_eq(name, "model.onnx") {
        String::from_str("model.onnx")
    } else {
        String::from_str(name)
    }
}

/// Presence of the two model versions on disk, and the selected one.
pub struct ModelVersionsStatus {
    pub quantized: bool,
    pub unquantized: bool,
    pub current: String,
}

/// Presence and load state of the selected model version.
pub struct ModelDetailedStatus {
    pub downloaded: bool,
    pub loaded: bool,
}

/// Which versions are on disk, and which one the configuration selects.
pub fn get_model_versions_status(config: &AppConfig, listing: &DirListing) -> (r:
    ModelVersionsStatus)
    ensures
        r.quantized == spec_model_present(
            *listing,
            spec_model_dir_for_version(config.model_dir@, ModelVersion::Quantized),
        ),
        r.unquantized == spec_model_present(
            *listing,
            spec_model_dir_for_version(config.model_dir@, ModelVersion::Unquantized),
        ),
        r.current@ == spec_version_subdir(config.model_version),
{
    let quantized = check_model_exists_for_version(
        config.model_dir.as_str(),
        &ModelVersion::Quantized,
        listing,
    );
    let unquantized = check_model_exists_for_version(
        config.model_dir.as_str(),
        &ModelVersion::Unquantized,
        listing,
    );
    let current = String::from_str(get_version_subdir(&config.model_version));
    ModelVersionsStatus { quantized, unquantized, current }
}

/// Is the selected version downloaded, and is a model loaded right now?
pub fn get_model_detailed_status(config: &AppConfig, listing: &DirListing, loaded: bool) -> (r:
    ModelDetailedStatus)
    ensures
        r.downloaded == spec_model_present(
            *listing,
            spec_model_dir_for_version(config.model_dir@, config.model_version),
        ),
        r.loaded == loaded,
{
    let downloaded = check_model_exists_for_version(
        config.model_dir.as_str(),
        &config.model_version,
        listing,
    );
    ModelDetailedStatus { downloaded, loaded }
}

/// Does `hay` contain `needle` anywhere?
pub open spec fn spec_contains(hay: Seq<char>, needle: Seq<char>) -> bool {
    exists|i: int| 0 <= i <= hay.len() && crate::codec::prefix_of(needle, #[trigger] hay.skip(i))
}

/// Substring search, character-wise.
pub fn str_contains(hay: &str, needle: &str) -> (r: bool)
    ensures
        r == spec_contains(hay@, needle@),
{
    let v = crate::text::chars_of(hay);
    let n = v.len();
    let mut i: usize = 0;
    while i <= n
        invariant
            i <= n,
            n == hay@.len(),
            v@ == hay@,
            forall|k: int| 0 <= k < i ==> !crate::codec::prefix_of(needle@, #[trigger] hay@.skip(k)),
        decreases n - i,
    {
        match crate::codec::expect_lit(&v, i, needle) {
            Some(_) => {
                return true;
            },
            None => {
                if i == n {
                    return false;
                }
                i = i + 1;
            },
        }
    }
    false
}

/// The default relative model directory, or one under a roaming profile,
/// is moved to the local application-data directory at startup, so that
/// downloads survive reinstalls and do not churn the project tree.
pub fn should_relocate_model_dir(model_dir: &str) -> (r: bool)
    ensures
        r == (model_dir@ == "./models/sense-voice"@ || spec_contains(
            model_dir@,
            "AppData\\Roaming"@,
        )),
{
    crate::text::str_eq(model_dir, "./models/sense-voice") || str_contains(
        model_dir,
        "AppData\\Roaming",
    )
}

/// Why a model version cannot be switched to.
#[derive(Clone, Copy, PartialEq, Eq, Structural, Debug)]
pub enum SwitchError {
    /// The label names no known version.
    InvalidVersion,
    /// The version's files are not on disk.
    NotDownloaded,
}

/// Switch the configuration to the version `label` names: rejected when
/// the label is unknown or the version is not downloaded (the
/// configuration is then untouched); otherwise the configuration is
/// updated and the directory to load the model from is returned.
pub fn switch_model_version(
    config: &mut crate::storage::AppConfig,
    label: &str,
    listing: &DirListing,
) -> (r: Result<String, SwitchError>)
    ensures
        label@ != "quantized"@ && label@ != "unquantized"@ ==> r == Err::<String, SwitchError>(
            SwitchError::InvalidVersion,
        ) && *final(config) == *old(config),
        (label@ == "quantized"@ || label@ == "unquantized"@) ==> {
            let v = if label@ == "quantized"@ {
                ModelVersion::Quantized
            } else {
                ModelVersion::Unquantized
            };
            if spec_model_present(*listing, spec_model_dir_for_version(old(config).model_dir@, v)) {
                &&& *final(config) == (crate::storage::AppConfig { model_version: v, ..*old(config) })
                &&& (r matches Ok(dir) && dir@ == spec_model_dir_for_version(
                    old(config).model_dir@,
                    v,
                ))
            } else {
                r == Err::<String, SwitchError>(SwitchError::NotDownloaded) && *final(config) == *old(
                    config,
                )
            }
        },
{
    let version = match parse_model_version(label) {
        Some(v) => v,
        None => {
            return Err(SwitchError::InvalidVersion);
        },
    };
    if !check_model_exists_for_version(config.model_dir.as_str(), &version, listing) {
        return Err(SwitchError::NotDownloaded);
    }
    let dir = get_model_dir_for_version(config.model_dir.as_str(), &version);
    config.model_version = version;
    Ok(dir)
}

/// What the download loop observes, one event at a time.
pub enum DownloadEvent {
    /// A chunk of this many bytes arrived and was written to the archive.
    Chunk(u64),
    /// Reading the stream or writing the archive failed.
    ChunkFailed,
    /// The user asked to cancel.
    CancelRequested,
    /// The stream ended: the archive is complete.
    StreamEnd,
}

/// What the caller must do after a download step.
pub enum DownloadAction {
    /// Report progress: bytes downloaded so far, and the expected total.
    Progress(u64, u64),
    /// Delete the temporary archive file.
    RemoveArchive,
    /// Announce that the download was cancelled.
    ReportCancelled,
    /// Announce that the download failed.
    ReportFailed,
    /// Unpack the archive into the version directory.
    ExtractArchive,
    /// Announce that the download finished.
    ReportComplete,
}

/// The running state of one model download. On every terminal event —
/// cancellation, failure or completion — the temporary archive file is
/// removed, so no partial archive outlives the task.
pub struct DownloadTask {
    pub downloaded: u64,
    pub total: u64,
    pub finished: bool,
}

impl DownloadTask {
    /// A download that expects `total` bytes (0 when the server did not
    /// say).
    pub fn new(total: u64) -> (r: Self)
        ensures
            r.downloaded == 0,
            r.total == total,
            !r.finished,
    {
        DownloadTask { downloaded: 0, total, finished: false }
    }

    /// Consume one event. Progress is reported on every chunk; every
    /// terminal event removes the archive, and completion extracts it
    /// first.
    pub fn step(&mut self, ev: DownloadEvent) -> (actions: Vec<DownloadAction>)
        requires
            !old(self).finished,
        ensures
            final(self).total == old(self).total,
            match ev {
                DownloadEvent::Chunk(n) => {
                    &&& final(self).downloaded == if old(self).downloaded + n <= u64::MAX {
                        old(self).downloaded + n
                    } else {
                        u64::MAX as int
                    }
                    &&& !final(self).finished
                    &&& actions@ == seq![
                        DownloadAction::Progress(final(self).downloaded, final(self).total),
                    ]
                },
                DownloadEvent::ChunkFailed => {
                    &&& final(self).finished
                    &&& actions@ == seq![
                        DownloadAction::RemoveArchive,
                        DownloadAction::ReportFailed,
                    ]
                },
                DownloadEvent::CancelRequested => {
                    &&& final(self).finished
                    &&& actions@ == seq![
                        DownloadAction::RemoveArchive,
                        DownloadAction::ReportCancelled,
                    ]
                },
                DownloadEvent::StreamEnd => {
                    &&& final(self).finished
                    &&& actions@ == seq![
                        DownloadAction::ExtractArchive,
                        DownloadAction::RemoveArchive,
                        DownloadAction::ReportComplete,
                    ]
                },
            },
    {
        let mut actions: Vec<DownloadAction> = Vec::new();
        match ev {
            DownloadEvent::Chunk(n) => {
                self.downloaded = if n <= u64::MAX - self.downloaded {
                    self.downloaded + n
                } else {
                    u64::MAX
                };
                actions.push(DownloadAction::Progress(self.downloaded, self.total));
            },
            DownloadEvent::ChunkFailed => {
                self.finished = true;
                actions.push(DownloadAction::RemoveArchive);
                actions.push(DownloadAction::ReportFailed);
            },
            DownloadEvent::CancelRequested => {
                self.finished = true;
                actions.push(DownloadAction::RemoveArchive);
                actions.push(DownloadAction::ReportCancelled);
            },
            DownloadEvent::StreamEnd => {
                self.finished = true;
                actions.push(DownloadAction::ExtractArchive);
                actions.push(DownloadAction::RemoveArchive);
                actions.push(DownloadAction::ReportComplete);
            },
        }
        proof {
            assert(actions@ =~= actions@);
        }
        actions
    }
}

} // verus!
