//! Where the managed external tools live on disk and how their status is
//! judged: each tool keeps its binary under the application's data
//! directory, its models beside it, and resolves a fixed download location.
//!
//! The platform's data directory comes from the `dirs` crate through two
//! trusted wrappers; everything derived from it is plain string arithmetic,
//! verified. Probes (does the binary exist, which version answered) are
//! handed in by the caller as plain values.

use vstd::prelude::*;
use crate::text::str_eq;
use crate::tasks::clone_string;
use crate::text::{chars_to_string, push_chars};

verus! {

/// The directory name all managed tools share.
pub const APP_IDENTIFIER: &'static str = "com.zinc.app";

/// Relies on `dirs::data_local_dir`: the platform local-data directory, if
/// the environment defines one; environment-dependent, so unspecified.
#[verifier::external_body]
pub fn data_local_dir() -> (r: Option<String>)
{
    dirs::data_local_dir().and_then(|p| p.into_os_string().into_string().ok())
}

/// Relies on `dirs::download_dir`: the user's download directory, if the
/// environment defines one; environment-dependent, so unspecified.
#[verifier::external_body]
pub fn download_dir() -> (r: Option<String>)
{
    dirs::download_dir().and_then(|p| p.into_os_string().into_string().ok())
}

/// Relies on `dirs::home_dir`: the user's home directory, if the
/// environment defines one; environment-dependent, so unspecified.
#[verifier::external_body]
pub fn home_dir() -> (r: Option<String>)
{
    dirs::home_dir().and_then(|p| p.into_os_string().into_string().ok())
}

/// `base/name`.
pub fn path_join(base: &str, name: &str) -> (r: String)
    ensures
        r@ == base@ + seq!['/'] + name@,
{
    let mut out: Vec<char> = Vec::new();
    push_chars(base, &mut out);
    out.push('/');
    push_chars(name, &mut out);
    proof {
        assert(out@ =~= base@ + seq!['/'] + name@);
    }
    chars_to_string(&out)
}

/// Whether `s` ends with `suffix`.
pub open spec fn spec_ends_with(s: Seq<char>, suffix: Seq<char>) -> bool {
    s.len() >= suffix.len() && s.skip(s.len() - suffix.len()) == suffix
}

/// The tool bin directory under `base`.
pub fn bin_dir_under(base: &str) -> (r: String)
    ensures
        r@ == base@ + seq!['/'] + "com.zinc.app"@ + seq!['/'] + "bin"@,
{
    let with_app = path_join(base, APP_IDENTIFIER);
    let r = path_join(with_app.as_str(), "bin");
    proof {
        assert(r@ =~= base@ + seq!['/'] + "com.zinc.app"@ + seq!['/'] + "bin"@);
    }
    r
}

/// The model directory under `base`.
pub fn models_dir_under(base: &str) -> (r: String)
    ensures
        r@ == base@ + seq!['/'] + "com.zinc.app"@ + seq!['/'] + "models"@,
{
    let with_app = path_join(base, APP_IDENTIFIER);
    let r = path_join(with_app.as_str(), "models");
    proof {
        assert(r@ =~= base@ + seq!['/'] + "com.zinc.app"@ + seq!['/'] + "models"@);
    }
    r
}

/// Resolves the tool bin directory from the platform data directory, or
/// explains why it cannot be found.
pub fn resolve_bin_dir() -> (r: Result<String, String>)
    ensures
        r matches Ok(p) ==> spec_ends_with(p@, seq!['/'] + "com.zinc.app"@ + seq!['/'] + "bin"@),
        r matches Err(e) ==> e@ == "Could not determine app data directory"@,
{
    match data_local_dir() {
        Some(base) => {
            let p = bin_dir_under(base.as_str());
            proof {
                reveal_strlit("com.zinc.app");
                reveal_strlit("bin");
                assert(p@.skip(p@.len() - 17) =~= seq!['/'] + "com.zinc.app"@ + seq!['/']
                    + "bin"@);
            }
            Ok(p)
        },
        None => Err(String::from_str("Could not determine app data directory")),
    }
}

/// Resolves the model directory from the platform data directory.
pub fn resolve_models_dir() -> (r: Result<String, String>)
    ensures
        r matches Ok(p) ==> spec_ends_with(
            p@,
            seq!['/'] + "com.zinc.app"@ + seq!['/'] + "models"@,
        ),
        r matches Err(e) ==> e@ == "Could not determine app data directory"@,
{
    match data_local_dir() {
        Some(base) => {
            let p = models_dir_under(base.as_str());
            proof {
                reveal_strlit("com.zinc.app");
                reveal_strlit("models");
                assert(p@.skip(p@.len() - 20) =~= seq!['/'] + "com.zinc.app"@ + seq!['/']
                    + "models"@);
            }
            Ok(p)
        },
        None => Err(String::from_str("Could not determine app data directory")),
    }
}

/// The state of the media-fetch tool's managed install.
pub enum YtDlpStatus {
    NotInstalled,
    Installed { version: String, path: String },
    UpdateAvailable { current: String, latest: String, path: String },
    Error { message: String },
}

/// The state of the runtime helper's managed install.
pub enum DenoStatus {
    NotInstalled,
    Installed { version: String, path: String },
    Error { message: String },
}

/// The state of the legacy CLI engine's managed install.
pub enum WhisperStatus {
    NotInstalled,
    Installed { version: String, path: String },
    ModelMissing { version: String, path: String },
    Error { message: String },
}

/// One downloadable model of the legacy CLI engine.
pub struct WhisperModel {
    pub id: String,
    pub name: String,
    pub size: String,
    pub installed: bool,
}

pub struct YtDlpManager;

impl YtDlpManager {
    /// The managed binary's path under `bin_dir`.
    pub fn get_binary_path(bin_dir: &str) -> (r: String)
        ensures
            r@ == bin_dir@ + seq!['/'] + "yt-dlp"@,
    {
        path_join(bin_dir, "yt-dlp")
    }

    /// The fixed location the tool is fetched from.
    pub fn get_download_url() -> (r: &'static str)
        ensures
            r@ == "https://github.com/yt-dlp/yt-dlp/releases/latest/download/yt-dlp_linux"@,
    {
        "https://github.com/yt-dlp/yt-dlp/releases/latest/download/yt-dlp_linux"
    }

    /// Judges the install from what the probes answered: missing binary
    /// first, then a version failure, then whether a newer release is
    /// known.
    pub fn check_status_from(
        path: &Result<String, String>,
        binary_exists: bool,
        version: &Result<String, String>,
        latest: &Option<String>,
    ) -> (r: YtDlpStatus)
        ensures
            path matches Err(e) ==> (r matches YtDlpStatus::Error { message } && message@ == e@),
            path is Ok && !binary_exists ==> r is NotInstalled,
            version matches Err(e) ==> ((path is Ok && binary_exists) ==> (r
                matches YtDlpStatus::Error { message } && message@ == e@)),
            path matches Ok(p) ==> version matches Ok(v) ==> (binary_exists ==> match latest {
                Some(l) => if l@ != v@ {
                    r matches YtDlpStatus::UpdateAvailable { current, latest: lt, path: pp }
                        && current@ == v@ && lt@ == l@ && pp@ == p@
                } else {
                    (r matches YtDlpStatus::Installed { version: rv, path: rp } && rv@ == v@
                        && rp@ == p@)
                },
                None => (r matches YtDlpStatus::Installed { version: rv, path: rp } && rv@ == v@
                    && rp@ == p@),
            }),
    {
        let p = match path {
            Ok(p) => p,
            Err(e) => {
                return YtDlpStatus::Error { message: clone_string(e) };
            },
        };
        if !binary_exists {
            return YtDlpStatus::NotInstalled;
        }
        let v = match version {
            Ok(v) => v,
            Err(e) => {
                return YtDlpStatus::Error { message: clone_string(e) };
            },
        };
        if let Some(l) = latest {
            if !str_eq(l.as_str(), v.as_str()) {
                return YtDlpStatus::UpdateAvailable {
                    current: clone_string(v),
                    latest: clone_string(l),
                    path: clone_string(p),
                };
            }
        }
        YtDlpStatus::Installed { version: clone_string(v), path: clone_string(p) }
    }

    /// The newer release to offer, when one is known and differs from what
    /// is installed.
    pub fn update_available(current: &str, latest: &str) -> (r: Option<String>)
        ensures
            current@ != latest@ ==> (r matches Some(l) && l@ == latest@),
            current@ == latest@ ==> r is None,
    {
        if !str_eq(current, latest) {
            Some(String::from_str(latest))
        } else {
            None
        }
    }
}

pub struct DenoManager;

impl DenoManager {
    pub fn get_binary_path(bin_dir: &str) -> (r: String)
        ensures
            r@ == bin_dir@ + seq!['/'] + "deno"@,
    {
        path_join(bin_dir, "deno")
    }

    pub fn get_download_url() -> (r: &'static str)
        ensures
            r@
                == "https://github.com/denoland/deno/releases/latest/download/deno-x86_64-unknown-linux-gnu.zip"@,
    {
        "https://github.com/denoland/deno/releases/latest/download/deno-x86_64-unknown-linux-gnu.zip"
    }

    /// Judges the install from what the probes answered.
    pub fn check_status_from(
        path: &Result<String, String>,
        binary_exists: bool,
        version: &Result<String, String>,
    ) -> (r: DenoStatus)
        ensures
            path matches Err(e) ==> (r matches DenoStatus::Error { message } && message@ == e@),
            path is Ok && !binary_exists ==> r is NotInstalled,
            path matches Ok(p) ==> version matches Ok(v) ==> (binary_exists ==> (r
                matches DenoStatus::Installed { version: rv, path: rp } && rv@ == v@ && rp@
                == p@)),
            version matches Err(e) ==> ((path is Ok && binary_exists) ==> (r
                matches DenoStatus::Error { message } && message@ == e@)),
    {
        let p = match path {
            Ok(p) => p,
            Err(e) => {
                return DenoStatus::Error { message: clone_string(e) };
            },
        };
        if !binary_exists {
            return DenoStatus::NotInstalled;
        }
        match version {
            Ok(v) => DenoStatus::Installed {
                version: clone_string(v),
                path: clone_string(p),
            },
            Err(e) => DenoStatus::Error { message: clone_string(e) },
        }
    }
}

pub struct SherpaManager;

impl SherpaManager {
    /// The runtime keeps its own corner of the bin directory.
    pub fn get_bin_dir(bin_dir: &str) -> (r: String)
        ensures
            r@ == bin_dir@ + seq!['/'] + "sherpa"@,
    {
        path_join(bin_dir, "sherpa")
    }

    /// Each engine keeps its models in a directory of its own.
    pub fn get_models_dir(models_dir: &str, engine: &str) -> (r: String)
        ensures
            r@ == models_dir@ + seq!['/'] + engine@,
    {
        path_join(models_dir, engine)
    }

    pub fn get_binary_path(sherpa_bin_dir: &str) -> (r: String)
        ensures
            r@ == sherpa_bin_dir@ + seq!['/'] + "sherpa-onnx-offline"@,
    {
        path_join(sherpa_bin_dir, "sherpa-onnx-offline")
    }

    pub fn get_download_url() -> (r: String)
        ensures
            r@
                == "https://github.com/k2-fsa/sherpa-onnx/releases/download/v1.12.23/sherpa-onnx-v1.12.23-linux-x64-shared.tar.bz2"@,
    {
        String::from_str(
            "https://github.com/k2-fsa/sherpa-onnx/releases/download/v1.12.23/sherpa-onnx-v1.12.23-linux-x64-shared.tar.bz2",
        )
    }
}

pub struct WhisperManager;

impl WhisperManager {
    pub fn get_binary_path(bin_dir: &str) -> (r: String)
        ensures
            r@ == bin_dir@ + seq!['/'] + "whisper"@,
    {
        path_join(bin_dir, "whisper")
    }

    /// The GGML file a model id resolves to under `models_dir`.
    pub fn get_model_path(models_dir: &str, model: &str) -> (r: String)
        ensures
            r@ == models_dir@ + seq!['/'] + "ggml-"@ + model@ + ".bin"@,
    {
        let mut out: Vec<char> = Vec::new();
        push_chars(models_dir, &mut out);
        out.push('/');
        push_chars("ggml-", &mut out);
        push_chars(model, &mut out);
        push_chars(".bin", &mut out);
        proof {
            assert(out@ =~= models_dir@ + seq!['/'] + "ggml-"@ + model@ + ".bin"@);
        }
        chars_to_string(&out)
    }

    pub fn get_download_url(version: &str) -> (r: String)
        ensures
            r@ == "https://github.com/ggml-org/whisper.cpp/releases/download/"@ + version@
                + "/whisper-bin-x64.zip"@,
    {
        let mut out: Vec<char> = Vec::new();
        push_chars("https://github.com/ggml-org/whisper.cpp/releases/download/", &mut out);
        push_chars(version, &mut out);
        push_chars("/whisper-bin-x64.zip", &mut out);
        proof {
            assert(out@ =~= "https://github.com/ggml-org/whisper.cpp/releases/download/"@
                + version@ + "/whisper-bin-x64.zip"@);
        }
        chars_to_string(&out)
    }

    /// The ids whose model files are looked for on disk.
    pub fn model_ids() -> (r: Vec<&'static str>)
        ensures
            r@.len() == 3,
            r@[0]@ == "tiny"@,
            r@[1]@ == "base"@,
            r@[2]@ == "small"@,
    {
        let mut v: Vec<&'static str> = Vec::new();
        v.push("tiny");
        v.push("base");
        v.push("small");
        v
    }

    /// Whether any of the probed model flags is set.
    pub fn has_any_model(installed: &Vec<bool>) -> (r: bool)
        ensures
            r == exists|i: int| 0 <= i < installed@.len() && installed@[i],
    {
        let n = installed.len();
        for i in 0..n
            invariant
                n == installed@.len(),
                forall|j: int| 0 <= j < i ==> !installed@[j],
        {
            if installed[i] {
                return true;
            }
        }
        false
    }

    /// The model table with installed flags read from the probe, in the
    /// fixed catalog order tiny, base, small.
    pub fn get_available_models(tiny: bool, base: bool, small: bool) -> (r: Vec<WhisperModel>)
        ensures
            r@.len() == 3,
            r@[0].id@ == "tiny"@ && r@[0].name@ == "Tiny"@ && r@[0].size@ == "75 MB"@
                && r@[0].installed == tiny,
            r@[1].id@ == "base"@ && r@[1].name@ == "Base"@ && r@[1].size@ == "142 MB"@
                && r@[1].installed == base,
            r@[2].id@ == "small"@ && r@[2].name@ == "Small"@ && r@[2].size@ == "466 MB"@
                && r@[2].installed == small,
    {
        let mut r: Vec<WhisperModel> = Vec::new();
        r.push(
            WhisperModel {
                id: String::from_str("tiny"),
                name: String::from_str("Tiny"),
                size: String::from_str("75 MB"),
                installed: tiny,
            },
        );
        r.push(
            WhisperModel {
                id: String::from_str("base"),
                name: String::from_str("Base"),
                size: String::from_str("142 MB"),
                installed: base,
            },
        );
        r.push(
            WhisperModel {
                id: String::from_str("small"),
                name: String::from_str("Small"),
                size: String::from_str("466 MB"),
                installed: small,
            },
        );
        r
    }

    /// Judges the install from what the probes answered: missing binary,
    /// then a version failure, then whether any model is on disk.
    pub fn check_status_from(
        path: &Result<String, String>,
        binary_exists: bool,
        version: &Result<String, String>,
        has_model: bool,
    ) -> (r: WhisperStatus)
        ensures
            path matches Err(e) ==> (r matches WhisperStatus::Error { message } && message@
                == e@),
            path is Ok && !binary_exists ==> r is NotInstalled,
            version matches Err(e) ==> ((path is Ok && binary_exists) ==> (r
                matches WhisperStatus::Error { message } && message@ == e@)),
            path matches Ok(p) ==> version matches Ok(v) ==> ((binary_exists && !has_model)
                ==> (r matches WhisperStatus::ModelMissing { version: rv, path: rp } && rv@
                == v@ && rp@ == p@)),
            path matches Ok(p) ==> version matches Ok(v) ==> ((binary_exists && has_model) ==> (r
                matches WhisperStatus::Installed { version: rv, path: rp } && rv@ == v@ && rp@
                == p@)),
    {
        let p = match path {
            Ok(p) => p,
            Err(e) => {
                return WhisperStatus::Error { message: clone_string(e) };
            },
        };
        if !binary_exists {
            return WhisperStatus::NotInstalled;
        }
        let v = match version {
            Ok(v) => v,
            Err(e) => {
                return WhisperStatus::Error { message: clone_string(e) };
            },
        };
        if !has_model {
            return WhisperStatus::ModelMissing {
                version: clone_string(v),
                path: clone_string(p),
            };
        }
        WhisperStatus::Installed { version: clone_string(v), path: clone_string(p) }
    }
}

/// The legacy single-binary transcriber.
pub struct Whisper;

impl Whisper {
    /// The command to run: the managed binary when the caller found one on
    /// disk, else the tool name resolved on the search path.
    pub fn get_command(managed: Option<String>) -> (r: String)
        ensures
            managed matches Some(p) ==> r@ == p@,
            managed is None ==> r@ == "whisper"@,
    {
        match managed {
            Some(p) => p,
            None => String::from_str("whisper"),
        }
    }
}

} // verus!
