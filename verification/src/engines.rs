//! The speech-engine catalog: the closed set of interchangeable engines,
//! their static identity, model tables, speed figures and language lists,
//! and the dispatcher that resolves an engine by id.
//!
//! Whether a runtime or model is on disk can change between calls, so
//! nothing here is cached: callers probe the filesystem and hand the result
//! in as an `EngineProbe`, and every answer is computed from that probe
//! alone. Speed multipliers are carried in tenths, so a figure of `325`
//! means 32.5 times realtime.

use vstd::prelude::*;
use crate::errors::TranscribeError;
use crate::text::str_eq;

verus! {

/// One model an engine can run: identity, a size label for display, whether
/// its files are on disk, and speed multipliers in tenths for ETA display.
pub struct TranscriptionModel {
    pub id: String,
    pub name: String,
    pub size: String,
    pub installed: bool,
    pub speed_gpu_tenths: u64,
    pub speed_cpu_tenths: u64,
}

/// Whether an engine can be used right now.
pub enum EngineStatus {
    Available,
    NotInstalled,
    Unavailable { reason: String },
}

/// The full description of an engine, recomputed on demand.
pub struct EngineInfo {
    pub id: String,
    pub name: String,
    pub description: String,
    pub status: EngineStatus,
    pub gpu_required: bool,
    pub gpu_available: bool,
    pub languages: Vec<String>,
    pub models: Vec<TranscriptionModel>,
}

/// What a filesystem probe found for one engine: whether its runtime is in
/// place, whether a compatible GPU answered, and which model ids have their
/// marker files on disk.
pub struct EngineProbe {
    pub runtime_installed: bool,
    pub gpu_available: bool,
    pub installed_models: Vec<String>,
}

impl EngineProbe {
    pub open spec fn spec_has_model(self, id: Seq<char>) -> bool {
        exists|i: int|
            0 <= i < self.installed_models@.len() && (#[trigger] self.installed_models@[i])@ == id
    }

    /// Whether the probe found the marker files of `id`.
    pub fn has_model(&self, id: &str) -> (r: bool)
        ensures
            r == self.spec_has_model(id@),
    {
        let n = self.installed_models.len();
        for i in 0..n
            invariant
                n == self.installed_models@.len(),
                forall|j: int| 0 <= j < i ==> (#[trigger] self.installed_models@[j])@ != id@,
        {
            if str_eq(self.installed_models[i].as_str(), id) {
                return true;
            }
        }
        false
    }
}

/// How an engine's status is derived from what the probe found: available
/// when runtime and a model are present; otherwise blocked on a missing GPU
/// when one is required, else simply not installed.
pub fn engine_status(is_available: bool, gpu_required: bool, gpu_available: bool) -> (r:
    EngineStatus)
    ensures
        is_available ==> r is Available,
        !is_available && gpu_required && !gpu_available ==> (r matches EngineStatus::Unavailable {
            reason,
        } && reason@ == "NVIDIA GPU required"@),
        !is_available && !(gpu_required && !gpu_available) ==> r is NotInstalled,
{
    if is_available {
        EngineStatus::Available
    } else if gpu_required && !gpu_available {
        EngineStatus::Unavailable { reason: String::from_str("NVIDIA GPU required") }
    } else {
        EngineStatus::NotInstalled
    }
}

/// The GGML file a whisper model id resolves to; unknown ids fall back to
/// the base model.
pub open spec fn spec_whisper_model_filename(m: Seq<char>) -> Seq<char> {
    if m == "tiny"@ {
        "ggml-tiny.bin"@
    } else if m == "base"@ {
        "ggml-base.bin"@
    } else if m == "small"@ {
        "ggml-small.bin"@
    } else if m == "medium"@ {
        "ggml-medium.bin"@
    } else if m == "large-v3"@ {
        "ggml-large-v3.bin"@
    } else {
        "ggml-base.bin"@
    }
}

/// Native whisper speed figures in tenths, `(gpu, cpu)`.
pub open spec fn spec_whisper_rs_speed(m: Seq<char>) -> (u64, u64) {
    if m == "tiny"@ {
        (320u64, 80u64)
    } else if m == "base"@ {
        (160u64, 40u64)
    } else if m == "small"@ {
        (60u64, 20u64)
    } else if m == "medium"@ {
        (20u64, 5u64)
    } else if m == "large-v3"@ {
        (10u64, 2u64)
    } else {
        (160u64, 40u64)
    }
}

/// The native whisper engine: in-process inference with token timestamps and
/// chunked processing of long inputs.
pub struct WhisperRsEngine;

pub const WHISPER_RS_LANGUAGES: [&'static str; 99] = ["en", "zh", "de", "es", "ru", "ko", "fr", "ja", "pt", "tr", "pl", "ca", "nl", "ar", "sv", "it", "id", "hi", "fi", "vi", "he", "uk", "el", "ms", "cs", "ro", "da", "hu", "ta", "no", "th", "ur", "hr", "bg", "lt", "la", "mi", "ml", "cy", "sk", "te", "fa", "lv", "bn", "sr", "az", "sl", "kn", "et", "mk", "br", "eu", "is", "hy", "ne", "mn", "bs", "kk", "sq", "sw", "gl", "mr", "pa", "si", "km", "sn", "yo", "so", "af", "oc", "ka", "be", "tg", "sd", "gu", "am", "yi", "lo", "uz", "fo", "ht", "ps", "tk", "nn", "mt", "sa", "lb", "my", "bo", "tl", "mg", "as", "tt", "haw", "ln", "ha", "ba", "jw", "su"];

/// Where the native engine's GGML models are published.
pub const WHISPER_RS_MODEL_URL_BASE: &'static str = "https://huggingface.co/ggerganov/whisper.cpp/resolve/main/";

impl WhisperRsEngine {
    pub fn new() -> (r: WhisperRsEngine) {
        WhisperRsEngine
    }

    /// This engine's model directory under the shared model root.
    pub fn get_models_dir(models_root: &str) -> (r: String)
        ensures
            r@ == models_root@ + seq!['/'] + "whisper-rs"@,
    {
        crate::managers::path_join(models_root, "whisper-rs")
    }

    /// Where a model id downloads from: its GGML file under the published
    /// base.
    pub fn get_model_url(model: &str) -> (r: String)
        ensures
            r@ == WHISPER_RS_MODEL_URL_BASE@ + spec_whisper_model_filename(model@),
    {
        String::from_str(WHISPER_RS_MODEL_URL_BASE).concat(Self::get_model_filename(model))
    }

    /// The full path of a model's GGML file under this engine's directory.
    pub fn get_model_path(models_dir: &str, model: &str) -> (r: String)
        ensures
            r@ == models_dir@ + seq!['/'] + spec_whisper_model_filename(model@),
    {
        crate::managers::path_join(models_dir, Self::get_model_filename(model))
    }

    /// Whether the probe found the model's file.
    pub fn is_model_installed(&self, probe: &EngineProbe, model: &str) -> (r: bool)
        ensures
            r == probe.spec_has_model(model@),
    {
        probe.has_model(model)
    }

    pub fn id(&self) -> (r: &'static str)
        ensures
            r@ == "whisper_rs"@,
    {
        "whisper_rs"
    }

    pub fn name(&self) -> (r: &'static str)
        ensures
            r@ == "Whisper (GPU)"@,
    {
        "Whisper (GPU)"
    }

    pub fn description(&self) -> (r: &'static str)
        ensures
            r@ == "Fast native GPU engine (16-32x realtime)"@,
    {
        "Fast native GPU engine (16-32x realtime)"
    }

    pub fn gpu_required(&self) -> (r: bool)
        ensures
            r == false,
    {
        false
    }

    /// The GGML file name a model id resolves to; unknown ids fall back to
    /// the base model.
    pub fn get_model_filename(model: &str) -> (r: &'static str)
        ensures
            r@ == spec_whisper_model_filename(model@),
    {
        if str_eq(model, "tiny") {
            "ggml-tiny.bin"
        } else if str_eq(model, "base") {
            "ggml-base.bin"
        } else if str_eq(model, "small") {
            "ggml-small.bin"
        } else if str_eq(model, "medium") {
            "ggml-medium.bin"
        } else if str_eq(model, "large-v3") {
            "ggml-large-v3.bin"
        } else {
            "ggml-base.bin"
        }
    }

    /// Speed multipliers in tenths, `(gpu, cpu)`.
    pub fn speed_multiplier(&self, model: &str) -> (r: (u64, u64))
        ensures
            r == spec_whisper_rs_speed(model@),
    {
        if str_eq(model, "tiny") {
            (320, 80)
        } else if str_eq(model, "base") {
            (160, 40)
        } else if str_eq(model, "small") {
            (60, 20)
        } else if str_eq(model, "medium") {
            (20, 5)
        } else if str_eq(model, "large-v3") {
            (10, 2)
        } else {
            (160, 40)
        }
    }

    pub fn supported_languages(&self) -> (r: Vec<&'static str>)
        ensures
            r@ =~= WHISPER_RS_LANGUAGES@,
    {
        array_to_vec_99(&WHISPER_RS_LANGUAGES)
    }

    /// Available when at least one model's file is on disk; the inference
    /// library itself ships built in.
    pub fn is_available(&self, probe: &EngineProbe) -> (r: bool)
        ensures
            r == (probe.spec_has_model("tiny"@) || probe.spec_has_model("base"@)
                || probe.spec_has_model("small"@) || probe.spec_has_model("medium"@)
                || probe.spec_has_model("large-v3"@)),
    {
        probe.has_model("tiny") || probe.has_model("base") || probe.has_model("small")
            || probe.has_model("medium") || probe.has_model("large-v3")
    }

    /// The model table with installed flags read from the probe.
    pub fn available_models(&self, probe: &EngineProbe) -> (r: Vec<TranscriptionModel>)
        ensures
            r@.len() == 5,
            r@[0].id@ == "tiny"@ && r@[0].size@ == "75 MB"@ && r@[0].installed
                == probe.spec_has_model("tiny"@) && r@[0].speed_gpu_tenths == 320
                && r@[0].speed_cpu_tenths == 80,
            r@[1].id@ == "base"@ && r@[1].size@ == "142 MB"@ && r@[1].installed
                == probe.spec_has_model("base"@) && r@[1].speed_gpu_tenths == 160
                && r@[1].speed_cpu_tenths == 40,
            r@[2].id@ == "small"@ && r@[2].size@ == "466 MB"@ && r@[2].installed
                == probe.spec_has_model("small"@) && r@[2].speed_gpu_tenths == 60
                && r@[2].speed_cpu_tenths == 20,
            r@[3].id@ == "medium"@ && r@[3].size@ == "1.5 GB"@ && r@[3].installed
                == probe.spec_has_model("medium"@) && r@[3].speed_gpu_tenths == 20
                && r@[3].speed_cpu_tenths == 5,
            r@[4].id@ == "large-v3"@ && r@[4].size@ == "3.1 GB"@ && r@[4].installed
                == probe.spec_has_model("large-v3"@) && r@[4].speed_gpu_tenths == 10
                && r@[4].speed_cpu_tenths == 2,
    {
        let mut r: Vec<TranscriptionModel> = Vec::new();
        r.push(
            TranscriptionModel {
                id: String::from_str("tiny"),
                name: String::from_str("Tiny"),
                size: String::from_str("75 MB"),
                installed: probe.has_model("tiny"),
                speed_gpu_tenths: 320,
                speed_cpu_tenths: 80,
            },
        );
        r.push(
            TranscriptionModel {
                id: String::from_str("base"),
                name: String::from_str("Base"),
                size: String::from_str("142 MB"),
                installed: probe.has_model("base"),
                speed_gpu_tenths: 160,
                speed_cpu_tenths: 40,
            },
        );
        r.push(
            TranscriptionModel {
                id: String::from_str("small"),
                name: String::from_str("Small"),
                size: String::from_str("466 MB"),
                installed: probe.has_model("small"),
                speed_gpu_tenths: 60,
                speed_cpu_tenths: 20,
            },
        );
        r.push(
            TranscriptionModel {
                id: String::from_str("medium"),
                name: String::from_str("Medium"),
                size: String::from_str("1.5 GB"),
                installed: probe.has_model("medium"),
                speed_gpu_tenths: 20,
                speed_cpu_tenths: 5,
            },
        );
        r.push(
            TranscriptionModel {
                id: String::from_str("large-v3"),
                name: String::from_str("Large v3"),
                size: String::from_str("3.1 GB"),
                installed: probe.has_model("large-v3"),
                speed_gpu_tenths: 10,
                speed_cpu_tenths: 2,
            },
        );
        r
    }
}

/// The directory a moonshine model unpacks into; unknown ids fall back to
/// tiny.
pub open spec fn spec_moonshine_model_dir(m: Seq<char>) -> Seq<char> {
    if m == "tiny"@ {
        "sherpa-onnx-moonshine-tiny-en-int8"@
    } else if m == "base"@ {
        "sherpa-onnx-moonshine-base-en-int8"@
    } else {
        "sherpa-onnx-moonshine-tiny-en-int8"@
    }
}

impl WhisperRsEngine {
    /// The full descriptor, recomputed from the probe on every call since
    /// installation and GPU state can change between calls.
    pub fn get_info(&self, probe: &EngineProbe) -> (r: EngineInfo)
        ensures
            r.id@ == "whisper_rs"@,
            r.name@ == "Whisper (GPU)"@,
            r.description@ == "Fast native GPU engine (16-32x realtime)"@,
            r.gpu_required == false,
            r.gpu_available == probe.gpu_available,
            ({
                let avail = probe.spec_has_model("tiny"@) || probe.spec_has_model("base"@)
                    || probe.spec_has_model("small"@) || probe.spec_has_model("medium"@)
                    || probe.spec_has_model("large-v3"@);
                if avail {
                    r.status is Available
                } else {
                    r.status is NotInstalled
                }
            }),
            r.languages@.len() == 99,
            forall|i: int|
                0 <= i < 99 ==> (#[trigger] r.languages@[i])@ == WHISPER_RS_LANGUAGES@[i]@,
            r.models@.len() == 5,
    {
        let available = self.is_available(probe);
        let mut languages: Vec<String> = Vec::new();
        let codes = self.supported_languages();
        let n = codes.len();
        for i in 0..n
            invariant
                n == 99,
                codes@ =~= WHISPER_RS_LANGUAGES@,
                languages@.len() == i,
                forall|j: int|
                    0 <= j < i ==> (#[trigger] languages@[j])@ == WHISPER_RS_LANGUAGES@[j]@,
        {
            languages.push(String::from_str(codes[i]));
        }
        EngineInfo {
            id: String::from_str("whisper_rs"),
            name: String::from_str("Whisper (GPU)"),
            description: String::from_str("Fast native GPU engine (16-32x realtime)"),
            status: engine_status(available, false, probe.gpu_available),
            gpu_required: false,
            gpu_available: probe.gpu_available,
            languages,
            models: self.available_models(probe),
        }
    }
}

/// The lightweight ONNX engine: strict per-call context limit, so long
/// inputs are always chunked; English only.
pub struct MoonshineEngine;

/// Where the lightweight engine's models are published.
pub const MOONSHINE_TINY_URL: &'static str = "https://github.com/k2-fsa/sherpa-onnx/releases/download/asr-models/sherpa-onnx-moonshine-tiny-en-int8.tar.bz2";

pub const MOONSHINE_BASE_URL: &'static str = "https://github.com/k2-fsa/sherpa-onnx/releases/download/asr-models/sherpa-onnx-moonshine-base-en-int8.tar.bz2";

impl MoonshineEngine {
    /// The runtime CLI's invocation for one audio file: the four model
    /// stages, the token table, a fixed thread count, then the audio.
    pub fn build_transcribe_args(
        preprocessor: &str,
        encoder: &str,
        uncached_decoder: &str,
        cached_decoder: &str,
        tokens: &str,
        audio_path: &str,
    ) -> (r: Vec<String>)
        ensures
            r@.map_values(|s: String| s@) =~= seq![
                "--moonshine-preprocessor="@ + preprocessor@,
                "--moonshine-encoder="@ + encoder@,
                "--moonshine-uncached-decoder="@ + uncached_decoder@,
                "--moonshine-cached-decoder="@ + cached_decoder@,
                "--tokens="@ + tokens@,
                "--num-threads=4"@,
                audio_path@,
            ],
    {
        let mut r: Vec<String> = Vec::new();
        r.push(String::from_str("--moonshine-preprocessor=").concat(preprocessor));
        r.push(String::from_str("--moonshine-encoder=").concat(encoder));
        r.push(String::from_str("--moonshine-uncached-decoder=").concat(uncached_decoder));
        r.push(String::from_str("--moonshine-cached-decoder=").concat(cached_decoder));
        r.push(String::from_str("--tokens=").concat(tokens));
        r.push(String::from_str("--num-threads=4"));
        r.push(String::from_str(audio_path));
        r
    }

    /// Where a model id downloads from; unknown ids fall back to tiny.
    pub fn get_model_url(model: &str) -> (r: &'static str)
        ensures
            r@ == (if model@ == "base"@ {
                MOONSHINE_BASE_URL@
            } else {
                MOONSHINE_TINY_URL@
            }),
    {
        if str_eq(model, "base") {
            MOONSHINE_BASE_URL
        } else {
            MOONSHINE_TINY_URL
        }
    }

    /// This engine's model directory under the shared model root.
    pub fn get_models_dir(models_root: &str) -> (r: String)
        ensures
            r@ == models_root@ + seq!['/'] + "moonshine"@,
    {
        crate::managers::path_join(models_root, "moonshine")
    }

    /// Whether the probe found the model's marker file.
    pub fn is_model_installed(&self, probe: &EngineProbe, model: &str) -> (r: bool)
        ensures
            r == probe.spec_has_model(model@),
    {
        probe.has_model(model)
    }

    /// The five files a model directory must hold, in the order the runtime
    /// takes them.
    pub fn get_model_paths(model_dir: &str) -> (r: (String, String, String, String, String))
        ensures
            r.0@ == model_dir@ + seq!['/'] + "preprocess.onnx"@,
            r.1@ == model_dir@ + seq!['/'] + "encode.int8.onnx"@,
            r.2@ == model_dir@ + seq!['/'] + "uncached_decode.int8.onnx"@,
            r.3@ == model_dir@ + seq!['/'] + "cached_decode.int8.onnx"@,
            r.4@ == model_dir@ + seq!['/'] + "tokens.txt"@,
    {
        (
            crate::managers::path_join(model_dir, "preprocess.onnx"),
            crate::managers::path_join(model_dir, "encode.int8.onnx"),
            crate::managers::path_join(model_dir, "uncached_decode.int8.onnx"),
            crate::managers::path_join(model_dir, "cached_decode.int8.onnx"),
            crate::managers::path_join(model_dir, "tokens.txt"),
        )
    }

    pub fn new() -> (r: MoonshineEngine) {
        MoonshineEngine
    }

    pub fn id(&self) -> (r: &'static str)
        ensures
            r@ == "moonshine"@,
    {
        "moonshine"
    }

    pub fn name(&self) -> (r: &'static str)
        ensures
            r@ == "Moonshine"@,
    {
        "Moonshine"
    }

    pub fn description(&self) -> (r: &'static str)
        ensures
            r@ == "Fast ONNX engine (5-15x realtime)"@,
    {
        "Fast ONNX engine (5-15x realtime)"
    }

    pub fn gpu_required(&self) -> (r: bool)
        ensures
            r == false,
    {
        false
    }

    /// The directory a model unpacks into; unknown ids fall back to tiny.
    pub fn get_model_dir_name(model: &str) -> (r: &'static str)
        ensures
            r@ == spec_moonshine_model_dir(model@),
    {
        if str_eq(model, "tiny") {
            "sherpa-onnx-moonshine-tiny-en-int8"
        } else if str_eq(model, "base") {
            "sherpa-onnx-moonshine-base-en-int8"
        } else {
            "sherpa-onnx-moonshine-tiny-en-int8"
        }
    }

    pub fn speed_multiplier(&self, model: &str) -> (r: (u64, u64))
        ensures
            r == (if model@ == "tiny"@ {
                (500u64, 150u64)
            } else {
                (300u64, 100u64)
            }),
    {
        if str_eq(model, "tiny") {
            (500, 150)
        } else {
            (300, 100)
        }
    }

    pub fn supported_languages(&self) -> (r: Vec<&'static str>)
        ensures
            r@.len() == 1,
            r@[0]@ == "en"@,
    {
        let mut v: Vec<&'static str> = Vec::new();
        v.push("en");
        v
    }

    /// Available only when the runtime binary and at least one model are on
    /// disk.
    pub fn is_available(&self, probe: &EngineProbe) -> (r: bool)
        ensures
            r == (probe.runtime_installed && (probe.spec_has_model("tiny"@)
                || probe.spec_has_model("base"@))),
    {
        probe.runtime_installed && (probe.has_model("tiny") || probe.has_model("base"))
    }

    pub fn available_models(&self, probe: &EngineProbe) -> (r: Vec<TranscriptionModel>)
        ensures
            r@.len() == 2,
            r@[0].id@ == "tiny"@ && r@[0].size@ == "35 MB"@ && r@[0].installed
                == probe.spec_has_model("tiny"@) && r@[0].speed_gpu_tenths == 500
                && r@[0].speed_cpu_tenths == 150,
            r@[1].id@ == "base"@ && r@[1].size@ == "70 MB"@ && r@[1].installed
                == probe.spec_has_model("base"@) && r@[1].speed_gpu_tenths == 300
                && r@[1].speed_cpu_tenths == 100,
    {
        let mut r: Vec<TranscriptionModel> = Vec::new();
        r.push(
            TranscriptionModel {
                id: String::from_str("tiny"),
                name: String::from_str("Tiny (int8)"),
                size: String::from_str("35 MB"),
                installed: probe.has_model("tiny"),
                speed_gpu_tenths: 500,
                speed_cpu_tenths: 150,
            },
        );
        r.push(
            TranscriptionModel {
                id: String::from_str("base"),
                name: String::from_str("Base (int8)"),
                size: String::from_str("70 MB"),
                installed: probe.has_model("base"),
                speed_gpu_tenths: 300,
                speed_cpu_tenths: 100,
            },
        );
        r
    }
}

impl MoonshineEngine {
    /// The full descriptor, recomputed from the probe on every call. This
    /// engine answers GPU probes positively: it runs on either.
    pub fn get_info(&self, probe: &EngineProbe) -> (r: EngineInfo)
        ensures
            r.id@ == "moonshine"@,
            r.name@ == "Moonshine"@,
            r.description@ == "Fast ONNX engine (5-15x realtime)"@,
            r.gpu_required == false,
            r.gpu_available == true,
            ({
                let avail = probe.runtime_installed && (probe.spec_has_model("tiny"@)
                    || probe.spec_has_model("base"@));
                if avail {
                    r.status is Available
                } else {
                    r.status is NotInstalled
                }
            }),
            r.languages@.len() == 1 && r.languages@[0]@ == "en"@,
            r.models@.len() == 2,
    {
        let available = self.is_available(probe);
        let mut languages: Vec<String> = Vec::new();
        languages.push(String::from_str("en"));
        EngineInfo {
            id: String::from_str("moonshine"),
            name: String::from_str("Moonshine"),
            description: String::from_str("Fast ONNX engine (5-15x realtime)"),
            status: engine_status(available, false, true),
            gpu_required: false,
            gpu_available: true,
            languages,
            models: self.available_models(probe),
        }
    }
}

/// The GPU-oriented engine run through an external interpreter script, with
/// token and timestamp output.
pub struct ParakeetEngine;

/// Where the GPU engine's model is published.
pub const PARAKEET_V3_URL: &'static str = "https://github.com/k2-fsa/sherpa-onnx/releases/download/asr-models/sherpa-onnx-nemo-parakeet-tdt-0.6b-v3-int8.tar.bz2";

pub const PARAKEET_LANGUAGES: [&'static str; 25] = ["en", "de", "es", "fr", "it", "pt", "nl", "pl", "ru", "uk", "cs", "da", "fi", "el", "hu", "no", "ro", "sk", "sl", "sv", "bg", "ca", "hr", "lt", "lv"];

impl ParakeetEngine {
    pub fn new() -> (r: ParakeetEngine) {
        ParakeetEngine
    }

    pub fn id(&self) -> (r: &'static str)
        ensures
            r@ == "parakeet"@,
    {
        "parakeet"
    }

    pub fn name(&self) -> (r: &'static str)
        ensures
            r@ == "Parakeet TDT"@,
    {
        "Parakeet TDT"
    }

    pub fn description(&self) -> (r: &'static str)
        ensures
            r@ == "Fast GPU engine (~12x realtime)"@,
    {
        "Fast GPU engine (~12x realtime)"
    }

    pub fn gpu_required(&self) -> (r: bool)
        ensures
            r == false,
    {
        false
    }

    pub fn get_model_dir_name(model: &str) -> (r: &'static str)
        ensures
            r@ == "sherpa-onnx-nemo-parakeet-tdt-0.6b-v3-int8"@,
    {
        let _ = model;
        "sherpa-onnx-nemo-parakeet-tdt-0.6b-v3-int8"
    }

    /// Every model id downloads the one published archive.
    pub fn get_model_url(model: &str) -> (r: &'static str)
        ensures
            r@ == PARAKEET_V3_URL@,
    {
        let _ = model;
        PARAKEET_V3_URL
    }

    /// This engine's model directory under the shared model root.
    pub fn get_models_dir(models_root: &str) -> (r: String)
        ensures
            r@ == models_root@ + seq!['/'] + "parakeet"@,
    {
        crate::managers::path_join(models_root, "parakeet")
    }

    /// Whether the probe found the model's marker file.
    pub fn is_model_installed(&self, probe: &EngineProbe, model: &str) -> (r: bool)
        ensures
            r == probe.spec_has_model(model@),
    {
        probe.has_model(model)
    }

    /// The four files a model directory must hold, in the order the runtime
    /// takes them.
    pub fn get_model_paths(model_dir: &str) -> (r: (String, String, String, String))
        ensures
            r.0@ == model_dir@ + seq!['/'] + "encoder.int8.onnx"@,
            r.1@ == model_dir@ + seq!['/'] + "decoder.int8.onnx"@,
            r.2@ == model_dir@ + seq!['/'] + "joiner.int8.onnx"@,
            r.3@ == model_dir@ + seq!['/'] + "tokens.txt"@,
    {
        (
            crate::managers::path_join(model_dir, "encoder.int8.onnx"),
            crate::managers::path_join(model_dir, "decoder.int8.onnx"),
            crate::managers::path_join(model_dir, "joiner.int8.onnx"),
            crate::managers::path_join(model_dir, "tokens.txt"),
        )
    }

    pub fn speed_multiplier(&self, model: &str) -> (r: (u64, u64))
        ensures
            r == (120u64, 50u64),
    {
        let _ = model;
        (120, 50)
    }

    pub fn supported_languages(&self) -> (r: Vec<&'static str>)
        ensures
            r@ =~= PARAKEET_LANGUAGES@,
    {
        array_to_vec_25(&PARAKEET_LANGUAGES)
    }

    /// Available when the interpreter script is staged and the model is on
    /// disk.
    pub fn is_available(&self, probe: &EngineProbe) -> (r: bool)
        ensures
            r == (probe.runtime_installed && probe.spec_has_model("0.6b"@)),
    {
        probe.runtime_installed && probe.has_model("0.6b")
    }

    pub fn available_models(&self, probe: &EngineProbe) -> (r: Vec<TranscriptionModel>)
        ensures
            r@.len() == 1,
            r@[0].id@ == "0.6b"@ && r@[0].size@ == "700 MB"@ && r@[0].installed
                == probe.spec_has_model("0.6b"@) && r@[0].speed_gpu_tenths == (
            if probe.gpu_available {
                120u64
            } else {
                50u64
            }) && r@[0].speed_cpu_tenths == 50,
    {
        let mut r: Vec<TranscriptionModel> = Vec::new();
        let gpu_speed: u64 = if probe.gpu_available {
            120
        } else {
            50
        };
        r.push(
            TranscriptionModel {
                id: String::from_str("0.6b"),
                name: String::from_str("0.6B v3 (int8)"),
                size: String::from_str("700 MB"),
                installed: probe.has_model("0.6b"),
                speed_gpu_tenths: gpu_speed,
                speed_cpu_tenths: 50,
            },
        );
        r
    }
}

impl ParakeetEngine {
    /// The inference provider to request: the GPU one when a compatible
    /// GPU answered the probe.
    pub fn provider_for(gpu_available: bool) -> (r: &'static str)
        ensures
            gpu_available ==> r@ == "cuda"@,
            !gpu_available ==> r@ == "cpu"@,
    {
        if gpu_available {
            "cuda"
        } else {
            "cpu"
        }
    }

    /// The interpreter invocation for one audio file: the script, the three
    /// model stages, the token table, the provider, a fixed thread count,
    /// then the audio.
    pub fn build_transcribe_args(
        script: &str,
        encoder: &str,
        decoder: &str,
        joiner: &str,
        tokens: &str,
        provider: &str,
        audio_path: &str,
    ) -> (r: Vec<String>)
        ensures
            r@.map_values(|s: String| s@) =~= seq![
                script@,
                "--encoder="@ + encoder@,
                "--decoder="@ + decoder@,
                "--joiner="@ + joiner@,
                "--tokens="@ + tokens@,
                "--provider="@ + provider@,
                "--num-threads=4"@,
                audio_path@,
            ],
    {
        let mut r: Vec<String> = Vec::new();
        r.push(String::from_str(script));
        r.push(String::from_str("--encoder=").concat(encoder));
        r.push(String::from_str("--decoder=").concat(decoder));
        r.push(String::from_str("--joiner=").concat(joiner));
        r.push(String::from_str("--tokens=").concat(tokens));
        r.push(String::from_str("--provider=").concat(provider));
        r.push(String::from_str("--num-threads=4"));
        r.push(String::from_str(audio_path));
        r
    }

    /// Builds the SRT caption text from this engine's token and offset
    /// output: tokens grouped greedily into captions and rendered.
    pub fn generate_srt_with_timestamps(&self, tokens: &Vec<String>, offsets_ms: &Vec<u64>) -> (r:
        String)
        requires
            forall|i: int|
                0 <= i < offsets_ms@.len() ==> (#[trigger] offsets_ms@[i]) <= u64::MAX - 500,
        ensures
            tokens@.len() == 0 || offsets_ms@.len() == 0 ==> r@.len() == 0,
            tokens@.len() > 0 && offsets_ms@.len() > 0 ==> ({
                let groups = crate::grouping::spec_groups(
                    tokens@.map_values(|t: String| t@),
                    offsets_ms@.map_values(|o: u64| o as nat),
                );
                r@ == crate::captions::spec_render_captions(
                    Seq::new(
                        groups.len(),
                        |i: int| (groups[i].start_ms, groups[i].end_ms, groups[i].text),
                    ),
                )
            }),
    {
        let caps = crate::grouping::captions_from_tokens(tokens, offsets_ms);
        let r = crate::captions::render_captions(&caps);
        proof {
            if offsets_ms@.len() == 0 {
                assert(caps@.map_values(|c: crate::captions::Caption| c@)
                    =~= Seq::<(nat, nat, Seq<char>)>::empty());
                assert(crate::captions::spec_render_captions(
                    Seq::<(nat, nat, Seq<char>)>::empty(),
                ) =~= Seq::<char>::empty());
            } else {
                let groups = crate::grouping::spec_groups(
                    tokens@.map_values(|t: String| t@),
                    offsets_ms@.map_values(|o: u64| o as nat),
                );
                assert(caps@.map_values(|c: crate::captions::Caption| c@) =~= Seq::new(
                    groups.len(),
                    |i: int| (groups[i].start_ms, groups[i].end_ms, groups[i].text),
                ));
                if tokens@.len() == 0 {
                    assert(caps@.map_values(|c: crate::captions::Caption| c@)
                        =~= Seq::<(nat, nat, Seq<char>)>::empty());
                    assert(crate::captions::spec_render_captions(
                        Seq::<(nat, nat, Seq<char>)>::empty(),
                    ) =~= Seq::<char>::empty());
                }
            }
        }
        r
    }
}

/// The legacy CLI engine: shells out to a dedicated binary and scrapes its
/// textual progress stream.
pub struct WhisperCppEngine;

impl WhisperCppEngine {
    pub fn new() -> (r: WhisperCppEngine) {
        WhisperCppEngine
    }

    /// The command to run: the managed binary when the caller found one on
    /// disk, else the tool name resolved on the search path.
    pub fn get_command(managed: Option<String>) -> (r: String)
        ensures
            managed matches Some(p) ==> r@ == p@,
            managed is None ==> r@ == "whisper"@,
    {
        match managed {
            Some(p) => p,
            None => String::from_str("whisper"),
        }
    }

    pub fn id(&self) -> (r: &'static str)
        ensures
            r@ == "whisper_cpp"@,
    {
        "whisper_cpp"
    }

    pub fn name(&self) -> (r: &'static str)
        ensures
            r@ == "Whisper.cpp"@,
    {
        "Whisper.cpp"
    }

    pub fn description(&self) -> (r: &'static str)
        ensures
            r@ == "Portable, multilingual (2-8x realtime)"@,
    {
        "Portable, multilingual (2-8x realtime)"
    }

    pub fn gpu_required(&self) -> (r: bool)
        ensures
            r == false,
    {
        false
    }

    pub fn speed_multiplier(&self, model: &str) -> (r: (u64, u64))
        ensures
            r == (if model@ == "tiny"@ {
                (120u64, 80u64)
            } else if model@ == "base"@ {
                (80u64, 50u64)
            } else if model@ == "small"@ {
                (40u64, 25u64)
            } else {
                (50u64, 30u64)
            }),
    {
        if str_eq(model, "tiny") {
            (120, 80)
        } else if str_eq(model, "base") {
            (80, 50)
        } else if str_eq(model, "small") {
            (40, 25)
        } else {
            (50, 30)
        }
    }

    /// Available when the dedicated binary is on disk.
    pub fn is_available(&self, probe: &EngineProbe) -> (r: bool)
        ensures
            r == probe.runtime_installed,
    {
        probe.runtime_installed
    }
}

fn array_to_vec_99(a: &[&'static str; 99]) -> (r: Vec<&'static str>)
    ensures
        r@ =~= a@,
{
    let mut r: Vec<&'static str> = Vec::new();
    for i in 0..99usize
        invariant
            r@ =~= a@.subrange(0, i as int),
    {
        r.push(a[i]);
        proof {
            assert(a@.subrange(0, i as int).push(a@[i as int]) =~= a@.subrange(0, i + 1));
        }
    }
    proof {
        assert(a@.subrange(0, 99) =~= a@);
    }
    r
}

fn array_to_vec_25(a: &[&'static str; 25]) -> (r: Vec<&'static str>)
    ensures
        r@ =~= a@,
{
    let mut r: Vec<&'static str> = Vec::new();
    for i in 0..25usize
        invariant
            r@ =~= a@.subrange(0, i as int),
    {
        r.push(a[i]);
        proof {
            assert(a@.subrange(0, i as int).push(a@[i as int]) =~= a@.subrange(0, i + 1));
        }
    }
    proof {
        assert(a@.subrange(0, 25) =~= a@);
    }
    r
}

/// The engines the dispatcher offers, in preference order: the native GPU
/// engine first, the lightweight engine as fallback.
pub struct TranscriptionDispatcher;

/// An engine resolved by id.
pub enum EngineChoice {
    WhisperRs(WhisperRsEngine),
    Moonshine(MoonshineEngine),
}

impl TranscriptionDispatcher {
    pub fn new() -> (r: TranscriptionDispatcher) {
        TranscriptionDispatcher
    }

    /// Resolves an engine by its stable id.
    pub fn get_engine(&self, id: &str) -> (r: Option<EngineChoice>)
        ensures
            ({
                if id@ == "whisper_rs"@ {
                    r matches Some(e) && e is WhisperRs
                } else if id@ == "moonshine"@ {
                    r matches Some(e) && e is Moonshine
                } else {
                    r is None
                }
            }),
    {
        if str_eq(id, "whisper_rs") {
            Some(EngineChoice::WhisperRs(WhisperRsEngine::new()))
        } else if str_eq(id, "moonshine") {
            Some(EngineChoice::Moonshine(MoonshineEngine::new()))
        } else {
            None
        }
    }

    /// The descriptors of every offered engine, in preference order, each
    /// recomputed from its probe.
    pub fn get_engine_infos(&self, whisper_probe: &EngineProbe, moonshine_probe: &EngineProbe) -> (r: Vec<EngineInfo>)
        ensures
            r@.len() == 2,
            r@[0].id@ == "whisper_rs"@,
            r@[1].id@ == "moonshine"@,
    {
        let mut r: Vec<EngineInfo> = Vec::new();
        r.push(WhisperRsEngine::new().get_info(whisper_probe));
        r.push(MoonshineEngine::new().get_info(moonshine_probe));
        r
    }

    /// The speed figure shown for an ETA, in tenths: the selected engine's
    /// figure for the model on the hardware at hand, or a fixed fallback
    /// for an unknown engine.
    pub fn get_speed_multiplier(&self, engine_id: &str, model_id: &str, use_gpu: bool) -> (r: u64)
        ensures
            ({
                if engine_id@ == "whisper_rs"@ {
                    r == (if use_gpu {
                        spec_whisper_rs_speed(model_id@).0
                    } else {
                        spec_whisper_rs_speed(model_id@).1
                    })
                } else if engine_id@ == "moonshine"@ {
                    r == (if model_id@ == "tiny"@ {
                        if use_gpu {
                            500u64
                        } else {
                            150u64
                        }
                    } else {
                        if use_gpu {
                            300u64
                        } else {
                            100u64
                        }
                    })
                } else {
                    r == 50u64
                }
            }),
    {
        match self.get_engine(engine_id) {
            Some(EngineChoice::WhisperRs(e)) => {
                let (gpu, cpu) = e.speed_multiplier(model_id);
                if use_gpu {
                    gpu
                } else {
                    cpu
                }
            },
            Some(EngineChoice::Moonshine(e)) => {
                let (gpu, cpu) = e.speed_multiplier(model_id);
                if use_gpu {
                    gpu
                } else {
                    cpu
                }
            },
            None => 50,
        }
    }

    /// The ids of the engines offered, in order.
    pub fn engine_ids(&self) -> (r: Vec<&'static str>)
        ensures
            r@.len() == 2,
            r@[0]@ == "whisper_rs"@,
            r@[1]@ == "moonshine"@,
    {
        let mut v: Vec<&'static str> = Vec::new();
        v.push("whisper_rs");
        v.push("moonshine");
        v
    }
}

/// Checks that the selected model's files were found before any external
/// work is started: a missing model fails immediately with the
/// model-not-installed condition — no partial attempt.
pub fn model_installed_gate(model: &str, installed: bool) -> (r: Result<(), TranscribeError>)
    ensures
        installed <==> r is Ok,
        !installed ==> (r matches Err(e) && e matches TranscribeError::NotInstalled(m) && m@
            == "Model '"@ + model@ + "' is not installed. Please download it first."@),
{
    if installed {
        Ok(())
    } else {
        let msg = String::from_str("Model '").concat(model).concat(
            "' is not installed. Please download it first.",
        );
        Err(TranscribeError::NotInstalled(msg))
    }
}

/// Checks one staged model file the same way: a missing file fails
/// immediately with the model-not-installed condition.
pub fn model_file_gate(name: &str, present: bool) -> (r: Result<(), TranscribeError>)
    ensures
        present <==> r is Ok,
        !present ==> (r matches Err(e) && e matches TranscribeError::NotInstalled(m) && m@
            == "Model file '"@ + name@ + "' not found. Please download the model first."@),
{
    if present {
        Ok(())
    } else {
        let msg = String::from_str("Model file '").concat(name).concat(
            "' not found. Please download the model first.",
        );
        Err(TranscribeError::NotInstalled(msg))
    }
}

/// Checks that the selected engine exists and is ready before any external
/// work is started: an unknown id is `NotFound`, a known engine whose probe
/// shows it unusable fails with `NotInstalled` or `Unavailable` before any
/// subprocess is spawned.
pub fn pre_transcribe_check(engine_id: &str, probe: &EngineProbe) -> (r: Result<
    EngineChoice,
    TranscribeError,
>)
    ensures
        ({
            if engine_id@ == "whisper_rs"@ {
                let avail = probe.spec_has_model("tiny"@) || probe.spec_has_model("base"@)
                    || probe.spec_has_model("small"@) || probe.spec_has_model("medium"@)
                    || probe.spec_has_model("large-v3"@);
                if avail {
                    r matches Ok(e) && e is WhisperRs
                } else {
                    r matches Err(e) && e matches TranscribeError::NotInstalled(m) && m@
                        == "Engine '"@ + engine_id@ + "' is not installed"@
                }
            } else if engine_id@ == "moonshine"@ {
                let avail = probe.runtime_installed && (probe.spec_has_model("tiny"@)
                    || probe.spec_has_model("base"@));
                if avail {
                    r matches Ok(e) && e is Moonshine
                } else {
                    r matches Err(e) && e matches TranscribeError::NotInstalled(m) && m@
                        == "Engine '"@ + engine_id@ + "' is not installed"@
                }
            } else {
                r matches Err(e) && e matches TranscribeError::NotFound(m) && m@ == "Engine '"@
                    + engine_id@ + "' not found"@
            }
        }),
{
    let dispatcher = TranscriptionDispatcher::new();
    let resolved = dispatcher.get_engine(engine_id);
    match resolved {
        None => {
            let msg = String::from_str("Engine '").concat(engine_id).concat("' not found");
            Err(TranscribeError::NotFound(msg))
        },
        Some(engine) => {
            let available = match &engine {
                EngineChoice::WhisperRs(e) => e.is_available(probe),
                EngineChoice::Moonshine(e) => e.is_available(probe),
            };
            if available {
                Ok(engine)
            } else {
                let msg = String::from_str("Engine '").concat(engine_id).concat(
                    "' is not installed",
                );
                Err(TranscribeError::NotInstalled(msg))
            }
        },
    }
}

} // verus!
