//! The persisted application preferences. Reading and writing the file is
//! the shell's concern; the defaults and the record itself are fixed here.

use vstd::prelude::*;
use crate::managers::{download_dir, home_dir};

verus! {

/// The saved preferences: where output lands, the preferred container and
/// quality, the theme, and which engine and model caption new fetches.
pub struct AppConfig {
    pub output_dir: String,
    pub default_format: String,
    pub default_quality: String,
    pub theme: String,
    pub generate_subtitles: bool,
    pub whisper_model: String,
    pub transcription_engine: String,
    pub transcription_model: String,
    pub network_interface: Option<String>,
}

pub fn default_whisper_model() -> (r: String)
    ensures
        r@ == "base"@,
{
    String::from_str("base")
}

pub fn default_transcription_engine() -> (r: String)
    ensures
        r@ == "whisper_cpp"@,
{
    String::from_str("whisper_cpp")
}

pub fn default_transcription_model() -> (r: String)
    ensures
        r@ == "base"@,
{
    String::from_str("base")
}

impl Default for AppConfig {
    /// Fresh preferences: output to the user's download directory (falling
    /// back to the home directory, then the working directory), `mp4` at
    /// best quality, the system theme, captioning off with the base model
    /// of the default engine selected.
    fn default() -> (r: AppConfig)
        ensures
            r.default_format@ == "mp4"@,
            r.default_quality@ == "best"@,
            r.theme@ == "system"@,
            r.generate_subtitles == false,
            r.whisper_model@ == "base"@,
            r.transcription_engine@ == "whisper_cpp"@,
            r.transcription_model@ == "base"@,
            r.network_interface is None,
    {
        let output_dir = match download_dir() {
            Some(d) => d,
            None => match home_dir() {
                Some(h) => h,
                None => String::from_str("."),
            },
        };
        AppConfig {
            output_dir,
            default_format: String::from_str("mp4"),
            default_quality: String::from_str("best"),
            theme: String::from_str("system"),
            generate_subtitles: false,
            whisper_model: default_whisper_model(),
            transcription_engine: default_transcription_engine(),
            transcription_model: default_transcription_model(),
            network_interface: None,
        }
    }
}

} // verus!
