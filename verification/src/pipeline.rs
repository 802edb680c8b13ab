//! The transcription orchestrator's decisions: the stage gates where
//! cancellation is observed, the caption-codec rule per output container,
//! the exact external-tool invocations, the sibling paths the pipeline
//! writes, the chunk session for long audio, and the policy that maps a
//! pipeline outcome onto the task table.

use vstd::prelude::*;
use crate::captions::{Caption, render_captions, spec_proportional_captions, spec_render_captions, spec_trim, trim_chars};
use crate::text::str_eq;
use crate::errors::TranscribeError;
use crate::segments::{Chunk, Segment, plan_chunks, merge_chunk_segments, sort_segments_by_start, spec_merge, spec_num_chunks, spec_sorted_by_start};
use crate::tasks::{TaskKind, TaskOutcome};
use crate::text::{chars_to_string, push_chars, push_digits, push_three_digits, spec_digits, spec_three_digits, str_to_chars};

verus! {

/// Chunk length for long-audio inference, in milliseconds.
pub const CHUNK_DURATION_MS: u64 = 300000;

/// Overlap between consecutive chunks, in milliseconds.
pub const CHUNK_OVERLAP_MS: u64 = 2000;

/// The per-call context limit of the lightweight engine, in milliseconds.
pub const SHORT_CHUNK_DURATION_MS: u64 = 30000;

/// The fallback duration assumed when probing fails, in milliseconds.
pub const FALLBACK_DURATION_MS: u64 = 60000;

/// The pipeline phases reported while a task runs. `Complete` is consumed
/// by the forwarder and never re-published.
pub enum Stage {
    Extracting,
    Preparing,
    Transcribing,
    Embedding,
    Finalizing,
    Complete,
}

impl Stage {
    pub open spec fn spec_text(&self) -> Seq<char> {
        match self {
            Stage::Extracting => "extracting"@,
            Stage::Preparing => "preparing"@,
            Stage::Transcribing => "transcribing"@,
            Stage::Embedding => "embedding"@,
            Stage::Finalizing => "finalizing"@,
            Stage::Complete => "complete"@,
        }
    }

    pub fn text(&self) -> (r: String)
        ensures
            r@ == self.spec_text(),
    {
        match self {
            Stage::Extracting => String::from_str("extracting"),
            Stage::Preparing => String::from_str("preparing"),
            Stage::Transcribing => String::from_str("transcribing"),
            Stage::Embedding => String::from_str("embedding"),
            Stage::Finalizing => String::from_str("finalizing"),
            Stage::Complete => String::from_str("complete"),
        }
    }
}

/// The cancellation gate stood at every stage boundary: once the flag is
/// observed the pipeline stops with the distinguishable `Cancelled` outcome,
/// never a generic error.
pub fn cancel_gate(cancel_requested: bool) -> (r: Result<(), TranscribeError>)
    ensures
        cancel_requested <==> (r matches Err(e) && e is Cancelled),
        !cancel_requested <==> r is Ok,
{
    if cancel_requested {
        Err(TranscribeError::Cancelled)
    } else {
        Ok(())
    }
}

/// Fails fast, with a user-facing message, when the media tool is absent.
pub fn media_tool_gate(ffmpeg_present: bool) -> (r: Result<(), TranscribeError>)
    ensures
        ffmpeg_present <==> r is Ok,
        !ffmpeg_present ==> (r matches Err(e) && e matches TranscribeError::NotInstalled(m)
            && m@ == "ffmpeg is required for subtitle generation but was not found. Please install ffmpeg."@),
{
    if ffmpeg_present {
        Ok(())
    } else {
        Err(TranscribeError::NotInstalled(String::from_str(
            "ffmpeg is required for subtitle generation but was not found. Please install ffmpeg.",
        )))
    }
}

/// ASCII letters lowered, all other characters kept.
pub open spec fn spec_lower_char(c: char) -> char {
    if 'A' <= c <= 'Z' {
        ((c as u8) + 32) as char
    } else {
        c
    }
}

pub fn ascii_lowercase(s: &str) -> (r: Vec<char>)
    ensures
        r@ == s@.map_values(|c: char| spec_lower_char(c)),
{
    let chars = str_to_chars(s);
    let mut r: Vec<char> = Vec::new();
    let n = chars.len();
    for i in 0..n
        invariant
            n == chars@.len(),
            chars@ == s@,
            r@ =~= s@.map_values(|c: char| spec_lower_char(c)).take(i as int),
    {
        let c = chars[i];
        if c >= 'A' && c <= 'Z' {
            r.push(((c as u8) + 32) as char);
        } else {
            r.push(c);
        }
        proof {
            let full = s@.map_values(|c: char| spec_lower_char(c));
            assert(full.take(i + 1) =~= full.take(i as int).push(full[i as int]));
        }
    }
    proof {
        let full = s@.map_values(|c: char| spec_lower_char(c));
        assert(full.take(n as int) =~= full);
    }
    r
}

/// The caption codec a container takes, and whether the track needs
/// conversion: WebVTT for `webm` (converted), SRT passed through for `mkv`,
/// and the MP4 text codec otherwise.
pub open spec fn spec_subtitle_codec(ext_lower: Seq<char>) -> (Seq<char>, bool) {
    if ext_lower == "webm"@ {
        ("webvtt"@, true)
    } else if ext_lower == "mkv"@ {
        ("srt"@, false)
    } else {
        ("mov_text"@, false)
    }
}

pub fn subtitle_codec_for_container(ext_lower: &str) -> (r: (&'static str, bool))
    ensures
        (r.0@, r.1) == spec_subtitle_codec(ext_lower@),
{
    if str_eq(ext_lower, "webm") {
        ("webvtt", true)
    } else if str_eq(ext_lower, "mkv") {
        ("srt", false)
    } else {
        ("mov_text", false)
    }
}

/// The three-letter code and display name recorded on the new caption
/// stream; unrecognized codes fall back to English.
pub open spec fn spec_language_metadata(l: Seq<char>) -> (Seq<char>, Seq<char>) {
    if l == "en"@ || l == "auto"@ {
        ("eng"@, "English"@)
    } else if l == "es"@ {
        ("spa"@, "Spanish"@)
    } else if l == "fr"@ {
        ("fra"@, "French"@)
    } else if l == "de"@ {
        ("deu"@, "German"@)
    } else if l == "it"@ {
        ("ita"@, "Italian"@)
    } else if l == "pt"@ {
        ("por"@, "Portuguese"@)
    } else if l == "ru"@ {
        ("rus"@, "Russian"@)
    } else if l == "zh"@ {
        ("zho"@, "Chinese"@)
    } else if l == "ja"@ {
        ("jpn"@, "Japanese"@)
    } else if l == "ko"@ {
        ("kor"@, "Korean"@)
    } else if l == "ar"@ {
        ("ara"@, "Arabic"@)
    } else if l == "hi"@ {
        ("hin"@, "Hindi"@)
    } else if l == "nl"@ {
        ("nld"@, "Dutch"@)
    } else if l == "pl"@ {
        ("pol"@, "Polish"@)
    } else if l == "tr"@ {
        ("tur"@, "Turkish"@)
    } else if l == "vi"@ {
        ("vie"@, "Vietnamese"@)
    } else if l == "th"@ {
        ("tha"@, "Thai"@)
    } else if l == "id"@ {
        ("ind"@, "Indonesian"@)
    } else if l == "uk"@ {
        ("ukr"@, "Ukrainian"@)
    } else if l == "cs"@ {
        ("ces"@, "Czech"@)
    } else if l == "sv"@ {
        ("swe"@, "Swedish"@)
    } else if l == "da"@ {
        ("dan"@, "Danish"@)
    } else if l == "fi"@ {
        ("fin"@, "Finnish"@)
    } else if l == "no"@ {
        ("nor"@, "Norwegian"@)
    } else if l == "he"@ {
        ("heb"@, "Hebrew"@)
    } else if l == "el"@ {
        ("ell"@, "Greek"@)
    } else if l == "hu"@ {
        ("hun"@, "Hungarian"@)
    } else if l == "ro"@ {
        ("ron"@, "Romanian"@)
    } else if l == "sk"@ {
        ("slk"@, "Slovak"@)
    } else if l == "bg"@ {
        ("bul"@, "Bulgarian"@)
    } else if l == "hr"@ {
        ("hrv"@, "Croatian"@)
    } else if l == "sr"@ {
        ("srp"@, "Serbian"@)
    } else if l == "sl"@ {
        ("slv"@, "Slovenian"@)
    } else if l == "et"@ {
        ("est"@, "Estonian"@)
    } else if l == "lv"@ {
        ("lav"@, "Latvian"@)
    } else if l == "lt"@ {
        ("lit"@, "Lithuanian"@)
    } else if l == "ms"@ {
        ("msa"@, "Malay"@)
    } else if l == "tl"@ {
        ("tgl"@, "Tagalog"@)
    } else {
        ("eng"@, "English"@)
    }
}

pub fn get_language_metadata(l: &str) -> (r: (&'static str, &'static str))
    ensures
        (r.0@, r.1@) == spec_language_metadata(l@),
{
    if str_eq(l, "en") || str_eq(l, "auto") {
        ("eng", "English")
    } else if str_eq(l, "es") {
        ("spa", "Spanish")
    } else if str_eq(l, "fr") {
        ("fra", "French")
    } else if str_eq(l, "de") {
        ("deu", "German")
    } else if str_eq(l, "it") {
        ("ita", "Italian")
    } else if str_eq(l, "pt") {
        ("por", "Portuguese")
    } else if str_eq(l, "ru") {
        ("rus", "Russian")
    } else if str_eq(l, "zh") {
        ("zho", "Chinese")
    } else if str_eq(l, "ja") {
        ("jpn", "Japanese")
    } else if str_eq(l, "ko") {
        ("kor", "Korean")
    } else if str_eq(l, "ar") {
        ("ara", "Arabic")
    } else if str_eq(l, "hi") {
        ("hin", "Hindi")
    } else if str_eq(l, "nl") {
        ("nld", "Dutch")
    } else if str_eq(l, "pl") {
        ("pol", "Polish")
    } else if str_eq(l, "tr") {
        ("tur", "Turkish")
    } else if str_eq(l, "vi") {
        ("vie", "Vietnamese")
    } else if str_eq(l, "th") {
        ("tha", "Thai")
    } else if str_eq(l, "id") {
        ("ind", "Indonesian")
    } else if str_eq(l, "uk") {
        ("ukr", "Ukrainian")
    } else if str_eq(l, "cs") {
        ("ces", "Czech")
    } else if str_eq(l, "sv") {
        ("swe", "Swedish")
    } else if str_eq(l, "da") {
        ("dan", "Danish")
    } else if str_eq(l, "fi") {
        ("fin", "Finnish")
    } else if str_eq(l, "no") {
        ("nor", "Norwegian")
    } else if str_eq(l, "he") {
        ("heb", "Hebrew")
    } else if str_eq(l, "el") {
        ("ell", "Greek")
    } else if str_eq(l, "hu") {
        ("hun", "Hungarian")
    } else if str_eq(l, "ro") {
        ("ron", "Romanian")
    } else if str_eq(l, "sk") {
        ("slk", "Slovak")
    } else if str_eq(l, "bg") {
        ("bul", "Bulgarian")
    } else if str_eq(l, "hr") {
        ("hrv", "Croatian")
    } else if str_eq(l, "sr") {
        ("srp", "Serbian")
    } else if str_eq(l, "sl") {
        ("slv", "Slovenian")
    } else if str_eq(l, "et") {
        ("est", "Estonian")
    } else if str_eq(l, "lv") {
        ("lav", "Latvian")
    } else if str_eq(l, "lt") {
        ("lit", "Lithuanian")
    } else if str_eq(l, "ms") {
        ("msa", "Malay")
    } else if str_eq(l, "tl") {
        ("tgl", "Tagalog")
    } else {
        ("eng", "English")
    }
}

/// Decimal seconds with exactly three fractional digits, as handed to the
/// media tool for seeking: `12345` milliseconds reads `12.345`.
pub open spec fn spec_seconds_text(ms: nat) -> Seq<char> {
    spec_digits(ms / 1000) + seq!['.'] + spec_three_digits(ms % 1000)
}

pub fn format_seconds(ms: u64) -> (r: String)
    ensures
        r@ == spec_seconds_text(ms as nat),
{
    let mut out: Vec<char> = Vec::new();
    push_digits(ms / 1000, &mut out);
    out.push('.');
    push_three_digits(ms % 1000, &mut out);
    proof {
        assert(out@ =~= spec_seconds_text(ms as nat));
    }
    chars_to_string(&out)
}

/// The invocation that extracts a 16 kHz mono PCM track from the source.
pub fn build_extract_audio_args(input: &str, output: &str) -> (r: Vec<String>)
    ensures
        r@.map_values(|s: String| s@) =~= seq![
            "-i"@,
            input@,
            "-vn"@,
            "-acodec"@,
            "pcm_s16le"@,
            "-ar"@,
            "16000"@,
            "-ac"@,
            "1"@,
            "-y"@,
            output@,
        ],
{
    let mut r: Vec<String> = Vec::new();
    r.push(String::from_str("-i"));
    r.push(String::from_str(input));
    r.push(String::from_str("-vn"));
    r.push(String::from_str("-acodec"));
    r.push(String::from_str("pcm_s16le"));
    r.push(String::from_str("-ar"));
    r.push(String::from_str("16000"));
    r.push(String::from_str("-ac"));
    r.push(String::from_str("1"));
    r.push(String::from_str("-y"));
    r.push(String::from_str(output));
    r
}

/// The invocation that extracts one time-bounded audio window, seeking
/// before the input for speed.
pub fn build_segment_extract_args(input: &str, output: &str, start_ms: u64, duration_ms: u64) -> (r:
    Vec<String>)
    ensures
        r@.map_values(|s: String| s@) =~= seq![
            "-y"@,
            "-ss"@,
            spec_seconds_text(start_ms as nat),
            "-i"@,
            input@,
            "-t"@,
            spec_seconds_text(duration_ms as nat),
            "-vn"@,
            "-acodec"@,
            "pcm_s16le"@,
            "-ar"@,
            "16000"@,
            "-ac"@,
            "1"@,
            output@,
        ],
{
    let mut r: Vec<String> = Vec::new();
    r.push(String::from_str("-y"));
    r.push(String::from_str("-ss"));
    r.push(format_seconds(start_ms));
    r.push(String::from_str("-i"));
    r.push(String::from_str(input));
    r.push(String::from_str("-t"));
    r.push(format_seconds(duration_ms));
    r.push(String::from_str("-vn"));
    r.push(String::from_str("-acodec"));
    r.push(String::from_str("pcm_s16le"));
    r.push(String::from_str("-ar"));
    r.push(String::from_str("16000"));
    r.push(String::from_str("-ac"));
    r.push(String::from_str("1"));
    r.push(String::from_str(output));
    r
}

/// The invocation that prints a source's duration in seconds.
pub fn build_probe_duration_args(input: &str) -> (r: Vec<String>)
    ensures
        r@.map_values(|s: String| s@) =~= seq![
            "-v"@,
            "error"@,
            "-show_entries"@,
            "format=duration"@,
            "-of"@,
            "default=noprint_wrappers=1:nokey=1"@,
            input@,
        ],
{
    let mut r: Vec<String> = Vec::new();
    r.push(String::from_str("-v"));
    r.push(String::from_str("error"));
    r.push(String::from_str("-show_entries"));
    r.push(String::from_str("format=duration"));
    r.push(String::from_str("-of"));
    r.push(String::from_str("default=noprint_wrappers=1:nokey=1"));
    r.push(String::from_str(input));
    r
}

/// The muxing invocation: the new caption track is mapped first, before any
/// pre-existing caption streams, and carries language metadata; for WebVTT
/// containers every caption stream is converted, elsewhere other streams
/// are copied.
pub fn build_mux_args(video: &str, srt: &str, output: &str, language: &str) -> (r: Vec<String>)
    ensures
        ({
            let ext = file_extension_of(output@).map_values(|c: char| spec_lower_char(c));
            let codec = spec_subtitle_codec(ext).0;
            let needs_conversion = spec_subtitle_codec(ext).1;
            let meta = spec_language_metadata(language@);
            if needs_conversion {
                r@.map_values(|s: String| s@) =~= seq![
                    "-i"@,
                    video@,
                    "-i"@,
                    srt@,
                    "-map"@,
                    "0:v?"@,
                    "-map"@,
                    "0:a?"@,
                    "-map"@,
                    "1:s"@,
                    "-map"@,
                    "0:s?"@,
                    "-c:v"@,
                    "copy"@,
                    "-c:a"@,
                    "copy"@,
                    "-c:s"@,
                    codec,
                    "-metadata:s:s:0"@,
                    "language="@ + meta.0,
                    "-metadata:s:s:0"@,
                    "title="@ + meta.1,
                    "-y"@,
                    output@,
                ]
            } else {
                r@.map_values(|s: String| s@) =~= seq![
                    "-i"@,
                    video@,
                    "-i"@,
                    srt@,
                    "-map"@,
                    "0:v?"@,
                    "-map"@,
                    "0:a?"@,
                    "-map"@,
                    "1:s"@,
                    "-map"@,
                    "0:s?"@,
                    "-c"@,
                    "copy"@,
                    "-c:s"@,
                    codec,
                    "-metadata:s:s:0"@,
                    "language="@ + meta.0,
                    "-metadata:s:s:0"@,
                    "title="@ + meta.1,
                    "-y"@,
                    output@,
                ]
            }
        }),
{
    let ext_chars = extension_chars(output);
    let mut lower: Vec<char> = Vec::new();
    let ne = ext_chars.len();
    for i in 0..ne
        invariant
            ne == ext_chars@.len(),
            lower@ =~= ext_chars@.map_values(|c: char| spec_lower_char(c)).take(i as int),
    {
        let c = ext_chars[i];
        if c >= 'A' && c <= 'Z' {
            lower.push(((c as u8) + 32) as char);
        } else {
            lower.push(c);
        }
        proof {
            let full = ext_chars@.map_values(|c: char| spec_lower_char(c));
            assert(full.take(i + 1) =~= full.take(i as int).push(full[i as int]));
        }
    }
    proof {
        let full = ext_chars@.map_values(|c: char| spec_lower_char(c));
        assert(full.take(ne as int) =~= full);
    }
    let ext_lower = chars_to_string(&lower);
    let (codec, needs_conversion) = subtitle_codec_for_container(ext_lower.as_str());
    let meta = get_language_metadata(language);
    let lang_meta = String::from_str("language=").concat(meta.0);
    let title_meta = String::from_str("title=").concat(meta.1);
    let mut r: Vec<String> = Vec::new();
    r.push(String::from_str("-i"));
    r.push(String::from_str(video));
    r.push(String::from_str("-i"));
    r.push(String::from_str(srt));
    r.push(String::from_str("-map"));
    r.push(String::from_str("0:v?"));
    r.push(String::from_str("-map"));
    r.push(String::from_str("0:a?"));
    r.push(String::from_str("-map"));
    r.push(String::from_str("1:s"));
    r.push(String::from_str("-map"));
    r.push(String::from_str("0:s?"));
    if needs_conversion {
        r.push(String::from_str("-c:v"));
        r.push(String::from_str("copy"));
        r.push(String::from_str("-c:a"));
        r.push(String::from_str("copy"));
    } else {
        r.push(String::from_str("-c"));
        r.push(String::from_str("copy"));
    }
    r.push(String::from_str("-c:s"));
    r.push(String::from_str(codec));
    r.push(String::from_str("-metadata:s:s:0"));
    r.push(lang_meta);
    r.push(String::from_str("-metadata:s:s:0"));
    r.push(title_meta);
    r.push(String::from_str("-y"));
    r.push(String::from_str(output));
    r
}

/// The characters after the final `.` of the final path component; empty
/// when there is no extension.
pub open spec fn file_extension_of(p: Seq<char>) -> Seq<char> {
    let name = p.skip(spec_last_slash(p) + 1);
    let d = spec_last_dot(name);
    if d <= 0 {
        seq![]
    } else {
        name.skip(d + 1)
    }
}

/// The final path component without its extension.
pub open spec fn file_stem_of(p: Seq<char>) -> Seq<char> {
    let name = p.skip(spec_last_slash(p) + 1);
    let d = spec_last_dot(name);
    if d <= 0 {
        name
    } else {
        name.take(d)
    }
}

/// Everything up to and including the final `/`; empty for a bare name.
pub open spec fn dir_prefix_of(p: Seq<char>) -> Seq<char> {
    p.take(spec_last_slash(p) + 1)
}

/// Index of the last `/`, or -1.
pub open spec fn spec_last_slash(p: Seq<char>) -> int
    decreases p.len(),
{
    if p.len() == 0 {
        -1
    } else if p.last() == '/' {
        p.len() - 1
    } else {
        spec_last_slash(p.drop_last())
    }
}

/// Index of the last `.`, or -1.
pub open spec fn spec_last_dot(p: Seq<char>) -> int
    decreases p.len(),
{
    if p.len() == 0 {
        -1
    } else if p.last() == '.' {
        p.len() - 1
    } else {
        spec_last_dot(p.drop_last())
    }
}

/// Scans backwards for the last occurrence of `needle`.
fn last_index_of(v: &Vec<char>, needle: char) -> (r: Option<usize>)
    ensures
        r matches Some(i) ==> i < v@.len() && v@.len() <= usize::MAX && v@[i as int] == needle
            && (forall|j: int| i < j < v@.len() ==> v@[j] != needle),
        r is None ==> forall|j: int| 0 <= j < v@.len() ==> v@[j] != needle,
{
    let n = v.len();
    let mut i = n;
    while i > 0
        invariant
            n == v@.len(),
            i <= n,
            forall|j: int| i <= j < v@.len() ==> v@[j] != needle,
        decreases i,
    {
        i = i - 1;
        if v[i] == needle {
            return Some(i);
        }
    }
    None
}

/// The sibling path `dir/stem` + `suffix`, next to `path`: how the caption
/// track, the muxed output and the backup name are derived from the source.
pub fn sibling_path(path: &str, suffix: &str) -> (r: String)
    ensures
        r@ == dir_prefix_of(path@) + file_stem_of(path@) + suffix@,
{
    let chars = str_to_chars(path);
    let n0 = chars.len();
    proof {
        lemma_last_slash_is_last_index(path@);
    }
    let slash = last_index_of(&chars, '/');
    let name_start: usize = match slash {
        Some(i) => i + 1,
        None => 0,
    };
    proof {
        assert(name_start as int == spec_last_slash(path@) + 1);
    }
    let mut name: Vec<char> = Vec::new();
    let n = chars.len();
    let mut k = name_start;
    while k < n
        invariant
            name_start <= k <= n,
            n == chars@.len(),
            chars@ == path@,
            name@ =~= path@.subrange(name_start as int, k as int),
        decreases n - k,
    {
        name.push(chars[k]);
        proof {
            assert(path@.subrange(name_start as int, k as int).push(path@[k as int])
                =~= path@.subrange(name_start as int, k + 1));
        }
        k = k + 1;
    }
    proof {
        assert(name@ =~= path@.skip(name_start as int));
        lemma_last_dot_is_last_index(name@);
    }
    let dot = last_index_of(&name, '.');
    let stem_len: usize = match dot {
        Some(i) if i > 0 => i,
        _ => name.len(),
    };
    proof {
        let d = spec_last_dot(path@.skip(name_start as int));
        assert(stem_len as int == if d <= 0 {
            path@.skip(name_start as int).len() as int
        } else {
            d
        });
    }
    let mut out: Vec<char> = Vec::new();
    let mut k2: usize = 0;
    while k2 < name_start
        invariant
            k2 <= name_start,
            name_start <= chars@.len(),
            chars@ == path@,
            out@ =~= path@.subrange(0, k2 as int),
        decreases name_start - k2,
    {
        out.push(chars[k2]);
        proof {
            assert(path@.subrange(0, k2 as int).push(path@[k2 as int]) =~= path@.subrange(
                0,
                k2 + 1,
            ));
        }
        k2 = k2 + 1;
    }
    proof {
        assert(out@ =~= dir_prefix_of(path@));
    }
    let ghost before_stem = out@;
    let mut k3: usize = 0;
    while k3 < stem_len
        invariant
            k3 <= stem_len,
            stem_len <= name@.len(),
            before_stem == out@.subrange(0, before_stem.len() as int) && out@ =~= before_stem
                + name@.subrange(0, k3 as int),
        decreases stem_len - k3,
    {
        out.push(name[k3]);
        proof {
            assert(name@.subrange(0, k3 as int).push(name@[k3 as int]) =~= name@.subrange(
                0,
                k3 + 1,
            ));
        }
        k3 = k3 + 1;
    }
    proof {
        assert(name@.subrange(0, stem_len as int) =~= file_stem_of(path@));
        assert(out@ =~= dir_prefix_of(path@) + file_stem_of(path@));
    }
    push_chars(suffix, &mut out);
    proof {
        assert(out@ =~= dir_prefix_of(path@) + file_stem_of(path@) + suffix@);
    }
    chars_to_string(&out)
}

/// The extension characters of `path`.
pub fn extension_chars(path: &str) -> (r: Vec<char>)
    ensures
        r@ == file_extension_of(path@),
{
    let chars = str_to_chars(path);
    let n0 = chars.len();
    proof {
        lemma_last_slash_is_last_index(path@);
    }
    let slash = last_index_of(&chars, '/');
    let name_start: usize = match slash {
        Some(i) => i + 1,
        None => 0,
    };
    proof {
        assert(name_start as int == spec_last_slash(path@) + 1);
    }
    let mut name: Vec<char> = Vec::new();
    let n = chars.len();
    let mut k = name_start;
    while k < n
        invariant
            name_start <= k <= n,
            n == chars@.len(),
            chars@ == path@,
            name@ =~= path@.subrange(name_start as int, k as int),
        decreases n - k,
    {
        name.push(chars[k]);
        proof {
            assert(path@.subrange(name_start as int, k as int).push(path@[k as int])
                =~= path@.subrange(name_start as int, k + 1));
        }
        k = k + 1;
    }
    proof {
        assert(name@ =~= path@.skip(name_start as int));
        lemma_last_dot_is_last_index(name@);
    }
    let dot = last_index_of(&name, '.');
    let mut r: Vec<char> = Vec::new();
    let ext_start: usize = match dot {
        Some(i) if i > 0 => i + 1,
        _ => {
            proof {
                assert(r@ =~= file_extension_of(path@));
            }
            return r;
        },
    };
    let mut k2 = ext_start;
    while k2 < name.len()
        invariant
            ext_start <= k2 <= name@.len(),
            r@ =~= name@.subrange(ext_start as int, k2 as int),
        decreases name@.len() - k2,
    {
        r.push(name[k2]);
        proof {
            assert(name@.subrange(ext_start as int, k2 as int).push(name@[k2 as int])
                =~= name@.subrange(ext_start as int, k2 + 1));
        }
        k2 = k2 + 1;
    }
    proof {
        assert(r@ =~= name@.skip(ext_start as int));
        assert(r@ =~= file_extension_of(path@));
    }
    r
}

/// The last-index characterisation of `spec_last_slash`.
proof fn lemma_last_slash_is_last_index(p: Seq<char>)
    ensures
        -1 <= spec_last_slash(p) < p.len(),
        spec_last_slash(p) >= 0 ==> p[spec_last_slash(p)] == '/',
        forall|j: int| spec_last_slash(p) < j < p.len() ==> p[j] != '/',
    decreases p.len(),
{
    if p.len() > 0 && p.last() != '/' {
        lemma_last_slash_is_last_index(p.drop_last());
        assert(forall|j: int| 0 <= j < p.len() - 1 ==> p.drop_last()[j] == p[j]);
    }
}

/// The last-index characterisation of `spec_last_dot`.
proof fn lemma_last_dot_is_last_index(p: Seq<char>)
    ensures
        -1 <= spec_last_dot(p) < p.len(),
        spec_last_dot(p) >= 0 ==> p[spec_last_dot(p)] == '.',
        forall|j: int| spec_last_dot(p) < j < p.len() ==> p[j] != '.',
    decreases p.len(),
{
    if p.len() > 0 && p.last() != '.' {
        lemma_last_dot_is_last_index(p.drop_last());
        assert(forall|j: int| 0 <= j < p.len() - 1 ==> p.drop_last()[j] == p[j]);
    }
}

/// Whether a planned window is too short to transcribe: windows under half
/// a second are skipped rather than extracted.
pub fn chunk_too_short(window_ms: u64) -> (r: bool)
    ensures
        r == (window_ms < 500),
{
    window_ms < 500
}

/// Whether audio of this length takes the chunked path.
pub fn should_chunk(duration_ms: u64) -> (r: bool)
    ensures
        r == (duration_ms > CHUNK_DURATION_MS),
{
    duration_ms > CHUNK_DURATION_MS
}

/// Whether the lightweight engine must chunk this audio.
pub fn should_chunk_short(duration_ms: u64) -> (r: bool)
    ensures
        r == (duration_ms > SHORT_CHUNK_DURATION_MS),
{
    duration_ms > SHORT_CHUNK_DURATION_MS
}

/// One chunked-inference run: the planned windows, the transcript
/// accumulated so far, and the next window to process.
pub struct ChunkSession {
    pub chunks: Vec<Chunk>,
    pub acc: Vec<Segment>,
    pub next: usize,
}

impl ChunkSession {
    /// Plans the windows for `total_ms` of audio using the standard chunk
    /// length and overlap.
    pub fn begin(total_ms: u64) -> (r: ChunkSession)
        requires
            total_ms <= u64::MAX - 300000,
        ensures
            r.chunks@.len() == spec_num_chunks(total_ms as nat, 300000, 2000),
            forall|i: int|
                0 <= i < r.chunks@.len() ==> (#[trigger] r.chunks@[i]).start_ms == i * 298000,
            forall|i: int|
                0 <= i < r.chunks@.len() - 1 ==> (#[trigger] r.chunks@[i]).duration_ms == 300000,
            r.chunks@[r.chunks@.len() - 1].duration_ms == total_ms - r.chunks@[r.chunks@.len()
                - 1].start_ms,
            r.acc@.len() == 0,
            r.next == 0,
    {
        let chunks = plan_chunks(total_ms, CHUNK_DURATION_MS, CHUNK_OVERLAP_MS);
        ChunkSession { chunks, acc: Vec::new(), next: 0 }
    }

    /// The window to process next, if any remains.
    pub fn current(&self) -> (r: Option<Chunk>)
        ensures
            self.next < self.chunks@.len() ==> (r matches Some(c) && c@ == self.chunks@[self.next
                as int]@),
            self.next >= self.chunks@.len() ==> r is None,
    {
        if self.next < self.chunks.len() {
            let c = &self.chunks[self.next];
            Some(Chunk { start_ms: c.start_ms, duration_ms: c.duration_ms })
        } else {
            None
        }
    }

    /// Folds one window's recognized segments, already offset to recording
    /// time, into the accumulated transcript. Segments whose text is empty
    /// or whitespace are screened out first, so only usable text ever
    /// accumulates; the reprocessed overlap keeps the fresh reading. A
    /// failed window hands an empty list and is simply skipped.
    pub fn record_chunk(&mut self, fresh: Vec<Segment>, boundary_ms: i64)
        requires
            old(self).next < old(self).chunks@.len(),
        ensures
            final(self).chunks@ == old(self).chunks@,
            final(self).next == old(self).next + 1,
            final(self).acc@.map_values(|s: Segment| s@) == spec_merge(
                old(self).acc@.map_values(|s: Segment| s@),
                fresh@.map_values(|s: Segment| s@).filter(
                    |s: (int, int, Seq<char>)| crate::segments::spec_has_text(s),
                ),
                boundary_ms as int,
            ),
    {
        let kept = crate::segments::retain_text_segments(&fresh);
        let merged = merge_chunk_segments(&self.acc, &kept, boundary_ms);
        self.acc = merged;
        let bound = self.chunks.len();
        proof {
            assert(self.next < bound);
        }
        self.next = self.next + 1;
    }

    /// Closes the run: if no window yielded any usable text — whitespace
    /// never accumulates — the whole run fails with the empty-transcript
    /// condition and no caption file may be written; otherwise it succeeds
    /// with the transcript ordered by start time.
    pub fn finish(self) -> (r: Result<Vec<Segment>, TranscribeError>)
        ensures
            self.acc@.len() == 0 <==> (r matches Err(e) && e is EmptyResult),
            self.acc@.len() > 0 <==> r is Ok,
            r matches Ok(segs) ==> {
                &&& spec_sorted_by_start(segs@.map_values(|s: Segment| s@))
                &&& segs@.map_values(|s: Segment| s@).to_multiset() == self.acc@.map_values(
                    |s: Segment| s@,
                ).to_multiset()
                &&& segs@.len() > 0
            },
    {
        if self.acc.len() == 0 {
            Err(TranscribeError::EmptyResult)
        } else {
            let ghost acc0 = self.acc@;
            let sorted = sort_segments_by_start(self.acc);
            proof {
                acc0.map_values(|s: Segment| s@).to_multiset_ensures();
                sorted@.map_values(|s: Segment| s@).to_multiset_ensures();
            }
            Ok(sorted)
        }
    }
}

/// Renders an ordered transcript as SRT caption text, trimming each
/// segment's text.
pub fn generate_srt_from_segments(segs: &Vec<Segment>) -> (r: String)
    requires
        forall|i: int|
            0 <= i < segs@.len() ==> 0 <= (#[trigger] segs@[i]).start_ms && 0
                <= segs@[i].end_ms,
    ensures
        r@ == spec_render_captions(
            segs@.map_values(
                |s: Segment| ((s.start_ms as nat), (s.end_ms as nat), spec_trim(s.text@)),
            ),
        ),
{
    let mut caps: Vec<Caption> = Vec::new();
    let n = segs.len();
    for i in 0..n
        invariant
            n == segs@.len(),
            forall|k: int|
                0 <= k < segs@.len() ==> 0 <= (#[trigger] segs@[k]).start_ms && 0
                    <= segs@[k].end_ms,
            caps@.map_values(|c: Caption| c@) =~= segs@.map_values(
                |s: Segment| ((s.start_ms as nat), (s.end_ms as nat), spec_trim(s.text@)),
            ).take(i as int),
    {
        let ghost prev = caps@.map_values(|c: Caption| c@);
        let tv = str_to_chars(segs[i].text.as_str());
        let trimmed = trim_chars(&tv);
        caps.push(
            Caption {
                start_ms: segs[i].start_ms as u64,
                end_ms: segs[i].end_ms as u64,
                text: chars_to_string(&trimmed),
            },
        );
        proof {
            let full = segs@.map_values(
                |s: Segment| ((s.start_ms as nat), (s.end_ms as nat), spec_trim(s.text@)),
            );
            assert(caps@.map_values(|c: Caption| c@) =~= prev.push(full[i as int]));
            assert(full.take(i + 1) =~= full.take(i as int).push(full[i as int]));
        }
    }
    proof {
        let full = segs@.map_values(
            |s: Segment| ((s.start_ms as nat), (s.end_ms as nat), spec_trim(s.text@)),
        );
        assert(full.take(n as int) =~= full);
    }
    render_captions(&caps)
}

/// Joins per-chunk plain-text transcripts with single spaces, as the
/// non-timestamped chunked path does.
pub fn join_transcripts(parts: &Vec<String>) -> (r: String)
    ensures
        r@ == spec_joined(parts@.map_values(|p: String| p@)),
{
    let mut out: Vec<char> = Vec::new();
    let n = parts.len();
    for i in 0..n
        invariant
            n == parts@.len(),
            out@ =~= spec_joined(parts@.map_values(|p: String| p@).take(i as int)),
    {
        if i > 0 {
            out.push(' ');
        }
        push_chars(parts[i].as_str(), &mut out);
        proof {
            let views = parts@.map_values(|p: String| p@);
            assert(views.take(i + 1).drop_last() =~= views.take(i as int));
            assert(views.take(i + 1).last() == views[i as int]);
        }
    }
    proof {
        let views = parts@.map_values(|p: String| p@);
        assert(views.take(n as int) =~= views);
    }
    chars_to_string(&out)
}

/// Texts joined with single spaces.
pub open spec fn spec_joined(parts: Seq<Seq<char>>) -> Seq<char>
    decreases parts.len(),
{
    if parts.len() == 0 {
        seq![]
    } else if parts.len() == 1 {
        parts[0]
    } else {
        spec_joined(parts.drop_last()) + seq![' '] + parts.last()
    }
}

/// Fails the non-timestamped path when inference yielded only whitespace,
/// otherwise succeeds with the duration-proportional caption text.
pub fn finish_plain_transcript(transcript: &str, duration_ms: u64) -> (r: Result<
    String,
    TranscribeError,
>)
    ensures
        spec_trim(transcript@).len() == 0 <==> (r matches Err(e) && e is EmptyResult),
        spec_trim(transcript@).len() > 0 <==> r is Ok,
        r matches Ok(srt) ==> srt@ == spec_render_captions(
            spec_proportional_captions(transcript@, duration_ms as nat),
        ),
{
    let chars = str_to_chars(transcript);
    let trimmed = trim_chars(&chars);
    if trimmed.len() == 0 {
        Err(TranscribeError::EmptyResult)
    } else {
        let caps = crate::captions::captions_from_text(transcript, duration_ms);
        Ok(render_captions(&caps))
    }
}

/// Maps how a pipeline run ended onto the task table's outcome policy: a
/// captioning failure on a remote fetch still delivers the media, completed
/// with a warning; any other failure is surfaced verbatim; cancellation is
/// never downgraded to an error.
pub fn pipeline_outcome(kind: TaskKind, failure: Option<&TranscribeError>) -> (r: TaskOutcome)
    ensures
        failure is None ==> r is Completed,
        failure matches Some(e) ==> match e {
            TranscribeError::Cancelled => r is Cancelled,
            _ => if kind is RemoteFetch {
                r matches TaskOutcome::CaptionFailed(m) && m@ == "Subtitle generation failed: "@
                    + e.spec_message()
            } else {
                r matches TaskOutcome::Failed(m) && m@ == e.spec_message()
            },
        },
{
    match failure {
        None => TaskOutcome::Completed,
        Some(e) => match e {
            TranscribeError::Cancelled => TaskOutcome::Cancelled,
            _ => {
                if matches!(kind, TaskKind::RemoteFetch) {
                    let msg = String::from_str("Subtitle generation failed: ").concat(
                        e.message().as_str(),
                    );
                    TaskOutcome::CaptionFailed(msg)
                } else {
                    TaskOutcome::Failed(e.message())
                }
            },
        },
    }
}


/// The legacy CLI transcriber's invocation: model, SRT output at
/// `output_base`, an explicit language unless it is `auto`, then the audio.
pub fn build_whisper_args(model_path: &str, output_base: &str, language: &str, wav_path: &str) -> (r: Vec<String>)
    ensures
        ({
            if language@ == "auto"@ {
                r@.map_values(|s: String| s@) =~= seq![
                    "-m"@,
                    model_path@,
                    "-osrt"@,
                    "-of"@,
                    output_base@,
                    wav_path@,
                ]
            } else {
                r@.map_values(|s: String| s@) =~= seq![
                    "-m"@,
                    model_path@,
                    "-osrt"@,
                    "-of"@,
                    output_base@,
                    "-l"@,
                    language@,
                    wav_path@,
                ]
            }
        }),
{
    let mut r: Vec<String> = Vec::new();
    r.push(String::from_str("-m"));
    r.push(String::from_str(model_path));
    r.push(String::from_str("-osrt"));
    r.push(String::from_str("-of"));
    r.push(String::from_str(output_base));
    if !str_eq(language, "auto") {
        r.push(String::from_str("-l"));
        r.push(String::from_str(language));
    }
    r.push(String::from_str(wav_path));
    r
}

/// Index of the last `=`, or -1.
pub open spec fn spec_last_eq(p: Seq<char>) -> int
    decreases p.len(),
{
    if p.len() == 0 {
        -1
    } else if p.last() == '=' {
        p.len() - 1
    } else {
        spec_last_eq(p.drop_last())
    }
}

proof fn lemma_last_eq(p: Seq<char>)
    ensures
        -1 <= spec_last_eq(p) < p.len(),
        spec_last_eq(p) >= 0 ==> p[spec_last_eq(p)] == '=',
        forall|j: int| spec_last_eq(p) < j < p.len() ==> p[j] != '=',
    decreases p.len(),
{
    if p.len() > 0 && p.last() != '=' {
        lemma_last_eq(p.drop_last());
        assert(forall|j: int| 0 <= j < p.len() - 1 ==> p.drop_last()[j] == p[j]);
    }
}

/// `s` with every trailing `%` dropped.
pub open spec fn spec_strip_percents(s: Seq<char>) -> Seq<char>
    decreases s.len(),
{
    if s.len() > 0 && s.last() == '%' {
        spec_strip_percents(s.drop_last())
    } else {
        s
    }
}

/// What a transcriber progress line reads as: on a line mentioning
/// `progress`, the whole-number percent after the last `=`, trailing
/// percent signs and surrounding whitespace dropped; anything else reads
/// as nothing.
pub open spec fn spec_whisper_progress(line: Seq<char>) -> Option<nat> {
    if crate::jsontext::spec_find_sub(line, "progress"@) < 0 {
        Option::None
    } else {
        let e = spec_last_eq(line);
        let piece = if e < 0 {
            line
        } else {
            line.skip(e + 1)
        };
        let t = spec_strip_percents(spec_trim(piece));
        let k = crate::text::spec_run_len(t);
        if t.len() >= 1 && t.len() == k && k <= 13 {
            Some(crate::text::spec_seq_value(t))
        } else {
            Option::None
        }
    }
}

/// Scrapes a transcriber output line for its progress percentage.
pub fn parse_whisper_progress(line: &str) -> (r: Option<u64>)
    ensures
        r matches Some(p) ==> spec_whisper_progress(line@) == Some(p as nat),
        r is None ==> spec_whisper_progress(line@) is None,
{
    let v = str_to_chars(line);
    if !crate::ytdlp::contains_substring(&v, "progress") {
        proof {
            crate::jsontext::lemma_find_sub(v@, "progress"@);
            let fs = crate::jsontext::spec_find_sub(v@, "progress"@);
            if fs >= 0 {
                assert(v@.subrange(fs, fs + ("progress"@).len()) =~= "progress"@);
            }
        }
        return None;
    }
    proof {
        crate::jsontext::lemma_find_sub(v@, "progress"@);
        let w = choose|k: int|
            0 <= k <= v@.len() - ("progress"@).len() && #[trigger] v@.subrange(
                k,
                k + ("progress"@).len(),
            ) =~= "progress"@;
        let fs = crate::jsontext::spec_find_sub(v@, "progress"@);
        if fs < 0 {
            assert(v@.subrange(w, w + ("progress"@).len()) != "progress"@);
            assert(false);
        }
    }
    let mut e: usize = v.len();
    let mut found = false;
    while e > 0 && !found
        invariant
            e <= v@.len(),
            !found ==> forall|j: int| e <= j < v@.len() ==> v@[j] != '=',
            found ==> e < v@.len() && v@[e as int] == '=' && (forall|j: int|
                e < j < v@.len() ==> v@[j] != '='),
        decreases e,
    {
        if v[e - 1] == '=' {
            e = e - 1;
            found = true;
        } else {
            e = e - 1;
        }
    }
    proof {
        lemma_last_eq(v@);
        let le = spec_last_eq(v@);
        if found {
            if le < e {
                assert(v@[e as int] != '=');
                assert(false);
            }
            if le > e {
                assert(v@[le] != '=');
                assert(false);
            }
        } else {
            if le >= 0 {
                assert(v@[le] != '=');
                assert(false);
            }
        }
    }
    let start: usize = if found {
        e + 1
    } else {
        0
    };
    let mut piece: Vec<char> = Vec::new();
    let mut i = start;
    while i < v.len()
        invariant
            start <= i <= v@.len(),
            piece@ =~= v@.subrange(start as int, i as int),
        decreases v@.len() - i,
    {
        piece.push(v[i]);
        proof {
            assert(v@.subrange(start as int, i as int).push(v@[i as int]) =~= v@.subrange(
                start as int,
                i + 1,
            ));
        }
        i = i + 1;
    }
    proof {
        if found {
            assert(piece@ =~= v@.skip(e + 1));
        } else {
            assert(piece@ =~= v@);
        }
    }
    let trimmed = trim_chars(&piece);
    let mut stop = trimmed.len();
    proof {
        assert(trimmed@.take(stop as int) =~= trimmed@);
    }
    while stop > 0 && trimmed[stop - 1] == '%'
        invariant
            stop <= trimmed@.len(),
            spec_strip_percents(trimmed@) == spec_strip_percents(trimmed@.take(stop as int)),
        decreases stop,
    {
        proof {
            let cur = trimmed@.take(stop as int);
            assert(cur.last() == trimmed@[stop - 1]);
            assert(cur.drop_last() =~= trimmed@.take(stop - 1));
        }
        stop = stop - 1;
    }
    proof {
        let cur = trimmed@.take(stop as int);
        if stop > 0 {
            assert(cur.last() == trimmed@[stop - 1]);
        }
        assert(spec_strip_percents(cur) == cur);
        assert(trimmed@.take(trimmed@.len() as int) =~= trimmed@);
    }
    let mut t: Vec<char> = Vec::new();
    let mut j: usize = 0;
    while j < stop
        invariant
            j <= stop <= trimmed@.len(),
            t@ =~= trimmed@.subrange(0, j as int),
        decreases stop - j,
    {
        t.push(trimmed[j]);
        proof {
            assert(trimmed@.subrange(0, j as int).push(trimmed@[j as int]) =~= trimmed@.subrange(
                0,
                j + 1,
            ));
        }
        j = j + 1;
    }
    proof {
        assert(t@ =~= spec_strip_percents(trimmed@));
        assert(t@.skip(0) =~= t@);
    }
    let scanned = crate::text::scan_digit_run(&t, 0);
    let (value, k) = match scanned {
        Some(p) => p,
        None => {
            return None;
        },
    };
    if k < 1 || k != t.len() {
        return None;
    }
    proof {
        assert(t@.subrange(0, k as int) =~= t@);
    }
    Some(value)
}


/// Plans the fixed windows of the context-limited engine: back-to-back
/// windows of the short chunk length, the count rounded up to cover
/// `total_ms`.
pub fn plan_short_chunks(total_ms: u64) -> (r: Vec<Chunk>)
    requires
        total_ms > 30000,
        total_ms <= u64::MAX - 30000,
    ensures
        r@.len() == ((total_ms + 29999) / 30000) as nat,
        forall|i: int| 0 <= i < r@.len() ==> (#[trigger] r@[i]).start_ms == i * 30000,
        forall|i: int| 0 <= i < r@.len() ==> (#[trigger] r@[i]).duration_ms == 30000,
{
    let num = (total_ms + 29999) / 30000;
    proof {
        assert((num as int - 1) * 30000 < total_ms as int) by (nonlinear_arith)
            requires
                num as int == (total_ms as int + 29999) / 30000,
                total_ms as int > 30000,
        ;
    }
    let mut r: Vec<Chunk> = Vec::new();
    let mut i: u64 = 0;
    while i < num
        invariant
            num == (total_ms + 29999) / 30000,
            (num as int - 1) * 30000 < total_ms as int,
            total_ms <= u64::MAX - 30000,
            i <= num,
            r@.len() == i,
            forall|j: int| 0 <= j < r@.len() ==> (#[trigger] r@[j]).start_ms == j * 30000,
            forall|j: int| 0 <= j < r@.len() ==> (#[trigger] r@[j]).duration_ms == 30000,
        decreases num - i,
    {
        proof {
            assert(i as int * 30000 <= (num as int - 1) * 30000) by (nonlinear_arith)
                requires
                    0 <= i as int <= num as int - 1,
            ;
        }
        let start = i * 30000;
        r.push(Chunk { start_ms: start, duration_ms: 30000 });
        i = i + 1;
    }
    r
}

} // verus!
