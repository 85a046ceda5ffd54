//! Audio formats and item kinds.
//!
//! Each format maps to exactly one on-disk file extension and exactly one
//! platform-internal encoding token; both mappings are total over the enum.

use vstd::prelude::*;

verus! {

#[derive(Debug, Clone, Copy, PartialEq, Eq, Structural)]
pub enum AudioFormat {
    Flac,
    Mp3V0,
    Mp3320,
    Aac,
    OggVorbis,
    Alac,
    Wav,
    Aiff,
}

#[derive(Debug, Clone, Copy, PartialEq, Eq, Structural)]
pub enum ItemType {
    Album,
    Track,
    Package,
}

pub open spec fn extension_spec(f: AudioFormat) -> Seq<char> {
    match f {
        AudioFormat::Flac => "flac"@,
        AudioFormat::Mp3V0 => "mp3"@,
        AudioFormat::Mp3320 => "mp3"@,
        AudioFormat::Aac => "m4a"@,
        AudioFormat::OggVorbis => "ogg"@,
        AudioFormat::Alac => "m4a"@,
        AudioFormat::Wav => "wav"@,
        AudioFormat::Aiff => "aiff"@,
    }
}

pub open spec fn encoding_spec(f: AudioFormat) -> Seq<char> {
    match f {
        AudioFormat::Flac => "flac"@,
        AudioFormat::Mp3V0 => "mp3-v0"@,
        AudioFormat::Mp3320 => "mp3-320"@,
        AudioFormat::Aac => "aac-hi"@,
        AudioFormat::OggVorbis => "vorbis"@,
        AudioFormat::Alac => "alac"@,
        AudioFormat::Wav => "wav"@,
        AudioFormat::Aiff => "aiff-lossless"@,
    }
}

pub open spec fn display_name_spec(f: AudioFormat) -> Seq<char> {
    match f {
        AudioFormat::Flac => "FLAC (lossless)"@,
        AudioFormat::Mp3V0 => "MP3 V0 (variable bitrate)"@,
        AudioFormat::Mp3320 => "MP3 320kbps"@,
        AudioFormat::Aac => "AAC (high quality)"@,
        AudioFormat::OggVorbis => "Ogg Vorbis"@,
        AudioFormat::Alac => "ALAC (Apple lossless)"@,
        AudioFormat::Wav => "WAV (uncompressed)"@,
        AudioFormat::Aiff => "AIFF (uncompressed)"@,
    }
}

impl AudioFormat {
    /// File extension used on disk.
    pub fn extension(&self) -> (r: &'static str)
        ensures
            r@ == extension_spec(*self),
    {
        match self {
            AudioFormat::Flac => "flac",
            AudioFormat::Mp3V0 => "mp3",
            AudioFormat::Mp3320 => "mp3",
            AudioFormat::Aac => "m4a",
            AudioFormat::OggVorbis => "ogg",
            AudioFormat::Alac => "m4a",
            AudioFormat::Wav => "wav",
            AudioFormat::Aiff => "aiff",
        }
    }

    /// Platform-internal encoding token used in requests and JSON keys.
    pub fn bandcamp_encoding(&self) -> (r: &'static str)
        ensures
            r@ == encoding_spec(*self),
    {
        match self {
            AudioFormat::Flac => "flac",
            AudioFormat::Mp3V0 => "mp3-v0",
            AudioFormat::Mp3320 => "mp3-320",
            AudioFormat::Aac => "aac-hi",
            AudioFormat::OggVorbis => "vorbis",
            AudioFormat::Alac => "alac",
            AudioFormat::Wav => "wav",
            AudioFormat::Aiff => "aiff-lossless",
        }
    }

    /// Name shown when picking a format interactively.
    pub fn display_name(&self) -> (r: &'static str)
        ensures
            r@ == display_name_spec(*self),
    {
        match self {
            AudioFormat::Flac => "FLAC (lossless)",
            AudioFormat::Mp3V0 => "MP3 V0 (variable bitrate)",
            AudioFormat::Mp3320 => "MP3 320kbps",
            AudioFormat::Aac => "AAC (high quality)",
            AudioFormat::OggVorbis => "Ogg Vorbis",
            AudioFormat::Alac => "ALAC (Apple lossless)",
            AudioFormat::Wav => "WAV (uncompressed)",
            AudioFormat::Aiff => "AIFF (uncompressed)",
        }
    }

    /// Every supported format, in the order offered to the user.
    pub fn all_formats() -> (r: Vec<AudioFormat>)
        ensures
            r@ == seq![
                AudioFormat::Flac,
                AudioFormat::Mp3320,
                AudioFormat::Mp3V0,
                AudioFormat::Aac,
                AudioFormat::OggVorbis,
                AudioFormat::Alac,
                AudioFormat::Wav,
                AudioFormat::Aiff,
            ],
    {
        let mut v: Vec<AudioFormat> = Vec::new();
        v.push(AudioFormat::Flac);
        v.push(AudioFormat::Mp3320);
        v.push(AudioFormat::Mp3V0);
        v.push(AudioFormat::Aac);
        v.push(AudioFormat::OggVorbis);
        v.push(AudioFormat::Alac);
        v.push(AudioFormat::Wav);
        v.push(AudioFormat::Aiff);
        proof {
            assert(v@ =~= seq![
                AudioFormat::Flac,
                AudioFormat::Mp3320,
                AudioFormat::Mp3V0,
                AudioFormat::Aac,
                AudioFormat::OggVorbis,
                AudioFormat::Alac,
                AudioFormat::Wav,
                AudioFormat::Aiff,
            ]);
        }
        v
    }
}

} // verus!
