//! What can go wrong.
use vstd::prelude::*;

verus! {

/// Error variants for the identification of a song.
#[derive(Debug)]
pub enum ShazamError {
    /// Failed to initialize `FFmpeg`.
    FfmpegInit(String),
    /// Failed to open the audio file.
    OpenFile {
        /// The file path that could not be opened.
        path: String,
        /// The underlying error message.
        message: String,
    },
    /// No audio stream was found in the file.
    NoAudioStream,
    /// The file has an invalid or missing duration.
    InvalidDuration,
    /// Failed to create or configure a codec context.
    Codec(String),
    /// Failed to seek to the sample start position.
    Seek(String),
    /// Failed to decode audio frames.
    Decode(String),
    /// Failed to resample audio to 44100 Hz mono S16.
    Resample(String),
    /// No audio samples could be collected from the file.
    NoAudio,
    /// An HTTP error occurred while communicating with the Shazam API.
    Http(String),
}

impl ShazamError {
    /// The message that is shown for the error.
    pub open spec fn message_text(self) -> Seq<char> {
        match self {
            ShazamError::FfmpegInit(m) => "Failed to initialize FFmpeg: "@ + m@,
            ShazamError::OpenFile { path, message } => "Failed to open file '"@ + path@ + "': "@
                + message@,
            ShazamError::NoAudioStream => "No audio stream found in the file"@,
            ShazamError::InvalidDuration => "File has an invalid or missing duration"@,
            ShazamError::Codec(m) => "Codec error: "@ + m@,
            ShazamError::Seek(m) => "Failed to seek in file: "@ + m@,
            ShazamError::Decode(m) => "Failed to decode audio: "@ + m@,
            ShazamError::Resample(m) => "Failed to resample audio: "@ + m@,
            ShazamError::NoAudio => "No audio samples could be collected from the file"@,
            ShazamError::Http(m) => "HTTP request failed: "@ + m@,
        }
    }

    /// The message that is shown for the error.
    pub fn message(&self) -> (res: String)
        ensures
            res@ == self.message_text(),
    {
        let mut out = String::new();
        match self {
            ShazamError::FfmpegInit(m) => {
                out.append("Failed to initialize FFmpeg: ");
                out.append(m.as_str());
            },
            ShazamError::OpenFile { path, message } => {
                out.append("Failed to open file '");
                out.append(path.as_str());
                out.append("': ");
                out.append(message.as_str());
            },
            ShazamError::NoAudioStream => {
                out.append("No audio stream found in the file");
            },
            ShazamError::InvalidDuration => {
                out.append("File has an invalid or missing duration");
            },
            ShazamError::Codec(m) => {
                out.append("Codec error: ");
                out.append(m.as_str());
            },
            ShazamError::Seek(m) => {
                out.append("Failed to seek in file: ");
                out.append(m.as_str());
            },
            ShazamError::Decode(m) => {
                out.append("Failed to decode audio: ");
                out.append(m.as_str());
            },
            ShazamError::Resample(m) => {
                out.append("Failed to resample audio: ");
                out.append(m.as_str());
            },
            ShazamError::NoAudio => {
                out.append("No audio samples could be collected from the file");
            },
            ShazamError::Http(m) => {
                out.append("HTTP request failed: ");
                out.append(m.as_str());
            },
        }
        assert(out@ =~= self.message_text());
        out
    }
}

/// An error that comes with a message shows it whole, behind words that depend
/// on the kind of the error alone.
pub proof fn lemma_message_is_shown(path: String, m: String)
    ensures
        shows(ShazamError::FfmpegInit(m), "Failed to initialize FFmpeg: "@, m@),
        shows(ShazamError::Codec(m), "Codec error: "@, m@),
        shows(ShazamError::Seek(m), "Failed to seek in file: "@, m@),
        shows(ShazamError::Decode(m), "Failed to decode audio: "@, m@),
        shows(ShazamError::Resample(m), "Failed to resample audio: "@, m@),
        shows(ShazamError::Http(m), "HTTP request failed: "@, m@),
        shows(
            ShazamError::OpenFile { path, message: m },
            "Failed to open file '"@ + path@ + "': "@,
            m@,
        ),
        shows(ShazamError::NoAudioStream, "No audio stream found in the file"@, seq![]),
        shows(ShazamError::InvalidDuration, "File has an invalid or missing duration"@, seq![]),
        shows(ShazamError::NoAudio, "No audio samples could be collected from the file"@, seq![]),
{
    assert(ShazamError::NoAudioStream.message_text() =~= "No audio stream found in the file"@ + seq![]);
    assert(ShazamError::InvalidDuration.message_text() =~= "File has an invalid or missing duration"@
        + seq![]);
    assert(ShazamError::NoAudio.message_text()
        =~= "No audio samples could be collected from the file"@ + seq![]);
}

/// Whether an error is shown as these words and then this message.
pub open spec fn shows(error: ShazamError, words: Seq<char>, message: Seq<char>) -> bool {
    &&& error.message_text().len() == words.len() + message.len()
    &&& forall|i: int|
        0 <= i < words.len() ==> #[trigger] error.message_text()[i] == words[i]
    &&& forall|i: int|
        0 <= i < message.len() ==> error.message_text()[words.len() + i] == #[trigger] message[i]
}

} // verus!
