//! Identifies songs from short audio samples with the Shazam API.
//!
//! The crate holds the parts of the job that only compute: where in the file
//! the sample lies, how the sample is put together while a decoder delivers
//! audio, what is sent to the service, and how its answer is shown. Each comes
//! with a contract that Verus proves. Reading files, decoding audio and talking
//! to the network is left to the caller.
pub mod encode;
pub mod error;
pub mod extract;
pub mod protocol;
pub mod request;
pub mod response;
pub mod text;
pub mod window;

pub use crate::encode::encode_to_base64;
pub use crate::error::ShazamError;
pub use crate::extract::{Action, AudioFormat, Event, Extraction, ExtractionContext};
pub use crate::request::{
    encoded_request, identify_reply, identify_request, sample_request, ShazamRequest,
};
pub use crate::response::ShazamResponse;
pub use crate::window::{compute_sample_window, compute_window_at, SamplePosition};
