//! Drawing the sample out of an audio file.
//!
//! The decoder, the resampler and the file belong to the caller. An
//! [`Extraction`] says what to do next with them, is told how that went, and
//! collects the audio that comes back.
use crate::error::ShazamError;
use crate::window::{compute_window_at, sample_len, window_end, window_start, SamplePosition};
use vstd::prelude::*;

verus! {

/// Rate of the audio that the service takes, in samples per second.
pub const SAMPLE_RATE_HZ: u32 = 44_100;

/// Number of channels of that audio.
pub const CHANNELS: u8 = 1;

/// Size of one of its samples, in bits.
pub const BITS_PER_SAMPLE: u8 = 16;

/// Size of one second of that audio, in bytes.
pub const BYTES_PER_SECOND: u64 = 88_200;

/// How audio is laid out.
#[derive(Clone, Copy, Debug, PartialEq, Eq, Structural)]
pub struct AudioFormat {
    /// Samples per second.
    pub rate_hz: u32,
    /// Number of channels.
    pub channels: u8,
    /// Size of a sample in bits.
    pub bits_per_sample: u8,
    /// Whether a sample is a signed number.
    pub is_signed: bool,
    /// Whether the samples of all channels stand in one sequence, in turn.
    pub is_packed: bool,
}

impl AudioFormat {
    /// Size of one second of audio, in bytes.
    pub open spec fn bytes_per_second(self) -> int {
        self.rate_hz * self.channels * self.bits_per_sample / 8
    }
}

/// The audio that the service takes: signed 16-bit samples of a single channel
/// at 44100 Hz.
pub open spec fn service_format() -> AudioFormat {
    AudioFormat {
        rate_hz: 44_100,
        channels: 1,
        bits_per_sample: 16,
        is_signed: true,
        is_packed: true,
    }
}

/// The size of one second is that of the audio that the service takes.
pub proof fn lemma_bytes_per_second()
    ensures
        BYTES_PER_SECOND == service_format().bytes_per_second(),
        service_format() == (AudioFormat {
            rate_hz: SAMPLE_RATE_HZ,
            channels: CHANNELS,
            bits_per_sample: BITS_PER_SAMPLE,
            is_signed: true,
            is_packed: true,
        }),
{
    let f = service_format();
    assert(f.rate_hz * f.channels == 44_100) by (nonlinear_arith)
        requires
            f.rate_hz == 44_100,
            f.channels == 1,
    ;
    assert(f.rate_hz * f.channels * f.bits_per_sample == 705_600) by (nonlinear_arith)
        requires
            f.rate_hz * f.channels == 44_100,
            f.bits_per_sample == 16,
    ;
}

/// What the extraction waits for.
#[derive(Clone, Copy, Debug, PartialEq, Eq, Structural)]
pub enum Phase {
    /// The decoding library is being initialized.
    Initializing,
    /// The file is being opened.
    Opening,
    /// The audio stream is being looked for.
    FindingStream,
    /// The decoder is being set up.
    OpeningDecoder,
    /// The file is being moved to the start of the sample.
    Seeking,
    /// The next packet is being read.
    Reading,
    /// The packet is being handed to the decoder.
    Sending,
    /// The next frame is being taken from the decoder.
    Receiving,
    /// The resampler is being set up for the first frame.
    CreatingResampler,
    /// The frame is being resampled.
    Resampling,
    /// The decoder is being told that no packet follows.
    Ending,
    /// The frames that the decoder still holds are being taken from it.
    Draining,
    /// A frame that the decoder still held is being resampled.
    DrainResampling,
    /// What the resampler still holds is being taken from it.
    Flushing,
    /// The sample is complete, or the extraction has failed.
    Done,
}

/// What the caller is to do next.
#[derive(Clone, Copy, Debug, PartialEq, Eq, Structural)]
pub enum Action {
    /// Initialize the decoding library.
    InitLibrary,
    /// Open the file.
    OpenInput,
    /// Look for the best audio stream.
    FindAudioStream,
    /// Set up a decoder for that stream.
    OpenDecoder,
    /// Move the file to this position, or to one before it.
    Seek {
        /// The position in microseconds.
        position_us: i64,
        /// The last position that will do, in microseconds.
        latest_us: i64,
    },
    /// Read the next packet.
    ReadPacket,
    /// Hand the packet to the decoder.
    SendPacket,
    /// Take the next frame from the decoder.
    ReceiveFrame,
    /// Set up a resampler for frames like the one that was just taken.
    CreateResampler {
        /// What it is to make of them.
        target: AudioFormat,
    },
    /// Resample the frame.
    Resample,
    /// Tell the decoder that no packet follows.
    SendEof,
    /// Take what the resampler still holds.
    FlushResampler,
    /// Take the result: see [`Extraction::finish`].
    Finish,
}

/// How the caller fared with an [`Action`].
#[derive(Debug)]
pub enum Event {
    /// The library is initialized.
    LibraryReady,
    /// The library could not be initialized.
    LibraryFailed(String),
    /// The file is open.
    Opened {
        /// Length of the file in microseconds, as the file states it.
        duration_us: i64,
    },
    /// The file could not be opened.
    OpenFailed(String),
    /// There is an audio stream.
    StreamFound {
        /// Its index in the file.
        index: usize,
    },
    /// There is no audio stream.
    NoStream,
    /// The decoder is set up.
    DecoderReady,
    /// The decoder could not be set up.
    DecoderFailed(String),
    /// The file stands at the position.
    Sought,
    /// The file could not be moved to the position.
    SeekFailed(String),
    /// A packet was read.
    Packet {
        /// Index of the stream that it belongs to.
        stream_index: usize,
        /// When it is presented, in units of the stream's time base, if known.
        pts: Option<i64>,
        /// Numerator of the stream's time base in seconds.
        time_base_num: i32,
        /// Denominator of the stream's time base in seconds.
        time_base_den: i32,
    },
    /// The file holds no further packet.
    EndOfInput,
    /// The decoder took the packet.
    PacketAccepted,
    /// The decoder did not take the packet.
    PacketRejected,
    /// The decoder gave a frame.
    Frame,
    /// The decoder has no frame to give.
    NoFrame,
    /// The resampler is set up.
    ResamplerReady,
    /// The resampler could not be set up.
    ResamplerFailed(String),
    /// The resampler gave audio.
    Output {
        /// How many samples it gave.
        samples: usize,
        /// The bytes that hold them.
        data: Vec<u8>,
    },
    /// The resampler failed.
    NoOutput,
    /// The decoder was told, whether it took it or not.
    EofSent,
}

/// What later parts need to know of the file that the sample came from.
#[derive(Clone, Copy, Debug, PartialEq, Eq, Structural)]
pub struct ExtractionContext {
    /// Length of the file in milliseconds.
    pub file_duration_ms: u64,
    /// Where the sample starts, in milliseconds.
    pub sample_start_ms: u64,
}

/// The state of an extraction.
pub struct ExtractionView {
    /// The path that an error names.
    pub path: String,
    /// How long the sample is to be, in milliseconds.
    pub sample_ms: u64,
    /// Where in the file it is to be drawn from.
    pub position: SamplePosition,
    /// What the extraction waits for.
    pub phase: Phase,
    /// Length of the file in milliseconds, once it is open.
    pub total_ms: u64,
    /// Index of the audio stream, once it is found.
    pub stream_index: usize,
    /// Start of the sample in milliseconds, once the decoder is set up.
    pub start_ms: u64,
    /// End of the sample in milliseconds, once the decoder is set up.
    pub end_ms: u64,
    /// How many bytes make up the sample, once the file stands at its start.
    pub target_bytes: usize,
    /// Whether the resampler is set up.
    pub has_resampler: bool,
    /// The audio that was collected so far.
    pub collected: Seq<u8>,
    /// What went wrong, if anything did.
    pub error: Option<ShazamError>,
}

/// `x` as far as an `i64` can hold it.
pub open spec fn saturated(x: int) -> int {
    if x > i64::MAX {
        i64::MAX as int
    } else if x < i64::MIN {
        i64::MIN as int
    } else {
        x
    }
}

/// The quotient of `a` and `b`, rounded toward zero.
pub open spec fn quotient(a: int, b: int) -> int {
    let magnitude = (if a < 0 { -a } else { a }) / (if b < 0 { -b } else { b });
    if (a < 0) == (b < 0) {
        magnitude
    } else {
        -magnitude
    }
}

/// A time in units of a time base, before the division by its denominator.
pub open spec fn scaled_pts(pts: i64, num: i32) -> int {
    saturated(saturated(pts * 1000) * num)
}

/// When a packet is presented, in milliseconds.
pub open spec fn pts_ms(pts: i64, num: i32, den: i32) -> int {
    quotient(scaled_pts(pts, num), den as int)
}

/// How many bytes hold `ms` milliseconds of audio, as far as a `usize` can say.
pub open spec fn target_size(ms: int) -> int {
    let bytes = service_format().bytes_per_second() * ms / 1000;
    if bytes <= usize::MAX {
        bytes
    } else {
        usize::MAX as int
    }
}

/// The bytes that an event adds to the sample.
pub open spec fn chunk(e: Event) -> Seq<u8> {
    match e {
        Event::Output { samples, data } if samples > 0 => data@,
        _ => seq![],
    }
}

impl ExtractionView {
    /// A new extraction.
    pub open spec fn initial(path: String, sample_ms: u64, position: SamplePosition) -> Self {
        ExtractionView {
            path,
            sample_ms,
            position,
            phase: Phase::Initializing,
            total_ms: 0,
            stream_index: 0,
            start_ms: 0,
            end_ms: 0,
            target_bytes: 0,
            has_resampler: false,
            collected: seq![],
            error: None,
        }
    }

    /// The same, waiting for something else.
    pub open spec fn at(self, phase: Phase) -> Self {
        ExtractionView { phase, ..self }
    }

    /// The same, failed.
    pub open spec fn failed(self, error: ShazamError) -> Self {
        ExtractionView { phase: Phase::Done, error: Some(error), ..self }
    }

    /// The same, with the bytes of an event added to the sample.
    pub open spec fn collecting(self, e: Event) -> Self {
        ExtractionView { collected: self.collected + chunk(e), ..self }
    }

    /// The same, with what was collected cut to the size of the sample: an
    /// error if that leaves nothing.
    pub open spec fn completed(self) -> Self {
        let n = self.collected.len();
        let sample = self.collected.take(
            if n < self.target_bytes {
                n as int
            } else {
                self.target_bytes as int
            },
        );
        let s = ExtractionView { collected: sample, phase: Phase::Done, ..self };
        if sample.len() == 0 {
            s.failed(ShazamError::NoAudio)
        } else {
            s
        }
    }

    /// Whether a packet lies behind the end of the sample.
    pub open spec fn is_past_end(self, pts: Option<i64>, num: i32, den: i32) -> bool {
        match pts {
            Some(pts) => pts_ms(pts, num, den) > saturated(self.end_ms as int),
            None => false,
        }
    }

    /// The length of the sample in milliseconds.
    pub open spec fn window_len(self) -> int {
        self.end_ms - self.start_ms
    }

    /// What is to be done next.
    pub open spec fn action(self) -> Action {
        match self.phase {
            Phase::Initializing => Action::InitLibrary,
            Phase::Opening => Action::OpenInput,
            Phase::FindingStream => Action::FindAudioStream,
            Phase::OpeningDecoder => Action::OpenDecoder,
            Phase::Seeking => Action::Seek {
                position_us: saturated(self.start_ms * 1000) as i64,
                latest_us: saturated(self.start_ms * 1000) as i64,
            },
            Phase::Reading => Action::ReadPacket,
            Phase::Sending => Action::SendPacket,
            Phase::Receiving | Phase::Draining => Action::ReceiveFrame,
            Phase::CreatingResampler => Action::CreateResampler { target: service_format() },
            Phase::Resampling | Phase::DrainResampling => Action::Resample,
            Phase::Ending => Action::SendEof,
            Phase::Flushing => Action::FlushResampler,
            Phase::Done => Action::Finish,
        }
    }

    /// Whether the event answers what is to be done next. The size of the
    /// sample has to be a `u64`, and the time of a packet has to be defined.
    pub open spec fn accepts(self, e: Event) -> bool {
        match self.phase {
            Phase::Initializing => e is LibraryReady || e is LibraryFailed,
            Phase::Opening => e is Opened || e is OpenFailed,
            Phase::FindingStream => e is StreamFound || e is NoStream,
            Phase::OpeningDecoder => e is DecoderReady || e is DecoderFailed,
            Phase::Seeking => e is SeekFailed || (e is Sought
                && service_format().bytes_per_second() * self.window_len() <= u64::MAX),
            Phase::Reading => match e {
                Event::EndOfInput => true,
                Event::Packet { stream_index, pts: Some(pts), time_base_num, time_base_den } => {
                    stream_index == self.stream_index ==> time_base_den != 0 && !(time_base_den
                        == -1 && scaled_pts(pts, time_base_num) == i64::MIN)
                },
                Event::Packet { .. } => true,
                _ => false,
            },
            Phase::Sending => e is PacketAccepted || e is PacketRejected,
            Phase::Receiving | Phase::Draining => e is Frame || e is NoFrame,
            Phase::CreatingResampler => e is ResamplerReady || e is ResamplerFailed,
            Phase::Resampling | Phase::DrainResampling | Phase::Flushing => e is Output
                || e is NoOutput,
            Phase::Ending => e is EofSent,
            Phase::Done => false,
        }
    }

    /// The state after an event.
    pub open spec fn after(self, e: Event) -> Self {
        match (self.phase, e) {
            (Phase::Initializing, Event::LibraryReady) => self.at(Phase::Opening),
            (Phase::Initializing, Event::LibraryFailed(m)) => self.failed(
                ShazamError::FfmpegInit(m),
            ),
            (Phase::Opening, Event::Opened { duration_us }) => if duration_us <= 0 {
                self.failed(ShazamError::InvalidDuration)
            } else {
                ExtractionView {
                    total_ms: (duration_us as int / 1000) as u64,
                    ..self.at(Phase::FindingStream)
                }
            },
            (Phase::Opening, Event::OpenFailed(m)) => self.failed(
                ShazamError::OpenFile { path: self.path, message: m },
            ),
            (Phase::FindingStream, Event::StreamFound { index }) => ExtractionView {
                stream_index: index,
                ..self.at(Phase::OpeningDecoder)
            },
            (Phase::FindingStream, Event::NoStream) => self.failed(ShazamError::NoAudioStream),
            (Phase::OpeningDecoder, Event::DecoderReady) => ExtractionView {
                start_ms: window_start(self.total_ms, self.sample_ms, self.position) as u64,
                end_ms: window_end(self.total_ms, self.sample_ms, self.position) as u64,
                ..self.at(Phase::Seeking)
            },
            (Phase::OpeningDecoder, Event::DecoderFailed(m)) => self.failed(ShazamError::Codec(m)),
            (Phase::Seeking, Event::Sought) => ExtractionView {
                target_bytes: target_size(self.window_len()) as usize,
                ..self.at(Phase::Reading)
            },
            (Phase::Seeking, Event::SeekFailed(m)) => self.failed(ShazamError::Seek(m)),
            (
                Phase::Reading,
                Event::Packet { stream_index, pts, time_base_num, time_base_den },
            ) => if stream_index != self.stream_index {
                self
            } else if self.is_past_end(pts, time_base_num, time_base_den) {
                self.at(Phase::Ending)
            } else {
                self.at(Phase::Sending)
            },
            (Phase::Reading, Event::EndOfInput) => self.at(Phase::Ending),
            (Phase::Sending, Event::PacketAccepted) => self.at(Phase::Receiving),
            (Phase::Sending, Event::PacketRejected) => self.at(Phase::Reading),
            (Phase::Receiving, Event::Frame) => if self.has_resampler {
                self.at(Phase::Resampling)
            } else {
                self.at(Phase::CreatingResampler)
            },
            (Phase::Receiving, Event::NoFrame) => self.at(Phase::Reading),
            (Phase::CreatingResampler, Event::ResamplerReady) => ExtractionView {
                has_resampler: true,
                ..self.at(Phase::Resampling)
            },
            (Phase::CreatingResampler, Event::ResamplerFailed(m)) => self.failed(
                ShazamError::Resample(m),
            ),
            (Phase::Resampling, _) => {
                let s = self.collecting(e);
                if s.collected.len() >= s.target_bytes {
                    s.at(Phase::Ending)
                } else {
                    s.at(Phase::Receiving)
                }
            },
            (Phase::Ending, Event::EofSent) => self.at(Phase::Draining),
            (Phase::Draining, Event::Frame) => if self.has_resampler {
                self.at(Phase::DrainResampling)
            } else {
                self
            },
            (Phase::Draining, Event::NoFrame) => if self.has_resampler {
                self.at(Phase::Flushing)
            } else {
                self.completed()
            },
            (Phase::DrainResampling, _) => self.collecting(e).at(Phase::Draining),
            (Phase::Flushing, _) => self.collecting(e).completed(),
            _ => self,
        }
    }
}

impl ExtractionView {
    /// What holds in every state that an extraction reaches.
    pub open spec fn wf(self) -> bool {
        &&& self.start_ms <= self.end_ms <= self.total_ms
        &&& self.total_ms <= i64::MAX / 1000
        &&& !self.has_resampler ==> self.collected.len() == 0
        &&& self.error is Some ==> self.phase is Done
        &&& match self.phase {
            Phase::Initializing
            | Phase::Opening
            | Phase::FindingStream
            | Phase::OpeningDecoder
            | Phase::Seeking
            | Phase::CreatingResampler => !self.has_resampler,
            Phase::Resampling | Phase::DrainResampling | Phase::Flushing => self.has_resampler,
            Phase::Done => self.error is None ==> self.has_resampler && 0 < self.collected.len()
                <= self.target_bytes,
            _ => true,
        }
        &&& match self.phase {
            Phase::Reading | Phase::Sending | Phase::Receiving | Phase::Resampling =>
                self.collected.len() == 0 || self.collected.len() < self.target_bytes,
            _ => true,
        }
        &&& match self.phase {
            Phase::Initializing
            | Phase::Opening
            | Phase::FindingStream
            | Phase::OpeningDecoder => self.start_ms == 0 && self.end_ms == 0,
            Phase::Done => self.error is None ==> self.has_window() && self.has_target(),
            Phase::Seeking => self.has_window(),
            _ => self.has_window() && self.has_target(),
        }
    }

    /// Whether start and end are those of the sample that was asked for.
    pub open spec fn has_window(self) -> bool {
        &&& self.start_ms == window_start(self.total_ms, self.sample_ms, self.position)
        &&& self.end_ms == window_end(self.total_ms, self.sample_ms, self.position)
    }

    /// Whether the size of the sample is that of its length.
    pub open spec fn has_target(self) -> bool {
        self.target_bytes == target_size(self.window_len())
    }
}

/// Every event that is accepted leads from a well-formed state to another.
pub proof fn lemma_after_keeps_wf(s: ExtractionView, e: Event)
    requires
        s.wf(),
        s.accepts(e),
    ensures
        s.after(e).wf(),
{
    lemma_bytes_per_second();
}

/// An extraction on its way.
#[derive(Debug)]
pub struct Extraction {
    path: String,
    sample_ms: u64,
    position: SamplePosition,
    phase: Phase,
    total_ms: u64,
    stream_index: usize,
    start_ms: u64,
    end_ms: u64,
    target_bytes: usize,
    has_resampler: bool,
    collected: Vec<u8>,
    error: Option<ShazamError>,
}

impl View for Extraction {
    type V = ExtractionView;

    closed spec fn view(&self) -> ExtractionView {
        ExtractionView {
            path: self.path,
            sample_ms: self.sample_ms,
            position: self.position,
            phase: self.phase,
            total_ms: self.total_ms,
            stream_index: self.stream_index,
            start_ms: self.start_ms,
            end_ms: self.end_ms,
            target_bytes: self.target_bytes,
            has_resampler: self.has_resampler,
            collected: self.collected@,
            error: self.error,
        }
    }
}

fn saturate(x: i128) -> (res: i64)
    ensures
        res == saturated(x as int),
{
    if x > i64::MAX as i128 {
        i64::MAX
    } else if x < i64::MIN as i128 {
        i64::MIN
    } else {
        x as i64
    }
}

fn scale_pts(pts: i64, num: i32) -> (res: i64)
    ensures
        res == scaled_pts(pts, num),
{
    let millis: i64 = saturate(pts as i128 * 1000);
    assert(-0x8000_0000_0000_0000 * 0x8000_0000 <= millis * num <= 0x8000_0000_0000_0000
        * 0x8000_0000) by (nonlinear_arith)
        requires
            -0x8000_0000_0000_0000 <= millis <= 0x7fff_ffff_ffff_ffff,
            -0x8000_0000 <= num <= 0x7fff_ffff,
    ;
    saturate(millis as i128 * num as i128)
}

pub proof fn lemma_division_by_magnitude(a: int, b: int)
    requires
        0 <= a,
        b != 0,
    ensures
        b > 0 ==> 0 <= a / b <= a,
        b < 0 ==> 0 <= a / (-b) <= a && a / b == -(a / (-b)),
        b < -1 ==> a / (-b) <= a / 2,
{
    if b > 0 {
        assert(0 <= a / b <= a) by (nonlinear_arith)
            requires
                0 <= a,
                b > 0,
        ;
    } else {
        let m = -b;
        assert(0 <= a / m <= a) by (nonlinear_arith)
            requires
                0 <= a,
                m > 0,
        ;
        assert(a / b == -(a / m)) by (nonlinear_arith)
            requires
                0 <= a,
                m > 0,
                b == -m,
        ;
        if m > 1 {
            assert(a / m <= a / 2) by (nonlinear_arith)
                requires
                    0 <= a,
                    m >= 2,
            ;
        }
    }
}

fn packet_ms(pts: i64, num: i32, den: i32) -> (res: i64)
    requires
        den != 0,
        !(den == -1 && scaled_pts(pts, num) == i64::MIN),
    ensures
        res == pts_ms(pts, num, den),
{
    let scaled: i64 = scale_pts(pts, num);
    proof {
        lemma_division_by_magnitude(
            if scaled < 0 {
                -scaled
            } else {
                scaled as int
            },
            den as int,
        );
    }
    scaled / den as i64
}

impl Extraction {
    /// An extraction of `sample_duration_ms` milliseconds at `position` of the
    /// file at `path`.
    pub fn new(path: String, sample_duration_ms: u64, position: SamplePosition) -> (res: Self)
        ensures
            res@ == ExtractionView::initial(path, sample_duration_ms, position),
            res@.wf(),
    {
        Extraction {
            path,
            sample_ms: sample_duration_ms,
            position,
            phase: Phase::Initializing,
            total_ms: 0,
            stream_index: 0,
            start_ms: 0,
            end_ms: 0,
            target_bytes: 0,
            has_resampler: false,
            collected: Vec::new(),
            error: None,
        }
    }

    /// What is to be done next.
    pub fn action(&self) -> (res: Action)
        ensures
            res == self@.action(),
    {
        match self.phase {
            Phase::Initializing => Action::InitLibrary,
            Phase::Opening => Action::OpenInput,
            Phase::FindingStream => Action::FindAudioStream,
            Phase::OpeningDecoder => Action::OpenDecoder,
            Phase::Seeking => {
                let start_us: i64 = saturate(self.start_ms as i128 * 1000);
                Action::Seek { position_us: start_us, latest_us: start_us }
            },
            Phase::Reading => Action::ReadPacket,
            Phase::Sending => Action::SendPacket,
            Phase::Receiving | Phase::Draining => Action::ReceiveFrame,
            Phase::CreatingResampler => Action::CreateResampler {
                target: AudioFormat {
                    rate_hz: SAMPLE_RATE_HZ,
                    channels: CHANNELS,
                    bits_per_sample: BITS_PER_SAMPLE,
                    is_signed: true,
                    is_packed: true,
                },
            },
            Phase::Resampling | Phase::DrainResampling => Action::Resample,
            Phase::Ending => Action::SendEof,
            Phase::Flushing => Action::FlushResampler,
            Phase::Done => Action::Finish,
        }
    }

    /// Whether the event answers what is to be done next.
    pub fn accepts(&self, event: &Event) -> (res: bool)
        requires
            self@.wf(),
        ensures
            res == self@.accepts(*event),
    {
        proof {
            lemma_bytes_per_second();
        }
        match self.phase {
            Phase::Initializing => matches!(event, Event::LibraryReady | Event::LibraryFailed(_)),
            Phase::Opening => matches!(event, Event::Opened { .. } | Event::OpenFailed(_)),
            Phase::FindingStream => matches!(event, Event::StreamFound { .. } | Event::NoStream),
            Phase::OpeningDecoder => matches!(event, Event::DecoderReady | Event::DecoderFailed(_)),
            Phase::Seeking => match event {
                Event::SeekFailed(_) => true,
                Event::Sought => BYTES_PER_SECOND as u128 * (self.end_ms - self.start_ms) as u128
                    <= u64::MAX as u128,
                _ => false,
            },
            Phase::Reading => match event {
                Event::EndOfInput => true,
                Event::Packet {
                    stream_index,
                    pts: Some(pts),
                    time_base_num,
                    time_base_den,
                } => *stream_index != self.stream_index || (*time_base_den != 0 && !(*time_base_den
                    == -1 && scale_pts(*pts, *time_base_num) == i64::MIN)),
                Event::Packet { .. } => true,
                _ => false,
            },
            Phase::Sending => matches!(event, Event::PacketAccepted | Event::PacketRejected),
            Phase::Receiving | Phase::Draining => matches!(event, Event::Frame | Event::NoFrame),
            Phase::CreatingResampler => matches!(event, Event::ResamplerReady | Event::ResamplerFailed(_)),
            Phase::Resampling | Phase::DrainResampling | Phase::Flushing =>
                matches!(event, Event::Output { .. } | Event::NoOutput),
            Phase::Ending => matches!(event, Event::EofSent),
            Phase::Done => false,
        }
    }

    fn fail(&mut self, error: ShazamError)
        ensures
            final(self)@ == old(self)@.failed(error),
    {
        self.error = Some(error);
        self.phase = Phase::Done;
    }

    fn complete(&mut self)
        ensures
            final(self)@ == old(self)@.completed(),
    {
        self.collected.truncate(self.target_bytes);
        self.phase = Phase::Done;
        assert(self@.collected =~= old(self)@.completed().collected);
        if self.collected.is_empty() {
            self.fail(ShazamError::NoAudio);
        }
    }

    fn collect(&mut self, event: Event)
        ensures
            final(self)@ == old(self)@.collecting(event),
    {
        if let Event::Output { samples, mut data } = event {
            if samples > 0 {
                self.collected.append(&mut data);
            }
        }
        assert(self@.collected =~= old(self)@.collecting(event).collected);
    }

    /// Whether a packet lies behind the end of the sample.
    fn is_past_end(&self, pts: Option<i64>, num: i32, den: i32) -> (res: bool)
        requires
            pts matches Some(pts) ==> den != 0 && !(den == -1 && scaled_pts(pts, num) == i64::MIN),
        ensures
            res == self@.is_past_end(pts, num, den),
    {
        match pts {
            Some(pts) => packet_ms(pts, num, den) > saturate(self.end_ms as i128),
            None => false,
        }
    }

    /// Takes in how the caller fared with what was to be done.
    pub fn handle(&mut self, event: Event)
        requires
            old(self)@.wf(),
            old(self)@.accepts(event),
        ensures
            final(self)@ == old(self)@.after(event),
            final(self)@.wf(),
    {
        proof {
            lemma_bytes_per_second();
            lemma_after_keeps_wf(self@, event);
        }
        match self.phase {
            Phase::Initializing => match event {
                Event::LibraryFailed(m) => self.fail(ShazamError::FfmpegInit(m)),
                _ => {
                    self.phase = Phase::Opening;
                },
            },
            Phase::Opening => match event {
                Event::Opened { duration_us } => {
                    if duration_us <= 0 {
                        self.fail(ShazamError::InvalidDuration);
                    } else {
                        self.total_ms = duration_us as u64 / 1000;
                        self.phase = Phase::FindingStream;
                    }
                },
                Event::OpenFailed(m) => {
                    let path = self.path.clone();
                    self.fail(ShazamError::OpenFile { path, message: m });
                },
                _ => {},
            },
            Phase::FindingStream => match event {
                Event::StreamFound { index } => {
                    self.stream_index = index;
                    self.phase = Phase::OpeningDecoder;
                },
                _ => self.fail(ShazamError::NoAudioStream),
            },
            Phase::OpeningDecoder => match event {
                Event::DecoderFailed(m) => self.fail(ShazamError::Codec(m)),
                _ => {
                    let window: (u64, u64) = compute_window_at(
                        self.total_ms,
                        self.sample_ms,
                        self.position,
                    );
                    self.start_ms = window.0;
                    self.end_ms = window.1;
                    self.phase = Phase::Seeking;
                },
            },
            Phase::Seeking => match event {
                Event::SeekFailed(m) => self.fail(ShazamError::Seek(m)),
                _ => {
                    let actual_sample_ms: u64 = self.end_ms - self.start_ms;
                    let bytes: u64 = BYTES_PER_SECOND * actual_sample_ms / 1000;
                    self.target_bytes = if bytes <= usize::MAX as u64 {
                        bytes as usize
                    } else {
                        usize::MAX
                    };
                    self.phase = Phase::Reading;
                },
            },
            Phase::Reading => match event {
                Event::Packet { stream_index, pts, time_base_num, time_base_den } => {
                    if stream_index == self.stream_index {
                        if self.is_past_end(pts, time_base_num, time_base_den) {
                            self.phase = Phase::Ending;
                        } else {
                            self.phase = Phase::Sending;
                        }
                    }
                },
                _ => {
                    self.phase = Phase::Ending;
                },
            },
            Phase::Sending => match event {
                Event::PacketAccepted => {
                    self.phase = Phase::Receiving;
                },
                _ => {
                    self.phase = Phase::Reading;
                },
            },
            Phase::Receiving => match event {
                Event::Frame => {
                    if self.has_resampler {
                        self.phase = Phase::Resampling;
                    } else {
                        self.phase = Phase::CreatingResampler;
                    }
                },
                _ => {
                    self.phase = Phase::Reading;
                },
            },
            Phase::CreatingResampler => match event {
                Event::ResamplerFailed(m) => self.fail(ShazamError::Resample(m)),
                _ => {
                    self.has_resampler = true;
                    self.phase = Phase::Resampling;
                },
            },
            Phase::Resampling => {
                self.collect(event);
                if self.collected.len() >= self.target_bytes {
                    self.phase = Phase::Ending;
                } else {
                    self.phase = Phase::Receiving;
                }
            },
            Phase::Ending => {
                self.phase = Phase::Draining;
            },
            Phase::Draining => match event {
                Event::Frame => {
                    if self.has_resampler {
                        self.phase = Phase::DrainResampling;
                    }
                },
                _ => {
                    if self.has_resampler {
                        self.phase = Phase::Flushing;
                    } else {
                        self.complete();
                    }
                },
            },
            Phase::DrainResampling => {
                self.collect(event);
                self.phase = Phase::Draining;
            },
            Phase::Flushing => {
                self.collect(event);
                self.complete();
            },
            Phase::Done => {},
        }
    }

    /// What later parts need to know of the file.
    pub fn context(&self) -> (res: ExtractionContext)
        ensures
            res.file_duration_ms == self@.total_ms,
            res.sample_start_ms == self@.start_ms,
    {
        ExtractionContext { file_duration_ms: self.total_ms, sample_start_ms: self.start_ms }
    }

    /// The sample, or what went wrong.
    pub fn finish(self) -> (res: Result<Vec<u8>, ShazamError>)
        requires
            self@.phase is Done,
        ensures
            match res {
                Ok(sample) => self@.error is None && sample@ == self@.collected,
                Err(error) => self@.error == Some(error),
            },
    {
        match self.error {
            Some(error) => Err(error),
            None => Ok(self.collected),
        }
    }
}

/// The state after a run of events.
pub open spec fn run(s: ExtractionView, events: Seq<Event>) -> ExtractionView
    decreases events.len(),
{
    if events.len() == 0 {
        s
    } else {
        run(s, events.drop_last()).after(events.last())
    }
}

/// Whether each event of a run is accepted in its turn.
pub open spec fn accepts_all(s: ExtractionView, events: Seq<Event>) -> bool
    decreases events.len(),
{
    events.len() > 0 ==> accepts_all(s, events.drop_last()) && run(s, events.drop_last()).accepts(
        events.last(),
    )
}

/// All the audio that the resampler gave in a run of events.
pub open spec fn audio(events: Seq<Event>) -> Seq<u8>
    decreases events.len(),
{
    if events.len() == 0 {
        seq![]
    } else {
        audio(events.drop_last()) + chunk(events.last())
    }
}

/// How often the resampler was set up in a run of events.
pub open spec fn resamplers(events: Seq<Event>) -> nat
    decreases events.len(),
{
    if events.len() == 0 {
        0
    } else {
        resamplers(events.drop_last()) + if events.last() is ResamplerReady {
            1nat
        } else {
            0
        }
    }
}

/// Every state that an extraction reaches is well-formed, and it is about the
/// sample that was asked for.
pub proof fn lemma_run_keeps_wf(
    path: String,
    sample_ms: u64,
    position: SamplePosition,
    events: Seq<Event>,
)
    requires
        accepts_all(ExtractionView::initial(path, sample_ms, position), events),
    ensures
        ({
            let s = run(ExtractionView::initial(path, sample_ms, position), events);
            s.wf() && s.path == path && s.sample_ms == sample_ms && s.position == position
        }),
    decreases events.len(),
{
    let start = ExtractionView::initial(path, sample_ms, position);
    if events.len() > 0 {
        lemma_run_keeps_wf(path, sample_ms, position, events.drop_last());
        lemma_after_keeps_wf(run(start, events.drop_last()), events.last());
    }
}

/// What is collected is all the audio that the resampler gave, in the order in
/// which it came. The sample is its beginning, cut to the size that the length
/// of the sample calls for. Where nothing else went wrong, the lack of audio is
/// reported if and only if that leaves nothing.
pub proof fn lemma_sample_is_beginning_of_audio(
    path: String,
    sample_ms: u64,
    position: SamplePosition,
    events: Seq<Event>,
)
    requires
        accepts_all(ExtractionView::initial(path, sample_ms, position), events),
    ensures
        ({
            let s = run(ExtractionView::initial(path, sample_ms, position), events);
            let all = audio(events);
            let n = if all.len() < s.target_bytes {
                all.len() as int
            } else {
                s.target_bytes as int
            };
            &&& !(s.phase is Done) ==> s.collected == all
            &&& s.phase is Done && s.error is None ==> n > 0 && s.collected == all.take(n)
            &&& s.phase is Done && (s.error is Some ==> s.error == Some(ShazamError::NoAudio))
                ==> (s.error == Some(ShazamError::NoAudio) <==> n == 0)
        }),
    decreases events.len(),
{
    let start = ExtractionView::initial(path, sample_ms, position);
    if events.len() > 0 {
        let before = run(start, events.drop_last());
        lemma_run_keeps_wf(path, sample_ms, position, events.drop_last());
        lemma_sample_is_beginning_of_audio(path, sample_ms, position, events.drop_last());
        assert(chunk(events.last()).len() == 0 ==> audio(events) =~= audio(events.drop_last()));
        assert(!(before.phase is Done));
        assert(before.collected =~= audio(events.drop_last()));
    }
}

/// A sample that was drawn lies where it was asked for, and it is no larger
/// than its length calls for.
pub proof fn lemma_sample_is_what_was_asked_for(
    path: String,
    sample_ms: u64,
    position: SamplePosition,
    events: Seq<Event>,
)
    requires
        accepts_all(ExtractionView::initial(path, sample_ms, position), events),
    ensures
        ({
            let s = run(ExtractionView::initial(path, sample_ms, position), events);
            s.phase is Done && s.error is None ==> {
                &&& s.start_ms == window_start(s.total_ms, sample_ms, position)
                &&& s.end_ms == window_end(s.total_ms, sample_ms, position)
                &&& s.end_ms - s.start_ms == sample_len(s.total_ms, sample_ms)
                &&& 0 < 1000 * s.collected.len() <= service_format().bytes_per_second()
                    * sample_len(s.total_ms, sample_ms)
            }
        }),
{
    lemma_bytes_per_second();
    lemma_run_keeps_wf(path, sample_ms, position, events);
}

/// The resampler is set up at most once, and no audio is collected without it.
pub proof fn lemma_one_resampler(
    path: String,
    sample_ms: u64,
    position: SamplePosition,
    events: Seq<Event>,
)
    requires
        accepts_all(ExtractionView::initial(path, sample_ms, position), events),
    ensures
        resamplers(events) == if run(
            ExtractionView::initial(path, sample_ms, position),
            events,
        ).has_resampler {
            1nat
        } else {
            0
        },
        resamplers(events) == 0 ==> audio(events).len() == 0,
    decreases events.len(),
{
    if events.len() > 0 {
        lemma_run_keeps_wf(path, sample_ms, position, events.drop_last());
        lemma_one_resampler(path, sample_ms, position, events.drop_last());
    }
}

/// How many frames the decoder gave in a run of events.
pub open spec fn frames(events: Seq<Event>) -> nat
    decreases events.len(),
{
    if events.len() == 0 {
        0
    } else {
        frames(events.drop_last()) + if events.last() is Frame {
            1nat
        } else {
            0
        }
    }
}

/// The resampler is set up for the very first frame, right when that comes, and
/// it is to give what the service takes. Until then nothing else is resampled.
pub proof fn lemma_resampler_is_for_first_frame(
    path: String,
    sample_ms: u64,
    position: SamplePosition,
    events: Seq<Event>,
)
    requires
        accepts_all(ExtractionView::initial(path, sample_ms, position), events),
    ensures
        ({
            let s = run(ExtractionView::initial(path, sample_ms, position), events);
            &&& s.action() is CreateResampler ==> s.action() == Action::CreateResampler {
                target: service_format(),
            } && events.len() > 0 && events.last() is Frame && frames(events) == 1
            &&& !s.has_resampler && !is_past_packets(s) && !(s.phase is CreatingResampler)
                ==> frames(events) == 0
        }),
    decreases events.len(),
{
    if events.len() > 0 {
        lemma_run_keeps_wf(path, sample_ms, position, events.drop_last());
        lemma_resampler_is_for_first_frame(path, sample_ms, position, events.drop_last());
    }
}

/// A frame that cannot be resampled is dropped: nothing is collected for it,
/// and the extraction goes on.
pub proof fn lemma_lost_frame_is_dropped(s: ExtractionView)
    requires
        s.wf(),
        s.phase is Resampling || s.phase is DrainResampling,
    ensures
        s.after(Event::NoOutput).collected == s.collected,
        s.after(Event::NoOutput).error is None,
        s.after(Event::NoOutput).action() is ReceiveFrame || s.after(
            Event::NoOutput,
        ).action() is SendEof,
{
    assert(s.collected + chunk(Event::NoOutput) =~= s.collected);
}

/// Whether the extraction is done with the packets of the file.
pub open spec fn is_past_packets(s: ExtractionView) -> bool {
    s.phase is Ending || s.phase is Draining || s.phase is DrainResampling || s.phase is Flushing
        || s.phase is Done
}

/// Once the extraction is done with the packets it never reads another one.
pub proof fn lemma_no_packet_after_the_last(s: ExtractionView, events: Seq<Event>)
    requires
        s.wf(),
        is_past_packets(s),
        accepts_all(s, events),
    ensures
        is_past_packets(run(s, events)),
    decreases events.len(),
{
    if events.len() > 0 {
        lemma_no_packet_after_the_last(s, events.drop_last());
    }
}

/// A packet is decoded if and only if it belongs to the audio stream and does
/// not lie behind the end of the sample. One of another stream changes nothing,
/// and one behind the end is the last that is read.
pub proof fn lemma_which_packets_are_decoded(
    s: ExtractionView,
    stream_index: usize,
    pts: Option<i64>,
    num: i32,
    den: i32,
)
    requires
        s.phase is Reading,
    ensures
        ({
            let e = Event::Packet { stream_index, pts, time_base_num: num, time_base_den: den };
            let next = s.after(e);
            &&& next.action() is SendPacket <==> stream_index == s.stream_index && !s.is_past_end(
                pts,
                num,
                den,
            )
            &&& stream_index != s.stream_index ==> next == s
            &&& is_past_packets(next) <==> stream_index == s.stream_index && s.is_past_end(
                pts,
                num,
                den,
            )
        }),
{
}

/// Reading goes on only as long as the sample is not complete.
pub proof fn lemma_reads_no_more_than_needed(s: ExtractionView, e: Event)
    requires
        s.wf(),
        s.accepts(e),
        s.phase is Resampling,
    ensures
        is_past_packets(s.after(e)) <==> (s.collected + chunk(e)).len() >= s.target_bytes,
{
}

/// A finished extraction takes no further event.
pub proof fn lemma_done_is_final(s: ExtractionView, events: Seq<Event>)
    requires
        s.phase is Done,
        accepts_all(s, events),
    ensures
        events.len() == 0,
    decreases events.len(),
{
    if events.len() > 0 {
        lemma_done_is_final(s, events.drop_last());
    }
}

} // verus!
