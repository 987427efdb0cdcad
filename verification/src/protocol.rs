//! What an extraction comes to, told from the events that it was given.
use crate::error::ShazamError;
use crate::extract::{
    accepts_all, audio, lemma_bytes_per_second, lemma_division_by_magnitude, lemma_run_keeps_wf,
    lemma_sample_is_beginning_of_audio, pts_ms, quotient, resamplers, run, saturated, scaled_pts,
    service_format, Action, Event, ExtractionView,
};
use crate::window::{lemma_window_inside_file, window_end, window_start, SamplePosition};
use vstd::prelude::*;

verus! {

/// A new extraction starts with the library, holds no audio and has not failed.
pub proof fn lemma_new_extraction(path: String, sample_ms: u64, position: SamplePosition)
    ensures
        ({
            let s = ExtractionView::initial(path, sample_ms, position);
            &&& s.action() == Action::InitLibrary
            &&& s.path == path && s.sample_ms == sample_ms && s.position == position
            &&& s.collected.len() == 0 && !s.has_resampler && s.error is None
        }),
{
}

/// The service takes signed 16-bit samples of one channel at 44100 Hz, which is
/// 88200 bytes per second.
pub proof fn lemma_what_the_service_takes()
    ensures
        service_format().rate_hz == 44_100,
        service_format().channels == 1,
        service_format().bits_per_sample == 16,
        service_format().is_signed,
        service_format().is_packed,
        service_format().bytes_per_second() == 88_200,
{
    lemma_bytes_per_second();
}

proof fn lemma_total_after_opened(
    path: String,
    sample_ms: u64,
    position: SamplePosition,
    events: Seq<Event>,
    i: int,
    duration_us: i64,
)
    requires
        accepts_all(ExtractionView::initial(path, sample_ms, position), events),
        0 <= i < events.len(),
        events[i] == (Event::Opened { duration_us }),
        duration_us > 0,
    ensures
        ({
            let s = run(ExtractionView::initial(path, sample_ms, position), events);
            &&& s.total_ms == duration_us as int / 1000
            &&& !(s.phase is Initializing)
            &&& !(s.phase is Opening)
        }),
    decreases events.len(),
{
    if i < events.len() - 1 {
        lemma_total_after_opened(path, sample_ms, position, events.drop_last(), i, duration_us);
    }
}

/// The length of the file is what the file stated when it was opened, in whole
/// milliseconds, and nothing that happens later changes it.
pub proof fn lemma_length_of_file(
    path: String,
    sample_ms: u64,
    position: SamplePosition,
    events: Seq<Event>,
    i: int,
    duration_us: i64,
)
    requires
        accepts_all(ExtractionView::initial(path, sample_ms, position), events),
        0 <= i < events.len(),
        events[i] == (Event::Opened { duration_us }),
        duration_us > 0,
    ensures
        ({
            let s = run(ExtractionView::initial(path, sample_ms, position), events);
            s.total_ms * 1000 <= duration_us < s.total_ms * 1000 + 1000
        }),
{
    lemma_total_after_opened(path, sample_ms, position, events, i, duration_us);
}

/// The file is moved to the start of the sample that was asked for, computed
/// from the length that the file stated, and to nowhere behind it.
pub proof fn lemma_seek_goes_to_the_sample(
    path: String,
    sample_ms: u64,
    position: SamplePosition,
    events: Seq<Event>,
    i: int,
    duration_us: i64,
)
    requires
        accepts_all(ExtractionView::initial(path, sample_ms, position), events),
        0 <= i < events.len(),
        events[i] == (Event::Opened { duration_us }),
        duration_us > 0,
        events.last() is DecoderReady,
    ensures
        ({
            let total_ms = (duration_us as int / 1000) as u64;
            let start_us = 1000 * window_start(total_ms, sample_ms, position);
            let s = run(ExtractionView::initial(path, sample_ms, position), events);
            s.action() matches Action::Seek { position_us, latest_us } && position_us == start_us
                && latest_us == start_us
        }),
{
    let before = run(ExtractionView::initial(path, sample_ms, position), events.drop_last());
    lemma_total_after_opened(path, sample_ms, position, events, i, duration_us);
    lemma_run_keeps_wf(path, sample_ms, position, events);
    lemma_run_keeps_wf(path, sample_ms, position, events.drop_last());
    assert(before.phase is OpeningDecoder);
    let s = run(ExtractionView::initial(path, sample_ms, position), events);
    lemma_window_inside_file(s.total_ms, sample_ms, position);
}

/// Once the decoder is set up, start and end of the sample are those that were
/// asked for, computed from the length that the file stated.
pub proof fn lemma_window_from_events(
    path: String,
    sample_ms: u64,
    position: SamplePosition,
    events: Seq<Event>,
    i: int,
    duration_us: i64,
    k: int,
)
    requires
        accepts_all(ExtractionView::initial(path, sample_ms, position), events),
        0 <= i < events.len(),
        events[i] == (Event::Opened { duration_us }),
        duration_us > 0,
        0 <= k < events.len(),
        events[k] is DecoderReady,
    ensures
        ({
            let total_ms = (duration_us as int / 1000) as u64;
            let s = run(ExtractionView::initial(path, sample_ms, position), events);
            &&& s.start_ms == window_start(total_ms, sample_ms, position)
            &&& s.end_ms == window_end(total_ms, sample_ms, position)
        }),
    decreases events.len(),
{
    let start = ExtractionView::initial(path, sample_ms, position);
    let s = run(start, events);
    lemma_total_after_opened(path, sample_ms, position, events, i, duration_us);
    lemma_run_keeps_wf(path, sample_ms, position, events);
    lemma_window_inside_file(s.total_ms, sample_ms, position);
    lemma_past_decoder(path, sample_ms, position, events, k);
    if k == events.len() - 1 {
        assert(run(start, events.drop_last()).phase is OpeningDecoder);
    } else {
        lemma_past_decoder(path, sample_ms, position, events.drop_last(), k);
        if i < events.len() - 1 {
            lemma_window_from_events(
                path,
                sample_ms,
                position,
                events.drop_last(),
                i,
                duration_us,
                k,
            );
        } else {
            assert(run(start, events.drop_last()).phase is Opening);
        }
    }
}

/// Whether the decoder is still to be set up.
spec fn is_before_decoder(s: ExtractionView) -> bool {
    s.phase is Initializing || s.phase is Opening || s.phase is FindingStream
        || s.phase is OpeningDecoder
}

proof fn lemma_past_decoder(
    path: String,
    sample_ms: u64,
    position: SamplePosition,
    events: Seq<Event>,
    k: int,
)
    requires
        accepts_all(ExtractionView::initial(path, sample_ms, position), events),
        0 <= k < events.len(),
        events[k] is DecoderReady,
    ensures
        !is_before_decoder(run(ExtractionView::initial(path, sample_ms, position), events)),
    decreases events.len(),
{
    if k < events.len() - 1 {
        lemma_past_decoder(path, sample_ms, position, events.drop_last(), k);
    }
}

/// The audio stream is the one that was found, and nothing that happens later
/// changes it.
pub proof fn lemma_stream_from_events(
    path: String,
    sample_ms: u64,
    position: SamplePosition,
    events: Seq<Event>,
    j: int,
    index: usize,
)
    requires
        accepts_all(ExtractionView::initial(path, sample_ms, position), events),
        0 <= j < events.len(),
        events[j] == (Event::StreamFound { index }),
    ensures
        ({
            let s = run(ExtractionView::initial(path, sample_ms, position), events);
            &&& s.stream_index == index
            &&& !(s.phase is Initializing)
            &&& !(s.phase is Opening)
            &&& !(s.phase is FindingStream)
        }),
    decreases events.len(),
{
    if j < events.len() - 1 {
        lemma_stream_from_events(path, sample_ms, position, events.drop_last(), j, index);
    }
}

/// What an `i64` can hold stays as it is, and anything else becomes the nearest
/// number that it can hold.
pub proof fn lemma_saturation(x: int)
    ensures
        -0x8000_0000_0000_0000 <= x <= 0x7fff_ffff_ffff_ffff ==> saturated(x) == x,
        x > 0x7fff_ffff_ffff_ffff ==> saturated(x) == 0x7fff_ffff_ffff_ffff,
        x < -0x8000_0000_0000_0000 ==> saturated(x) == -0x8000_0000_0000_0000,
{
}

/// A quotient is rounded toward zero: its magnitude is the whole number of times
/// that the divisor's fits, and its sign is that of the exact quotient.
pub proof fn lemma_rounding(a: int, b: int)
    requires
        b != 0,
    ensures
        ({
            let q = quotient(a, b);
            let qm = if q < 0 { -q } else { q };
            let am = if a < 0 { -a } else { a };
            let bm = if b < 0 { -b } else { b };
            &&& qm * bm <= am < (qm + 1) * bm
            &&& q > 0 ==> (a > 0) == (b > 0)
            &&& q < 0 ==> (a > 0) != (b > 0)
        }),
{
    let am = if a < 0 { -a } else { a };
    let bm = if b < 0 { -b } else { b };
    let m = am / bm;
    assert(m >= 0 && m * bm <= am < (m + 1) * bm) by (nonlinear_arith)
        requires
            am >= 0,
            bm > 0,
            m == am / bm,
    ;
    if a == 0 {
        assert(m == 0) by (nonlinear_arith)
            requires
                m >= 0,
                bm > 0,
                m * bm <= 0,
        ;
    }
}

/// Multiplying out a time: what is within an `i64` is exact, and what is not is
/// kept at the nearest bound at each step.
pub proof fn lemma_scaling(pts: i64, num: i32)
    ensures
        -0x8000_0000_0000_0000 <= pts * 1000 <= 0x7fff_ffff_ffff_ffff && -0x8000_0000_0000_0000
            <= pts * 1000 * num <= 0x7fff_ffff_ffff_ffff ==> scaled_pts(pts, num) == pts * 1000
            * num,
        pts * 1000 > 0x7fff_ffff_ffff_ffff && num > 0 ==> scaled_pts(pts, num)
            == 0x7fff_ffff_ffff_ffff,
        pts * 1000 < -0x8000_0000_0000_0000 && num > 0 ==> scaled_pts(pts, num)
            == -0x8000_0000_0000_0000,
        -0x8000_0000_0000_0000 <= pts * 1000 <= 0x7fff_ffff_ffff_ffff && pts * 1000 * num
            > 0x7fff_ffff_ffff_ffff ==> scaled_pts(pts, num) == 0x7fff_ffff_ffff_ffff,
        -0x8000_0000_0000_0000 <= pts * 1000 <= 0x7fff_ffff_ffff_ffff && pts * 1000 * num
            < -0x8000_0000_0000_0000 ==> scaled_pts(pts, num) == -0x8000_0000_0000_0000,
        num == 0 ==> scaled_pts(pts, num) == 0,
        pts * 1000 > 0x7fff_ffff_ffff_ffff && num < -1 ==> scaled_pts(pts, num)
            == -0x8000_0000_0000_0000,
        pts * 1000 > 0x7fff_ffff_ffff_ffff && num == -1 ==> scaled_pts(pts, num)
            == -0x7fff_ffff_ffff_ffff,
        pts * 1000 < -0x8000_0000_0000_0000 && num < 0 ==> scaled_pts(pts, num)
            == 0x7fff_ffff_ffff_ffff,
{
    let t = saturated(pts * 1000);
    if t > 0 && num > 0 {
        assert(t * num >= t) by (nonlinear_arith)
            requires
                t > 0,
                num > 0,
        ;
    }
    if t < 0 && num > 0 {
        assert(t * num <= t) by (nonlinear_arith)
            requires
                t < 0,
                num > 0,
        ;
    }
    if t > 0 && num < -1 {
        assert(t * num <= -2 * t) by (nonlinear_arith)
            requires
                t > 0,
                num < -1,
        ;
    }
    if t < 0 && num < 0 {
        assert(t * num >= -t) by (nonlinear_arith)
            requires
                t < 0,
                num < 0,
        ;
    }
    if num == -1 {
        assert(t * num == -t) by (nonlinear_arith)
            requires
                num == -1,
        ;
    }
    if num == 0 {
        assert(t * num == 0) by (nonlinear_arith)
            requires
                num == 0,
        ;
    }
}

/// A packet of the audio stream is handed to the decoder if and only if it is
/// presented no later than the end of the sample that was asked for. One that is
/// presented later is the last that is read, and one of another stream is passed
/// over.
///
/// The time base is the usual one, a positive fraction. A time that an `i64`
/// cannot hold once it is multiplied out counts as the largest that it can.
pub proof fn lemma_packet_is_sent_in_time(
    path: String,
    sample_ms: u64,
    position: SamplePosition,
    events: Seq<Event>,
    i: int,
    duration_us: i64,
    j: int,
    index: usize,
    stream_index: usize,
    pts: i64,
    num: i32,
    den: i32,
)
    requires
        accepts_all(ExtractionView::initial(path, sample_ms, position), events),
        0 <= i < events.len(),
        events[i] == (Event::Opened { duration_us }),
        duration_us > 0,
        0 <= j < events.len(),
        events[j] == (Event::StreamFound { index }),
        run(ExtractionView::initial(path, sample_ms, position), events).phase is Reading,
        num > 0,
        den > 0,
    ensures
        ({
            let s = run(ExtractionView::initial(path, sample_ms, position), events);
            let e = Event::Packet {
                stream_index,
                pts: Some(pts),
                time_base_num: num,
                time_base_den: den,
            };
            let next = s.after(e);
            let total_ms = (duration_us as int / 1000) as u64;
            let end_ms = window_end(total_ms, sample_ms, position);
            let product = pts * 1000 * num;
            &&& s.accepts(e)
            &&& next.error is None
            &&& stream_index != index ==> next == s
            &&& stream_index == index ==> next.action() is SendPacket || next.action() is SendEof
            &&& stream_index == index && pts < 0 ==> next.action() is SendPacket
            &&& stream_index == index && pts >= 0 && product <= 0x7fff_ffff_ffff_ffff ==> (
            next.action() is SendPacket <==> product / (den as int) <= end_ms)
            &&& stream_index == index && pts >= 0 && product > 0x7fff_ffff_ffff_ffff ==> (
            next.action() is SendPacket <==> 0x7fff_ffff_ffff_ffffint / (den as int) <= end_ms)
        }),
{
    let s = run(ExtractionView::initial(path, sample_ms, position), events);
    lemma_total_after_opened(path, sample_ms, position, events, i, duration_us);
    lemma_stream_from_events(path, sample_ms, position, events, j, index);
    lemma_run_keeps_wf(path, sample_ms, position, events);
    lemma_window_inside_file(s.total_ms, sample_ms, position);
    lemma_scaling(pts, num);
    let a = scaled_pts(pts, num);
    lemma_division_by_magnitude(
        if a < 0 {
            -a
        } else {
            a
        },
        den as int,
    );
    let millis = pts * 1000;
    if pts >= 0 {
        assert(millis * num >= millis) by (nonlinear_arith)
            requires
                millis >= 0,
                num > 0,
        ;
    } else {
        assert(millis * num < 0) by (nonlinear_arith)
            requires
                millis < 0,
                num > 0,
        ;
    }
}

/// Whatever its time base, a packet of the audio stream is handed to the decoder
/// if and only if it is presented no later than the end of the sample, in whole
/// milliseconds. Where its time is not known it is always handed over.
pub proof fn lemma_packet_of_any_time_base(
    path: String,
    sample_ms: u64,
    position: SamplePosition,
    events: Seq<Event>,
    i: int,
    duration_us: i64,
    j: int,
    index: usize,
    pts: i64,
    num: i32,
    den: i32,
)
    requires
        accepts_all(ExtractionView::initial(path, sample_ms, position), events),
        0 <= i < events.len(),
        events[i] == (Event::Opened { duration_us }),
        duration_us > 0,
        0 <= j < events.len(),
        events[j] == (Event::StreamFound { index }),
        run(ExtractionView::initial(path, sample_ms, position), events).phase is Reading,
    ensures
        ({
            let s = run(ExtractionView::initial(path, sample_ms, position), events);
            let timed = s.after(
                Event::Packet {
                    stream_index: index,
                    pts: Some(pts),
                    time_base_num: num,
                    time_base_den: den,
                },
            );
            let untimed = s.after(
                Event::Packet {
                    stream_index: index,
                    pts: None,
                    time_base_num: num,
                    time_base_den: den,
                },
            );
            let total_ms = (duration_us as int / 1000) as u64;
            let end_ms = window_end(total_ms, sample_ms, position);
            &&& pts_ms(pts, num, den) == quotient(scaled_pts(pts, num), den as int)
            &&& timed.action() is SendPacket <==> pts_ms(pts, num, den) <= end_ms
            &&& timed.action() is SendEof <==> pts_ms(pts, num, den) > end_ms
            &&& untimed.action() is SendPacket
        }),
{
    let s = run(ExtractionView::initial(path, sample_ms, position), events);
    lemma_total_after_opened(path, sample_ms, position, events, i, duration_us);
    lemma_stream_from_events(path, sample_ms, position, events, j, index);
    lemma_run_keeps_wf(path, sample_ms, position, events);
    lemma_window_inside_file(s.total_ms, sample_ms, position);
}

/// Audio is what the resampler gave, whole and in order: each output that holds
/// samples adds all its bytes at the end, and nothing else adds any.
pub proof fn lemma_audio_grows(events: Seq<Event>, e: Event)
    ensures
        audio(seq![]).len() == 0,
        e matches Event::Output { samples, data } ==> samples > 0 ==> audio(events.push(e))
            == audio(events) + data@,
        e matches Event::Output { samples, data } ==> samples == 0 ==> audio(events.push(e))
            == audio(events),
        !(e is Output) ==> audio(events.push(e)) == audio(events),
{
    assert(events.push(e).drop_last() =~= events);
    assert(audio(events) + Seq::<u8>::empty() =~= audio(events));
}

/// How often the resampler was set up is how often it was said to be ready.
pub proof fn lemma_resamplers_grow(events: Seq<Event>, e: Event)
    ensures
        resamplers(seq![]) == 0,
        resamplers(events.push(e)) == resamplers(events) + if e is ResamplerReady {
            1int
        } else {
            0
        },
{
    assert(events.push(e).drop_last() =~= events);
}

/// The sample is the beginning of the audio, as long as its length at 88200
/// bytes per second, in whole bytes, or as long as the audio where there is
/// less. Its length is that which was asked for, or that which the file stated
/// where the file is shorter.
pub proof fn lemma_size_of_sample(
    path: String,
    sample_ms: u64,
    position: SamplePosition,
    events: Seq<Event>,
    i: int,
    duration_us: i64,
)
    requires
        accepts_all(ExtractionView::initial(path, sample_ms, position), events),
        0 <= i < events.len(),
        events[i] == (Event::Opened { duration_us }),
        duration_us > 0,
        run(ExtractionView::initial(path, sample_ms, position), events).phase is Done,
        run(ExtractionView::initial(path, sample_ms, position), events).error is None,
    ensures
        ({
            let s = run(ExtractionView::initial(path, sample_ms, position), events);
            let total_ms = duration_us as int / 1000;
            let ms = if sample_ms <= total_ms {
                sample_ms as int
            } else {
                total_ms
            };
            let all = audio(events);
            let size = 88_200 * ms / 1000;
            &&& s.collected.len() > 0
            &&& s.collected.is_prefix_of(all)
            &&& s.collected.len() <= size
            &&& s.collected.len() == all.len() || s.collected.len() == size || s.collected.len()
                == usize::MAX
        }),
{
    lemma_total_after_opened(path, sample_ms, position, events, i, duration_us);
    lemma_run_keeps_wf(path, sample_ms, position, events);
    lemma_sample_is_beginning_of_audio(path, sample_ms, position, events);
    lemma_bytes_per_second();
}

/// Setting up goes step by step, and each failure ends the extraction with the
/// error of its kind and with the message that came with it.
pub proof fn lemma_setting_up(s: ExtractionView, m: String, index: usize, duration_us: i64)
    ensures
        s.phase is Initializing ==> s.after(Event::LibraryReady).action() is OpenInput,
        s.phase is Initializing ==> fails_with(
            s.after(Event::LibraryFailed(m)),
            ShazamError::FfmpegInit(m),
        ),
        s.phase is Opening && duration_us > 0 ==> s.after(
            Event::Opened { duration_us },
        ).action() is FindAudioStream,
        s.phase is Opening && duration_us <= 0 ==> fails_with(
            s.after(Event::Opened { duration_us }),
            ShazamError::InvalidDuration,
        ),
        s.phase is Opening ==> fails_with(
            s.after(Event::OpenFailed(m)),
            ShazamError::OpenFile { path: s.path, message: m },
        ),
        s.phase is FindingStream ==> s.after(Event::StreamFound { index }).action() is OpenDecoder,
        s.phase is FindingStream ==> fails_with(
            s.after(Event::NoStream),
            ShazamError::NoAudioStream,
        ),
        s.phase is OpeningDecoder ==> s.after(Event::DecoderReady).action() is Seek,
        s.phase is OpeningDecoder ==> fails_with(
            s.after(Event::DecoderFailed(m)),
            ShazamError::Codec(m),
        ),
        s.phase is Seeking ==> s.after(Event::Sought).action() is ReadPacket,
        s.phase is Seeking ==> fails_with(s.after(Event::SeekFailed(m)), ShazamError::Seek(m)),
        s.phase is CreatingResampler ==> s.after(Event::ResamplerReady).action() is Resample,
        s.phase is CreatingResampler ==> fails_with(
            s.after(Event::ResamplerFailed(m)),
            ShazamError::Resample(m),
        ),
{
}

/// Whether an extraction has ended with this error.
pub open spec fn fails_with(s: ExtractionView, error: ShazamError) -> bool {
    s.action() is Finish && s.error == Some(error)
}

/// While packets are read, each that the decoder takes is followed by the frames
/// that it gives, until it has none. The first frame calls for the resampler,
/// and every frame is resampled. Reading ends when the file does.
pub proof fn lemma_decoding(s: ExtractionView)
    ensures
        s.phase is Reading ==> s.after(Event::EndOfInput).action() is SendEof,
        s.phase is Sending ==> s.after(Event::PacketAccepted).phase is Receiving,
        s.phase is Sending ==> s.after(Event::PacketAccepted).action() is ReceiveFrame,
        s.phase is Sending ==> s.after(Event::PacketRejected).action() is ReadPacket,
        s.phase is Receiving && !s.has_resampler ==> s.after(
            Event::Frame,
        ).action() is CreateResampler,
        s.phase is Receiving && s.has_resampler ==> s.after(Event::Frame).action() is Resample,
        s.phase is Receiving && s.has_resampler ==> s.after(Event::Frame).phase is Resampling,
        s.phase is Receiving ==> s.after(Event::NoFrame).action() is ReadPacket,
        s.phase is CreatingResampler ==> s.after(Event::ResamplerReady).phase is Resampling,
        s.phase is CreatingResampler ==> s.after(Event::ResamplerReady).has_resampler,
{
}

/// What a resampled frame gives is collected, and decoding goes on if and only
/// if there is less audio than the sample takes, at 88200 bytes per second.
pub proof fn lemma_collecting(s: ExtractionView, samples: usize, data: Vec<u8>)
    requires
        s.wf(),
        s.phase is Resampling,
        88_200 * (s.end_ms - s.start_ms) / 1000 <= usize::MAX,
    ensures
        ({
            let next = s.after(Event::Output { samples, data });
            let lost = s.after(Event::NoOutput);
            let size = 88_200 * (s.end_ms - s.start_ms) / 1000;
            &&& samples > 0 ==> next.collected == s.collected + data@
            &&& samples == 0 ==> next.collected == s.collected
            &&& lost.collected == s.collected
            &&& next.phase is Receiving <==> next.collected.len() < size
            &&& next.phase is Receiving || next.phase is Ending
            &&& lost.phase is Receiving <==> s.collected.len() < size
            &&& next.action() is ReceiveFrame || next.action() is SendEof
            &&& next.phase is Ending ==> next.action() is SendEof
            &&& next.phase is Receiving ==> next.action() is ReceiveFrame
            &&& next.error is None && lost.error is None
        }),
{
    lemma_bytes_per_second();
    assert(s.collected + Seq::<u8>::empty() =~= s.collected);
}

/// After the last packet the decoder is told, its frames are taken and
/// resampled where there is a resampler, then the resampler is emptied, and
/// then the extraction is done.
pub proof fn lemma_draining(s: ExtractionView, samples: usize, data: Vec<u8>)
    ensures
        s.phase is Ending ==> s.after(Event::EofSent).phase is Draining,
        s.phase is Ending ==> s.after(Event::EofSent).action() is ReceiveFrame,
        s.phase is Draining && s.has_resampler ==> s.after(Event::Frame).action() is Resample,
        s.phase is Draining && s.has_resampler ==> s.after(Event::Frame).phase is DrainResampling,
        s.phase is Draining && !s.has_resampler ==> s.after(Event::Frame) == s,
        s.phase is Draining && s.has_resampler ==> s.after(
            Event::NoFrame,
        ).action() is FlushResampler,
        s.phase is Draining && !s.has_resampler ==> s.after(Event::NoFrame).action() is Finish,
        s.phase is DrainResampling ==> s.after(Event::Output { samples, data }).phase is Draining,
        s.phase is DrainResampling ==> s.after(Event::NoOutput).phase is Draining,
        s.phase is DrainResampling && samples > 0 ==> s.after(
            Event::Output { samples, data },
        ).collected == s.collected + data@,
        s.phase is DrainResampling ==> s.after(Event::NoOutput).collected == s.collected,
        s.phase is Draining ==> s.action() is ReceiveFrame,
        s.phase is DrainResampling ==> s.action() is Resample,
        s.phase is Flushing ==> s.action() is FlushResampler,
        s.phase is Flushing ==> s.after(Event::Output { samples, data }).action() is Finish,
        s.phase is Flushing ==> s.after(Event::NoOutput).action() is Finish,
{
    assert(s.collected + Seq::<u8>::empty() =~= s.collected);
}

/// Each answer to what is to be done is accepted, and nothing else is. The one
/// answer that may be refused besides is one that stands for a size or a time
/// that is not defined.
pub proof fn lemma_which_answers_are_accepted(s: ExtractionView, e: Event)
    ensures
        e is LibraryReady || e is LibraryFailed ==> (s.accepts(e) <==> s.action() is InitLibrary),
        e is Opened || e is OpenFailed ==> (s.accepts(e) <==> s.action() is OpenInput),
        e is StreamFound || e is NoStream ==> (s.accepts(e) <==> s.action() is FindAudioStream),
        e is DecoderReady || e is DecoderFailed ==> (s.accepts(e) <==> s.action() is OpenDecoder),
        e is SeekFailed ==> (s.accepts(e) <==> s.action() is Seek),
        e is Sought ==> (s.accepts(e) <==> s.action() is Seek && 88_200 * (s.end_ms - s.start_ms)
            <= 0xffff_ffff_ffff_ffff),
        e is EndOfInput ==> (s.accepts(e) <==> s.action() is ReadPacket),
        e is PacketAccepted || e is PacketRejected ==> (s.accepts(e)
            <==> s.action() is SendPacket),
        e is Frame || e is NoFrame ==> (s.accepts(e) <==> s.action() is ReceiveFrame),
        e is ResamplerReady || e is ResamplerFailed ==> (s.accepts(e)
            <==> s.action() is CreateResampler),
        e is Output || e is NoOutput ==> (s.accepts(e) <==> s.action() is Resample
            || s.action() is FlushResampler),
        e is EofSent ==> (s.accepts(e) <==> s.action() is SendEof),
        e matches Event::Packet { stream_index, pts, time_base_num, time_base_den } ==> {
            &&& s.accepts(e) ==> s.action() is ReadPacket
            &&& s.action() is ReadPacket && (stream_index != s.stream_index || pts is None
                || time_base_den > 0 || time_base_den < -1) ==> s.accepts(e)
            &&& s.action() is ReadPacket && stream_index == s.stream_index && pts is Some
                && time_base_den == 0 ==> !s.accepts(e)
            &&& s.action() is ReadPacket && stream_index == s.stream_index && pts is Some
                && time_base_den == -1 ==> (s.accepts(e) <==> scaled_pts(pts->0, time_base_num)
                > -0x8000_0000_0000_0000)
        },
        s.action() is Finish ==> !s.accepts(e),
{
    lemma_bytes_per_second();
}

/// An extraction that has failed did so at its last event, and that event says
/// why.
pub proof fn lemma_why_it_failed(
    path: String,
    sample_ms: u64,
    position: SamplePosition,
    events: Seq<Event>,
)
    requires
        accepts_all(ExtractionView::initial(path, sample_ms, position), events),
        run(ExtractionView::initial(path, sample_ms, position), events).error is Some,
    ensures
        events.len() > 0,
        match run(ExtractionView::initial(path, sample_ms, position), events).error->0 {
            ShazamError::FfmpegInit(m) => events.last() == Event::LibraryFailed(m),
            ShazamError::OpenFile { path: p, message } => p == path && events.last()
                == Event::OpenFailed(message),
            ShazamError::InvalidDuration => events.last() matches Event::Opened { duration_us }
                && duration_us <= 0,
            ShazamError::NoAudioStream => events.last() is NoStream,
            ShazamError::Codec(m) => events.last() == Event::DecoderFailed(m),
            ShazamError::Seek(m) => events.last() == Event::SeekFailed(m),
            ShazamError::Resample(m) => events.last() == Event::ResamplerFailed(m),
            ShazamError::NoAudio => events.last() is NoFrame || events.last() is Output
                || events.last() is NoOutput,
            ShazamError::Decode(_) | ShazamError::Http(_) => false,
        },
{
    let start = ExtractionView::initial(path, sample_ms, position);
    if events.len() > 0 {
        lemma_run_keeps_wf(path, sample_ms, position, events.drop_last());
        assert(run(start, events.drop_last()).error is None);
    }
}

} // verus!
