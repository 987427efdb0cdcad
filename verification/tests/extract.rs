use shazam_lib::extract::{BITS_PER_SAMPLE, BYTES_PER_SECOND, CHANNELS, SAMPLE_RATE_HZ};
use shazam_lib::{
    identify_request, Action, AudioFormat, Event, Extraction, ExtractionContext, SamplePosition,
    ShazamError,
};

fn fresh() -> Extraction {
    Extraction::new("a.mp3".to_string(), 4_000, SamplePosition::Percent(50))
}

fn feed(x: &mut Extraction, e: Event) -> Action {
    assert!(x.accepts(&e));
    x.handle(e);
    x.action()
}

fn seek(us: i64) -> Action {
    Action::Seek { position_us: us, latest_us: us }
}

fn create_resampler() -> Action {
    let target = AudioFormat {
        rate_hz: 44_100,
        channels: 1,
        bits_per_sample: 16,
        is_signed: true,
        is_packed: true,
    };
    Action::CreateResampler { target }
}

/// A file of one minute whose audio is stream 1, at the start of its sample.
fn seeking_done() -> Extraction {
    let mut x = fresh();
    assert_eq!(x.action(), Action::InitLibrary);
    assert_eq!(feed(&mut x, Event::LibraryReady), Action::OpenInput);
    assert_eq!(feed(&mut x, Event::Opened { duration_us: 60_000_999 }), Action::FindAudioStream);
    assert_eq!(feed(&mut x, Event::StreamFound { index: 1 }), Action::OpenDecoder);
    assert_eq!(feed(&mut x, Event::DecoderReady), seek(28_000_000));
    assert_eq!(feed(&mut x, Event::Sought), Action::ReadPacket);
    x
}

fn packet(stream_index: usize, pts: Option<i64>) -> Event {
    Event::Packet { stream_index, pts, time_base_num: 1, time_base_den: 1_000 }
}

fn output(byte: u8, len: usize) -> Event {
    Event::Output { samples: len / 2, data: vec![byte; len] }
}

fn error_of(x: Extraction) -> String {
    assert_eq!(x.action(), Action::Finish);
    match x.finish() {
        Ok(_) => panic!("no error"),
        Err(e) => e.message(),
    }
}

#[test]
fn size_of_a_second() {
    let bits = u64::from(SAMPLE_RATE_HZ) * u64::from(CHANNELS) * u64::from(BITS_PER_SAMPLE);
    assert_eq!(8 * BYTES_PER_SECOND, bits);
    assert_eq!(BYTES_PER_SECOND, 88_200);
}

#[test]
fn lost_frames_are_dropped() {
    let mut x = seeking_done();
    feed(&mut x, packet(1, None));
    feed(&mut x, Event::PacketAccepted);
    assert_eq!(feed(&mut x, Event::Frame), create_resampler());
    feed(&mut x, Event::ResamplerReady);
    assert_eq!(feed(&mut x, Event::NoOutput), Action::ReceiveFrame);
    feed(&mut x, Event::NoFrame);
    feed(&mut x, Event::EndOfInput);
    feed(&mut x, Event::EofSent);
    feed(&mut x, Event::Frame);
    assert_eq!(feed(&mut x, Event::NoOutput), Action::ReceiveFrame);
    feed(&mut x, Event::Frame);
    feed(&mut x, output(7, 6));
    feed(&mut x, Event::NoFrame);
    feed(&mut x, Event::NoOutput);
    assert_eq!(x.finish().unwrap(), vec![7u8; 6]);
}

#[test]
fn whole_extraction() {
    let mut x = seeking_done();
    assert_eq!(feed(&mut x, packet(0, Some(28_000))), Action::ReadPacket);
    assert_eq!(feed(&mut x, packet(1, Some(28_000))), Action::SendPacket);
    assert_eq!(feed(&mut x, Event::PacketAccepted), Action::ReceiveFrame);
    assert_eq!(feed(&mut x, Event::Frame), create_resampler());
    assert_eq!(feed(&mut x, Event::ResamplerReady), Action::Resample);
    assert_eq!(feed(&mut x, output(1, 100)), Action::ReceiveFrame);
    assert_eq!(feed(&mut x, Event::Frame), Action::Resample);
    assert_eq!(feed(&mut x, Event::NoOutput), Action::ReceiveFrame);
    assert_eq!(feed(&mut x, Event::NoFrame), Action::ReadPacket);
    assert_eq!(feed(&mut x, packet(1, None)), Action::SendPacket);
    assert_eq!(feed(&mut x, Event::PacketRejected), Action::ReadPacket);
    assert_eq!(feed(&mut x, packet(1, Some(32_001))), Action::SendEof);
    assert_eq!(feed(&mut x, Event::EofSent), Action::ReceiveFrame);
    assert_eq!(feed(&mut x, Event::Frame), Action::Resample);
    assert_eq!(feed(&mut x, output(2, 10)), Action::ReceiveFrame);
    assert_eq!(feed(&mut x, Event::NoFrame), Action::FlushResampler);
    assert_eq!(feed(&mut x, output(3, 4)), Action::Finish);
    assert_eq!(
        x.context(),
        ExtractionContext { file_duration_ms: 60_000, sample_start_ms: 28_000 },
    );
    let mut expected = vec![1u8; 100];
    expected.extend(vec![2u8; 10]);
    expected.extend(vec![3u8; 4]);
    assert_eq!(x.finish().unwrap(), expected);
}

#[test]
fn sample_is_cut_to_size() {
    let mut x = seeking_done();
    feed(&mut x, packet(1, Some(28_000)));
    feed(&mut x, Event::PacketAccepted);
    feed(&mut x, Event::Frame);
    feed(&mut x, Event::ResamplerReady);
    assert_eq!(feed(&mut x, output(1, 352_798)), Action::ReceiveFrame);
    feed(&mut x, Event::Frame);
    assert_eq!(feed(&mut x, output(2, 2)), Action::SendEof);
    feed(&mut x, Event::EofSent);
    feed(&mut x, Event::NoFrame);
    feed(&mut x, output(3, 50));
    let sample = x.finish().unwrap();
    // Four seconds at 44100 samples of two bytes each.
    assert_eq!(sample.len(), 352_800);
    assert_eq!(sample[352_797], 1);
    assert_eq!(sample[352_799], 2);
}

#[test]
fn sample_is_what_is_sent() {
    let mut x = seeking_done();
    feed(&mut x, packet(1, Some(28_000)));
    feed(&mut x, Event::PacketAccepted);
    feed(&mut x, Event::Frame);
    assert_eq!(feed(&mut x, Event::ResamplerReady), Action::Resample);
    feed(&mut x, Event::Output { samples: 1, data: b"he".to_vec() });
    // The resampler is there already.
    assert_eq!(feed(&mut x, Event::Frame), Action::Resample);
    feed(&mut x, Event::Output { samples: 1, data: b"ll".to_vec() });
    feed(&mut x, Event::NoFrame);
    feed(&mut x, Event::EndOfInput);
    feed(&mut x, Event::EofSent);
    feed(&mut x, Event::NoFrame);
    feed(&mut x, Event::Output { samples: 1, data: b"o".to_vec() });
    let request = identify_request(x.finish(), "key", 4_000).unwrap();
    assert_eq!(request.body, "aGVsbG8=");
}

#[test]
fn empty_output_is_not_collected() {
    let mut x = seeking_done();
    feed(&mut x, packet(1, Some(28_000)));
    feed(&mut x, Event::PacketAccepted);
    feed(&mut x, Event::Frame);
    feed(&mut x, Event::ResamplerReady);
    feed(&mut x, Event::Output { samples: 0, data: vec![9; 64] });
    feed(&mut x, Event::NoFrame);
    feed(&mut x, Event::EndOfInput);
    feed(&mut x, Event::EofSent);
    feed(&mut x, Event::NoFrame);
    feed(&mut x, Event::NoOutput);
    assert_eq!(error_of(x), "No audio samples could be collected from the file");
}

#[test]
fn frames_without_a_resampler_are_dropped_at_the_end() {
    let mut x = seeking_done();
    assert_eq!(feed(&mut x, Event::EndOfInput), Action::SendEof);
    assert_eq!(feed(&mut x, Event::EofSent), Action::ReceiveFrame);
    assert_eq!(feed(&mut x, Event::Frame), Action::ReceiveFrame);
    assert_eq!(feed(&mut x, Event::NoFrame), Action::Finish);
    assert_eq!(error_of(x), "No audio samples could be collected from the file");
}

#[test]
fn times_of_packets() {
    // (pts, numerator, denominator, behind the end at 32 s)
    for (pts, num, den, past) in [
        (32_000i64, 1i32, 1_000i32, false),
        (32_001, 1, 1_000, true),
        (1_411_200, 1, 44_100, false),
        (1_411_245, 1, 44_100, true),
        (-5, 1, 1_000, false),
        (i64::MAX, 1, 1_000, true),
        (i64::MAX, i32::MAX, i32::MAX, true),
        (i64::MIN, 1, 1, false),
        (i64::MIN, -1, 1, true),
        (32_999, 1, -1_000, false),
        (-32_001, 1, -1_000, true),
        (i64::MAX, 1, i32::MAX, true),
    ] {
        let mut x = seeking_done();
        let e = Event::Packet { stream_index: 1, pts: Some(pts), time_base_num: num, time_base_den: den };
        let expected = if past { Action::SendEof } else { Action::SendPacket };
        assert_eq!(feed(&mut x, e), expected, "{pts} {num}/{den}");
    }
}

#[test]
fn undefined_times_are_not_accepted() {
    let x = seeking_done();
    let at = |stream_index, pts, time_base_num, time_base_den| Event::Packet {
        stream_index,
        pts,
        time_base_num,
        time_base_den,
    };
    assert!(!x.accepts(&at(1, Some(1), 1, 0)));
    assert!(!x.accepts(&at(1, Some(i64::MIN), 1, -1)));
    assert!(x.accepts(&at(0, Some(1), 1, 0)));
    assert!(x.accepts(&at(1, None, 1, 0)));
}

#[test]
fn only_answers_are_accepted() {
    let x = fresh();
    assert!(!x.accepts(&Event::Sought));
    assert!(!x.accepts(&Event::EndOfInput));
    assert!(x.accepts(&Event::LibraryFailed(String::new())));
    let mut x = fresh();
    feed(&mut x, Event::LibraryFailed("no".to_string()));
    for e in [Event::LibraryReady, Event::EndOfInput, Event::NoFrame, Event::EofSent, Event::NoOutput] {
        assert!(!x.accepts(&e));
    }
}

#[test]
fn sample_too_large_to_measure_is_not_accepted() {
    let mut x = Extraction::new("a".to_string(), u64::MAX, SamplePosition::StartMs(0));
    feed(&mut x, Event::LibraryReady);
    feed(&mut x, Event::Opened { duration_us: i64::MAX });
    feed(&mut x, Event::StreamFound { index: 0 });
    assert_eq!(feed(&mut x, Event::DecoderReady), seek(0));
    assert!(!x.accepts(&Event::Sought));
    assert!(x.accepts(&Event::SeekFailed(String::new())));
}

#[test]
fn position_is_where_the_file_is_moved_to() {
    let mut x = Extraction::new("a".to_string(), 4_000, SamplePosition::StartMs(90_000));
    feed(&mut x, Event::LibraryReady);
    feed(&mut x, Event::Opened { duration_us: 300_000_000 });
    feed(&mut x, Event::StreamFound { index: 0 });
    assert_eq!(feed(&mut x, Event::DecoderReady), seek(90_000_000));
    assert_eq!(x.context().sample_start_ms, 90_000);
}

#[test]
fn library_failure() {
    let mut x = fresh();
    feed(&mut x, Event::LibraryFailed("why".to_string()));
    assert_eq!(error_of(x), "Failed to initialize FFmpeg: why");
}

#[test]
fn open_failure() {
    let mut x = fresh();
    feed(&mut x, Event::LibraryReady);
    feed(&mut x, Event::OpenFailed("why".to_string()));
    assert_eq!(error_of(x), "Failed to open file 'a.mp3': why");
}

#[test]
fn missing_duration() {
    for duration_us in [0, -1, i64::MIN] {
        let mut x = fresh();
        feed(&mut x, Event::LibraryReady);
        feed(&mut x, Event::Opened { duration_us });
        assert_eq!(error_of(x), "File has an invalid or missing duration");
    }
}

#[test]
fn missing_stream() {
    let mut x = fresh();
    feed(&mut x, Event::LibraryReady);
    feed(&mut x, Event::Opened { duration_us: 1 });
    feed(&mut x, Event::NoStream);
    assert_eq!(error_of(x), "No audio stream found in the file");
}

#[test]
fn decoder_failure() {
    let mut x = fresh();
    feed(&mut x, Event::LibraryReady);
    feed(&mut x, Event::Opened { duration_us: 60_000_000 });
    feed(&mut x, Event::StreamFound { index: 0 });
    feed(&mut x, Event::DecoderFailed("why".to_string()));
    assert_eq!(error_of(x), "Codec error: why");
}

#[test]
fn seek_failure() {
    let mut x = fresh();
    feed(&mut x, Event::LibraryReady);
    feed(&mut x, Event::Opened { duration_us: 60_000_000 });
    feed(&mut x, Event::StreamFound { index: 0 });
    feed(&mut x, Event::DecoderReady);
    feed(&mut x, Event::SeekFailed("why".to_string()));
    assert_eq!(error_of(x), "Failed to seek in file: why");
}

#[test]
fn resampler_failure() {
    let mut x = seeking_done();
    feed(&mut x, packet(1, None));
    feed(&mut x, Event::PacketAccepted);
    feed(&mut x, Event::Frame);
    feed(&mut x, Event::ResamplerFailed("why".to_string()));
    match x.finish() {
        Err(ShazamError::Resample(m)) => assert_eq!(m, "why"),
        _ => panic!("another outcome"),
    }
}
