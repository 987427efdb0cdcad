use shazam_lib::{encoded_request, identify_reply, identify_request, sample_request, ShazamError};

fn pairs(p: &[(String, String)]) -> Vec<(&str, &str)> {
    p.iter().map(|(a, b)| (a.as_str(), b.as_str())).collect()
}

#[test]
fn request_for_an_encoded_sample() {
    let r = encoded_request("aGVsbG8=", "key", 4_000);
    assert_eq!(r.url, "https://shazam.p.rapidapi.com/songs/v3/detect");
    assert_eq!(
        pairs(&r.query),
        vec![("timezone", "UTC"), ("locale", "en-US"), ("samplems", "4000")],
    );
    assert_eq!(
        pairs(&r.headers),
        vec![
            ("X-RapidAPI-Host", "shazam.p.rapidapi.com"),
            ("X-RapidAPI-Key", "key"),
            ("Content-Type", "text/plain"),
        ],
    );
    assert_eq!(r.body, "aGVsbG8=");
}

#[test]
fn request_for_a_sample() {
    let r = sample_request(b"hello", "", u64::MAX);
    assert_eq!(r.body, "aGVsbG8=");
    assert_eq!(r.query[2].1, "18446744073709551615");
    assert_eq!(r.headers[1].1, "");
}

#[test]
fn request_for_what_was_extracted() {
    let r = identify_request(Ok(b"hello".to_vec()), "key", 4_000).unwrap();
    assert_eq!(r.body, "aGVsbG8=");
    assert_eq!(r.headers[1].1, "key");
    let e = identify_request(Err(ShazamError::NoAudio), "key", 4_000).unwrap_err();
    assert!(matches!(e, ShazamError::NoAudio));
}

#[test]
fn reply_to_a_request() {
    assert_eq!(identify_reply(Ok("{}".to_string())).unwrap(), "{}");
    let e = identify_reply(Err("timed out".to_string())).unwrap_err();
    assert_eq!(e.message(), "HTTP request failed: timed out");
}

#[test]
fn numbers_in_decimal() {
    for n in [0u64, 7, 10, 100, 101, 4_000, 9_876_543_210, u64::MAX] {
        assert_eq!(shazam_lib::text::decimal_text(n), n.to_string());
    }
}

#[test]
fn messages_of_errors() {
    let m = || "why".to_string();
    assert_eq!(ShazamError::FfmpegInit(m()).message(), "Failed to initialize FFmpeg: why");
    assert_eq!(
        ShazamError::OpenFile { path: "a.mp3".to_string(), message: m() }.message(),
        "Failed to open file 'a.mp3': why",
    );
    assert_eq!(ShazamError::NoAudioStream.message(), "No audio stream found in the file");
    assert_eq!(ShazamError::InvalidDuration.message(), "File has an invalid or missing duration");
    assert_eq!(ShazamError::Codec(m()).message(), "Codec error: why");
    assert_eq!(ShazamError::Seek(m()).message(), "Failed to seek in file: why");
    assert_eq!(ShazamError::Decode(m()).message(), "Failed to decode audio: why");
    assert_eq!(ShazamError::Resample(m()).message(), "Failed to resample audio: why");
    assert_eq!(
        ShazamError::NoAudio.message(),
        "No audio samples could be collected from the file",
    );
    assert_eq!(ShazamError::Http(m()).message(), "HTTP request failed: why");
}
