//! What is sent to the service.
use crate::encode::{base64_len, base64_text, encode_to_base64, lemma_base64_is_injective};
use crate::error::ShazamError;
use crate::extract::{
    accepts_all, audio, lemma_sample_is_beginning_of_audio, run, Event, ExtractionView,
};
use crate::text::{decimal, decimal_text};
use crate::window::{lemma_number_of_decimal, number, SamplePosition};
use vstd::prelude::*;

verus! {

/// A request that is posted to the service.
#[derive(Debug)]
pub struct ShazamRequest {
    /// Where it is posted to.
    pub url: String,
    /// Names and values of the query.
    pub query: Vec<(String, String)>,
    /// Names and values of the headers.
    pub headers: Vec<(String, String)>,
    /// The sample as text.
    pub body: String,
}

/// The texts of names and values.
pub open spec fn pair_texts(pairs: Seq<(String, String)>) -> Seq<(Seq<char>, Seq<char>)> {
    pairs.map_values(|p: (String, String)| (p.0@, p.1@))
}

impl ShazamRequest {
    /// Whether the request asks what song `encoded` is a sample of, where the
    /// sample is to be `sample_ms` milliseconds long.
    pub open spec fn asks_for(
        self,
        encoded: Seq<char>,
        api_key: Seq<char>,
        sample_ms: u64,
    ) -> bool {
        &&& self.url@ == "https://shazam.p.rapidapi.com/songs/v3/detect"@
        &&& pair_texts(self.query@) == seq![
            ("timezone"@, "UTC"@),
            ("locale"@, "en-US"@),
            ("samplems"@, decimal(sample_ms as nat)),
        ]
        &&& pair_texts(self.headers@) == seq![
            ("X-RapidAPI-Host"@, "shazam.p.rapidapi.com"@),
            ("X-RapidAPI-Key"@, api_key),
            ("Content-Type"@, "text/plain"@),
        ]
        &&& self.body@ == encoded
    }
}

/// The request for a sample that is encoded already.
pub fn encoded_request(encoded: &str, api_key: &str, sample_ms: u64) -> (res: ShazamRequest)
    ensures
        res.asks_for(encoded@, api_key@, sample_ms),
{
    let mut query: Vec<(String, String)> = Vec::new();
    query.push(("timezone".to_owned(), "UTC".to_owned()));
    query.push(("locale".to_owned(), "en-US".to_owned()));
    query.push(("samplems".to_owned(), decimal_text(sample_ms)));
    let mut headers: Vec<(String, String)> = Vec::new();
    headers.push(("X-RapidAPI-Host".to_owned(), "shazam.p.rapidapi.com".to_owned()));
    headers.push(("X-RapidAPI-Key".to_owned(), api_key.to_owned()));
    headers.push(("Content-Type".to_owned(), "text/plain".to_owned()));
    let res = ShazamRequest {
        url: "https://shazam.p.rapidapi.com/songs/v3/detect".to_owned(),
        query,
        headers,
        body: encoded.to_owned(),
    };
    assert(pair_texts(res.query@) =~= seq![
        ("timezone"@, "UTC"@),
        ("locale"@, "en-US"@),
        ("samplems"@, decimal(sample_ms as nat)),
    ]);
    assert(pair_texts(res.headers@) =~= seq![
        ("X-RapidAPI-Host"@, "shazam.p.rapidapi.com"@),
        ("X-RapidAPI-Key"@, api_key@),
        ("Content-Type"@, "text/plain"@),
    ]);
    res
}

/// The request for a sample.
pub fn sample_request(raw_audio: &[u8], api_key: &str, sample_ms: u64) -> (res: ShazamRequest)
    requires
        base64_len(raw_audio@.len()) <= isize::MAX,
    ensures
        res.asks_for(base64_text(raw_audio@), api_key@, sample_ms),
{
    let encoded = encode_to_base64(raw_audio);
    encoded_request(encoded.as_str(), api_key, sample_ms)
}

/// The request for what was extracted from a file, or what went wrong there.
pub fn identify_request(
    extracted: Result<Vec<u8>, ShazamError>,
    api_key: &str,
    sample_ms: u64,
) -> (res: Result<ShazamRequest, ShazamError>)
    requires
        extracted matches Ok(raw_audio) ==> base64_len(raw_audio@.len()) <= isize::MAX,
    ensures
        match (extracted, res) {
            (Ok(raw_audio), Ok(request)) => request.asks_for(
                base64_text(raw_audio@),
                api_key@,
                sample_ms,
            ),
            (Err(error), Err(reported)) => reported == error,
            _ => false,
        },
{
    match extracted {
        Ok(raw_audio) => Ok(sample_request(raw_audio.as_slice(), api_key, sample_ms)),
        Err(error) => Err(error),
    }
}

/// The answer to a request, or that it could not be had: in that case `reply`
/// holds why.
pub fn identify_reply(reply: Result<String, String>) -> (res: Result<String, ShazamError>)
    ensures
        match (reply, res) {
            (Ok(body), Ok(given)) => given == body,
            (Err(why), Err(ShazamError::Http(message))) => message == why,
            _ => false,
        },
{
    match reply {
        Ok(body) => Ok(body),
        Err(why) => Err(ShazamError::Http(why)),
    }
}

/// What is sent for a file is the beginning of the audio that was resampled, as
/// Base64, and no other bytes than such a beginning are sent as the same text.
pub proof fn lemma_request_carries_the_sample(
    path: String,
    sample_ms: u64,
    position: SamplePosition,
    events: Seq<Event>,
    api_key: Seq<char>,
    request: ShazamRequest,
)
    requires
        accepts_all(ExtractionView::initial(path, sample_ms, position), events),
        ({
            let s = run(ExtractionView::initial(path, sample_ms, position), events);
            s.phase is Done && s.error is None && request.asks_for(
                base64_text(s.collected),
                api_key,
                sample_ms,
            )
        }),
    ensures
        ({
            let s = run(ExtractionView::initial(path, sample_ms, position), events);
            let all = audio(events);
            let n = if all.len() < s.target_bytes {
                all.len() as int
            } else {
                s.target_bytes as int
            };
            n > 0 && request.body@ == base64_text(all.take(n))
        }),
        forall|other: Seq<u8>| #[trigger]
            base64_text(other) == request.body@ ==> other.is_prefix_of(audio(events)),
{
    let s = run(ExtractionView::initial(path, sample_ms, position), events);
    let all = audio(events);
    let n = if all.len() < s.target_bytes {
        all.len() as int
    } else {
        s.target_bytes as int
    };
    lemma_sample_is_beginning_of_audio(path, sample_ms, position, events);
    assert(request.body@ == base64_text(all.take(n)));
    assert forall|other: Seq<u8>| #[trigger]
        base64_text(other) == request.body@ implies other.is_prefix_of(all) by {
        lemma_base64_is_injective(other, all.take(n));
    }
}

/// A request holds one value under each name that the service asks for: the key
/// as it was given, the length of the sample as a number that reads back as it,
/// and the rest the same for all requests. Its body is the sample.
pub proof fn lemma_request_holds_what_was_given(
    request: ShazamRequest,
    encoded: Seq<char>,
    api_key: Seq<char>,
    sample_ms: u64,
)
    requires
        request.asks_for(encoded, api_key, sample_ms),
    ensures
        request.url@ == "https://shazam.p.rapidapi.com/songs/v3/detect"@,
        request.body@ == encoded,
        request.headers@.len() == 3,
        request.headers@[0].0@ == "X-RapidAPI-Host"@,
        request.headers@[0].1@ == "shazam.p.rapidapi.com"@,
        request.headers@[1].0@ == "X-RapidAPI-Key"@,
        request.headers@[2].0@ == "Content-Type"@,
        request.headers@[2].1@ == "text/plain"@,
        forall|i: int|
            0 <= i < 3 && (#[trigger] request.headers@[i]).0@ == "X-RapidAPI-Key"@
                ==> request.headers@[i].1@ == api_key,
        request.query@.len() == 3,
        request.query@[0].0@ == "timezone"@,
        request.query@[0].1@ == "UTC"@,
        request.query@[1].0@ == "locale"@,
        request.query@[1].1@ == "en-US"@,
        request.query@[2].0@ == "samplems"@,
        forall|i: int|
            0 <= i < 3 && (#[trigger] request.query@[i]).0@ == "samplems"@ ==> number(
                request.query@[i].1@,
            ) == Some(sample_ms as nat) && (sample_ms > 0 ==> request.query@[i].1@[0] != '0'),
{
    let headers = pair_texts(request.headers@);
    let query = pair_texts(request.query@);
    assert(headers.len() == 3 && query.len() == 3);
    assert(forall|i: int| 0 <= i < 3 ==> headers[i] == (request.headers@[i].0@, request.headers@[i].1@));
    assert(forall|i: int| 0 <= i < 3 ==> query[i] == (request.query@[i].0@, request.query@[i].1@));
    assert(headers[0] == ("X-RapidAPI-Host"@, "shazam.p.rapidapi.com"@));
    assert(headers[1] == ("X-RapidAPI-Key"@, api_key));
    assert(headers[2] == ("Content-Type"@, "text/plain"@));
    assert(query[0] == ("timezone"@, "UTC"@));
    assert(query[1] == ("locale"@, "en-US"@));
    assert(query[2] == ("samplems"@, decimal(sample_ms as nat)));
    reveal_strlit("X-RapidAPI-Host");
    reveal_strlit("X-RapidAPI-Key");
    reveal_strlit("Content-Type");
    reveal_strlit("timezone");
    reveal_strlit("locale");
    reveal_strlit("samplems");
    assert("timezone"@[0] != "samplems"@[0]);
    assert("locale"@.len() != "samplems"@.len());
    assert("X-RapidAPI-Host"@.len() != "X-RapidAPI-Key"@.len());
    assert("Content-Type"@.len() != "X-RapidAPI-Key"@.len());
    lemma_number_of_decimal(sample_ms as nat);
    if sample_ms > 0 {
        lemma_no_leading_zero(sample_ms as nat);
    }
}

proof fn lemma_no_leading_zero(n: nat)
    requires
        n > 0,
    ensures
        decimal(n).len() > 0,
        decimal(n)[0] != '0',
    decreases n,
{
    if n >= 10 {
        lemma_no_leading_zero(n / 10);
        assert(decimal(n)[0] == decimal(n / 10)[0]);
    }
}

/// A request carries what it was made from: it is not the request for any other
/// sample, key or length.
pub proof fn lemma_request_is_for_one_sample(
    request: ShazamRequest,
    encoded: Seq<char>,
    api_key: Seq<char>,
    sample_ms: u64,
    encoded2: Seq<char>,
    api_key2: Seq<char>,
    sample_ms2: u64,
)
    requires
        request.asks_for(encoded, api_key, sample_ms),
        request.asks_for(encoded2, api_key2, sample_ms2),
    ensures
        encoded == encoded2,
        api_key == api_key2,
        sample_ms == sample_ms2,
{
    lemma_request_holds_what_was_given(request, encoded, api_key, sample_ms);
    lemma_request_holds_what_was_given(request, encoded2, api_key2, sample_ms2);
    assert(request.headers@[1].1@ == api_key);
    assert(request.headers@[1].1@ == api_key2);
    assert(number(request.query@[2].1@) == Some(sample_ms as nat));
    assert(number(request.query@[2].1@) == Some(sample_ms2 as nat));
}

} // verus!
