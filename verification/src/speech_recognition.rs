//! The streaming recognition session: identifiers, outbound message and
//! frame construction, and the protocol state machine around the outbound
//! buffer and the inbound transcript dispatch.
//!
//! The session itself never touches a socket: every outbound send is
//! returned to the caller as a finished text message or binary frame, and
//! every inbound text message is handed in by the caller. The caller owns
//! the duplex connection and drives both directions.

use vstd::prelude::*;
use vstd::string::*;
use vstd::utf8::encode_utf8;

pub use crate::protocol::{parse_headers, split_header_body};
use crate::protocol::{spec_parse_headers, spec_split_header_body};

verus! {

/// The uppercase hexadecimal digit with value `n`.
pub open spec fn hex_upper_digit(n: int) -> char {
    seq!['0', '1', '2', '3', '4', '5', '6', '7', '8', '9', 'A', 'B', 'C', 'D', 'E', 'F'][n]
}

/// The uppercase hexadecimal encoding of a byte sequence: two digits per
/// byte, high nibble first.
pub open spec fn hex_upper_of(bytes: Seq<u8>) -> Seq<char>
    decreases bytes.len(),
{
    if bytes.len() == 0 {
        Seq::empty()
    } else {
        seq![
            hex_upper_digit(bytes[0] as int / 16),
            hex_upper_digit(bytes[0] as int % 16),
        ] + hex_upper_of(bytes.drop_first())
    }
}

/// The hexadecimal encoding has two characters per byte.
pub proof fn lemma_hex_upper_len(bytes: Seq<u8>)
    ensures
        hex_upper_of(bytes).len() == 2 * bytes.len(),
    decreases bytes.len(),
{
    if bytes.len() > 0 {
        lemma_hex_upper_len(bytes.drop_first());
    }
}

/// Relies on rand::thread_rng and rand::RngCore::fill_bytes: sixteen
/// bytes from the thread-local generator. The values are random, so
/// nothing is promised of them beyond the count.
#[verifier::external_body]
fn random_bytes_16() -> (r: Vec<u8>)
    ensures
        r@.len() == 16,
{
    let mut buf = [0u8; 16];
    rand::RngCore::fill_bytes(&mut rand::thread_rng(), &mut buf);
    buf.to_vec()
}

/// Relies on hex::encode_upper: each byte becomes two uppercase
/// hexadecimal digits, high nibble first.
#[verifier::external_body]
fn hex_encode_upper(bytes: &Vec<u8>) -> (r: String)
    ensures
        r@ == hex_upper_of(bytes@),
{
    hex::encode_upper(bytes.as_slice())
}

/// Relies on time::OffsetDateTime::now_utc formatted with the well-known
/// RFC 3339 description. The result depends on the clock, so nothing is
/// promised of it; a formatting failure yields an empty string.
#[verifier::external_body]
pub fn get_timestamp() -> String {
    match time::OffsetDateTime::now_utc().format(
        &time::format_description::well_known::Rfc3339,
    ) {
        Ok(s) => s,
        Err(_) => String::new(),
    }
}

/// A fresh correlation id: sixteen random bytes encoded as thirty-two
/// uppercase hexadecimal characters.
pub fn random_request_id() -> (r: String)
    ensures
        r@.len() == 32,
        exists|b: Seq<u8>| b.len() == 16 && r@ == hex_upper_of(b),
{
    let bytes = random_bytes_16();
    proof {
        lemma_hex_upper_len(bytes@);
    }
    hex_encode_upper(&bytes)
}

/// A partial transcript: the decoded body of a `speech.hypothesis`
/// message.
#[derive(Debug, Clone, PartialEq)]
pub struct SpeechHypothesis {
    pub text: String,
    pub offset: i64,
    pub duration: i64,
}

impl Default for SpeechHypothesis {
    /// An empty hypothesis.
    fn default() -> (r: Self)
        ensures
            r.text@ == Seq::<char>::empty(),
            r.offset == 0,
            r.duration == 0,
    {
        SpeechHypothesis { text: String::new(), offset: 0, duration: 0 }
    }
}

/// A final transcript: the decoded body of a `speech.phrase` message.
#[derive(Debug, Clone, PartialEq)]
pub struct SpeechPhrase {
    pub recognition_status: String,
    pub offset: i64,
    pub duration: i64,
    pub display_text: String,
}

impl Default for SpeechPhrase {
    /// An empty phrase.
    fn default() -> (r: Self)
        ensures
            r.recognition_status@ == Seq::<char>::empty(),
            r.offset == 0,
            r.duration == 0,
            r.display_text@ == Seq::<char>::empty(),
    {
        SpeechPhrase {
            recognition_status: String::new(),
            offset: 0,
            duration: 0,
            display_text: String::new(),
        }
    }
}

/// What the JSON parse of a partial-hypothesis body returns: the `Text`,
/// `Offset` and `Duration` fields, or nothing when the body is not such a
/// record. A function of the body text alone.
pub uninterp spec fn hypothesis_of(s: Seq<char>) -> Option<(Seq<char>, int, int)>;

/// What the JSON parse of a final-phrase body returns: the
/// `RecognitionStatus`, `Offset`, `Duration` and `DisplayText` fields
/// (`DisplayText` defaults to empty when absent), or nothing when the
/// body is not such a record. A function of the body text alone.
pub uninterp spec fn phrase_of(s: Seq<char>) -> Option<(Seq<char>, int, int, Seq<char>)>;

/// Relies on serde_json::from_str (reading a serde_json::Value with get,
/// as_str and as_i64) to parse a partial-hypothesis body: an object with
/// a string `Text` and integer `Offset` and `Duration` fields. The parse
/// is a function of the body alone, named by [`hypothesis_of`].
#[verifier::external_body]
fn parse_hypothesis(s: &str) -> (r: Option<SpeechHypothesis>)
    ensures
        r matches Some(h) ==> hypothesis_of(s@) == Some(
            (h.text@, h.offset as int, h.duration as int),
        ),
        r is Some <==> hypothesis_of(s@) is Some,
{
    let v: serde_json::Value = serde_json::from_str(s).ok()?;
    let text = v.get("Text")?.as_str()?.to_string();
    let offset = v.get("Offset")?.as_i64()?;
    let duration = v.get("Duration")?.as_i64()?;
    Some(SpeechHypothesis { text, offset, duration })
}

/// Relies on serde_json::from_str (reading a serde_json::Value with get,
/// as_str and as_i64) to parse a final-phrase body: an object with a
/// string `RecognitionStatus`, integer `Offset` and `Duration`, and an
/// optional string `DisplayText`. The parse is a function of the body
/// alone, named by [`phrase_of`].
#[verifier::external_body]
fn parse_phrase(s: &str) -> (r: Option<SpeechPhrase>)
    ensures
        r matches Some(p) ==> phrase_of(s@) == Some(
            (p.recognition_status@, p.offset as int, p.duration as int, p.display_text@),
        ),
        r is Some <==> phrase_of(s@) is Some,
{
    let v: serde_json::Value = serde_json::from_str(s).ok()?;
    let recognition_status = v.get("RecognitionStatus")?.as_str()?.to_string();
    let offset = v.get("Offset")?.as_i64()?;
    let duration = v.get("Duration")?.as_i64()?;
    let display_text = match v.get("DisplayText") {
        Some(d) => d.as_str()?.to_string(),
        None => String::new(),
    };
    Some(SpeechPhrase { recognition_status, offset, duration, display_text })
}

/// What [`get_request_url`] returns: the fixed recognition endpoint with
/// the two correlation ids embedded.
pub open spec fn spec_request_url(uqurequestid: Seq<char>, x_connection_id: Seq<char>) -> Seq<
    char,
> {
    "wss://sr.bing.com/opaluqu/speech/recognition/interactive/cognitiveservices/v1?clientbuild=bingDesktop&referer=https%3A%2F%2Fwww.bing.com%2F&form=QBLH&uqurequestid="@
        + uqurequestid
        + "&language=xx-yy&format=simple&Ocp-Apim-Subscription-Key=key&X-ConnectionId="@
        + x_connection_id
}

/// The connection target for one session, with the request and connection
/// ids embedded in the query string.
pub fn get_request_url(uqurequestid: &str, x_connection_id: &str) -> (r: String)
    ensures
        r@ == spec_request_url(uqurequestid@, x_connection_id@),
{
    let mut url = String::from_str(
        "wss://sr.bing.com/opaluqu/speech/recognition/interactive/cognitiveservices/v1?clientbuild=bingDesktop&referer=https%3A%2F%2Fwww.bing.com%2F&form=QBLH&uqurequestid=",
    );
    url.append(uqurequestid);
    url.append("&language=xx-yy&format=simple&Ocp-Apim-Subscription-Key=key&X-ConnectionId=");
    url.append(x_connection_id);
    proof {
        assert(url@ =~= spec_request_url(uqurequestid@, x_connection_id@));
    }
    url
}

/// What a control message looks like: `Path`, `X-RequestId`,
/// `X-Timestamp` and a JSON content type, a blank line, then the body.
pub open spec fn spec_control_message(
    path: Seq<char>,
    request_id: Seq<char>,
    timestamp: Seq<char>,
    body: Seq<char>,
) -> Seq<char> {
    "Path: "@ + path + "\r\nX-RequestId: "@ + request_id + "\r\nX-Timestamp: "@ + timestamp
        + "\r\nContent-Type: application/json\r\n\r\n"@ + body
}

/// Build one outbound control message as text.
pub fn build_control_message(path: &str, request_id: &str, timestamp: &str, body: &str) -> (r:
    String)
    ensures
        r@ == spec_control_message(path@, request_id@, timestamp@, body@),
{
    let mut m = String::from_str("Path: ");
    m.append(path);
    m.append("\r\nX-RequestId: ");
    m.append(request_id);
    m.append("\r\nX-Timestamp: ");
    m.append(timestamp);
    m.append("\r\nContent-Type: application/json\r\n\r\n");
    m.append(body);
    proof {
        assert(m@ =~= spec_control_message(path@, request_id@, timestamp@, body@));
    }
    m
}

/// The fixed client description sent in the `speech.config` message.
pub open spec fn spec_speech_config_body() -> Seq<char> {
    r#"{"context":{"system":{"name":"SpeechSDK","version":"1.15.0-alpha.0.1","build":"JavaScript","lang":"JavaScript"},"os":{"platform":"Browser/Win32","name":"Mozilla/5.0 (Windows NT 10.0; Win64; x64) AppleWebKit/537.36 (KHTML, like Gecko) Chrome/131.0.0.0 Safari/537.36 Edg/131.0.0.0","version":"5.0 (Windows NT 10.0; Win64; x64) AppleWebKit/537.36 (KHTML, like Gecko) Chrome/131.0.0.0 Safari/537.36 Edg/131.0.0.0"},"audio":{"source":{"bitspersample":16,"channelcount":1,"connectivity":"Unknown","manufacturer":"Speech SDK","model":"Default - Microphone","samplerate":16000,"type":"Microphones"}}},"recognition":"interactive"}"#@
}

/// The fixed client description sent in the `speech.config` message.
pub fn speech_config_body() -> (r: &'static str)
    ensures
        r@ == spec_speech_config_body(),
{
    r#"{"context":{"system":{"name":"SpeechSDK","version":"1.15.0-alpha.0.1","build":"JavaScript","lang":"JavaScript"},"os":{"platform":"Browser/Win32","name":"Mozilla/5.0 (Windows NT 10.0; Win64; x64) AppleWebKit/537.36 (KHTML, like Gecko) Chrome/131.0.0.0 Safari/537.36 Edg/131.0.0.0","version":"5.0 (Windows NT 10.0; Win64; x64) AppleWebKit/537.36 (KHTML, like Gecko) Chrome/131.0.0.0 Safari/537.36 Edg/131.0.0.0"},"audio":{"source":{"bitspersample":16,"channelcount":1,"connectivity":"Unknown","manufacturer":"Speech SDK","model":"Default - Microphone","samplerate":16000,"type":"Microphones"}}},"recognition":"interactive"}"#
}

/// The fixed browser identity sent as the `User-Agent` header.
pub open spec fn spec_user_agent() -> Seq<char> {
    "Mozilla/5.0 (Windows NT 10.0; Win64; x64) AppleWebKit/537.36 (KHTML, like Gecko) Chrome/131.0.0.0 Safari/537.36 Edg/131.0.0.0"@
}

/// The fixed browser identity sent as the `User-Agent` header.
pub fn user_agent() -> (r: &'static str)
    ensures
        r@ == spec_user_agent(),
{
    "Mozilla/5.0 (Windows NT 10.0; Win64; x64) AppleWebKit/537.36 (KHTML, like Gecko) Chrome/131.0.0.0 Safari/537.36 Edg/131.0.0.0"
}

/// The header of an outbound audio chunk. The very first chunk of a
/// session declares its content type; later chunks omit it.
pub open spec fn spec_audio_chunk_header(
    request_id: Seq<char>,
    timestamp: Seq<char>,
    first: bool,
) -> Seq<char> {
    "Path: audio\r\nX-RequestId: "@ + request_id + "\r\nX-Timestamp: "@ + timestamp + (
    if first {
        "\r\nContent-Type: audio/x-wav\r\n"@
    } else {
        "\r\n"@
    })
}

/// Build the header of one outbound audio chunk as text.
pub fn build_audio_chunk_header(request_id: &str, timestamp: &str, first: bool) -> (r: String)
    ensures
        r@ == spec_audio_chunk_header(request_id@, timestamp@, first),
{
    let mut h = String::from_str("Path: audio\r\nX-RequestId: ");
    h.append(request_id);
    h.append("\r\nX-Timestamp: ");
    h.append(timestamp);
    if first {
        h.append("\r\nContent-Type: audio/x-wav\r\n");
    } else {
        h.append("\r\n");
    }
    proof {
        assert(h@ =~= spec_audio_chunk_header(request_id@, timestamp@, first));
    }
    h
}

/// A byte sequence preceded by its length as two big-endian bytes (the
/// length taken modulo two-byte range, as the framing writes it).
pub open spec fn spec_length_prefixed(payload: Seq<u8>) -> Seq<u8> {
    seq![
        ((payload.len() as int / 256) % 256) as u8,
        ((payload.len() as int) % 256) as u8,
    ] + payload
}

/// The outbound buffer right after priming: the length-prefixed UTF-8
/// bytes of one audio chunk header, with no audio payload yet.
pub open spec fn spec_primed_buffer(
    request_id: Seq<char>,
    timestamp: Seq<char>,
    first: bool,
) -> Seq<u8> {
    spec_length_prefixed(encode_utf8(spec_audio_chunk_header(request_id, timestamp, first)))
}

/// Reset the outbound buffer to a fresh chunk header: the two-byte
/// big-endian header length, then the header bytes.
fn prime_chunk_buffer(buffer: &mut Vec<u8>, request_id: &str, timestamp: &str, first: bool)
    ensures
        final(buffer)@ == spec_primed_buffer(request_id@, timestamp@, first),
{
    buffer.clear();
    let header = build_audio_chunk_header(request_id, timestamp, first);
    let mut hb = header.as_str().as_bytes_vec();
    let len = hb.len();
    buffer.push(((len / 256) % 256) as u8);
    buffer.push((len % 256) as u8);
    buffer.append(&mut hb);
    proof {
        assert(buffer@ =~= spec_primed_buffer(request_id@, timestamp@, first));
    }
}

/// The fixed leading bytes of a wave header: the `RIFF` tag, a zero
/// chunk size, the `WAVE` tag and the `fmt ` tag.
pub open spec fn spec_riff_prefix() -> Seq<u8> {
    seq![
        0x52u8, 0x49u8, 0x46u8, 0x46u8,  // "RIFF"
        0x00u8, 0x00u8, 0x00u8, 0x00u8,  // chunk size left zero for streaming
        0x57u8, 0x41u8, 0x56u8, 0x45u8,  // "WAVE"
        0x66u8, 0x6du8, 0x74u8, 0x20u8,  // "fmt "
    ]
}

/// The trailing `data` tag of a wave header.
pub open spec fn spec_data_tag() -> Seq<u8> {
    seq![0x64u8, 0x61u8, 0x74u8, 0x61u8]
}

/// A non-negative value as two little-endian bytes.
pub open spec fn spec_le16(x: int) -> Seq<u8> {
    seq![(x % 256) as u8, ((x / 256) % 256) as u8]
}

/// A non-negative value as four little-endian bytes.
pub open spec fn spec_le32(x: int) -> Seq<u8> {
    seq![
        (x % 256) as u8,
        ((x / 256) % 256) as u8,
        ((x / 65536) % 256) as u8,
        ((x / 16777216) % 256) as u8,
    ]
}

/// What [`build_wave_header`] returns: the RIFF prefix, a sixteen-byte
/// format block with the derived block alignment and byte rate, and the
/// `data` tag.
pub open spec fn spec_wave_header(
    format_tag: int,
    channels: int,
    samples_per_sec: int,
    bits_per_sample: int,
) -> Seq<u8> {
    let block_align = channels * bits_per_sample / 8;
    let avg_bytes_per_sec = samples_per_sec * block_align;
    spec_riff_prefix() + seq![0x10u8, 0x00u8, 0x00u8, 0x00u8] + spec_le16(format_tag)
        + spec_le16(channels) + spec_le32(samples_per_sec) + spec_le32(avg_bytes_per_sec)
        + spec_le16(block_align) + spec_le16(bits_per_sample) + spec_data_tag()
}

/// Build a streaming wave header from the format fields: format tag `1`
/// is integer PCM and `3` is IEEE-float PCM; the block alignment and
/// average byte rate are derived from the channel count, sample rate and
/// sample width.
pub fn build_wave_header(
    format_tag: u16,
    channels: u16,
    samples_per_sec: u32,
    bits_per_sample: u16,
) -> (r: Vec<u8>)
    requires
        channels * bits_per_sample <= u16::MAX,
        samples_per_sec * (channels * bits_per_sample / 8) <= u32::MAX,
    ensures
        r@ == spec_wave_header(
            format_tag as int,
            channels as int,
            samples_per_sec as int,
            bits_per_sample as int,
        ),
{
    let block_align: u16 = channels * bits_per_sample / 8;
    let avg_bytes_per_sec: u32 = samples_per_sec * (block_align as u32);
    let mut buf: Vec<u8> = Vec::new();
    buf.push(0x52);
    buf.push(0x49);
    buf.push(0x46);
    buf.push(0x46);
    buf.push(0x00);
    buf.push(0x00);
    buf.push(0x00);
    buf.push(0x00);
    buf.push(0x57);
    buf.push(0x41);
    buf.push(0x56);
    buf.push(0x45);
    buf.push(0x66);
    buf.push(0x6d);
    buf.push(0x74);
    buf.push(0x20);
    buf.push(0x10);
    buf.push(0x00);
    buf.push(0x00);
    buf.push(0x00);
    buf.push((format_tag % 256) as u8);
    buf.push(((format_tag / 256) % 256) as u8);
    buf.push((channels % 256) as u8);
    buf.push(((channels / 256) % 256) as u8);
    buf.push((samples_per_sec % 256) as u8);
    buf.push(((samples_per_sec / 256) % 256) as u8);
    buf.push(((samples_per_sec / 65536) % 256) as u8);
    buf.push(((samples_per_sec / 16777216) % 256) as u8);
    buf.push((avg_bytes_per_sec % 256) as u8);
    buf.push(((avg_bytes_per_sec / 256) % 256) as u8);
    buf.push(((avg_bytes_per_sec / 65536) % 256) as u8);
    buf.push(((avg_bytes_per_sec / 16777216) % 256) as u8);
    buf.push((block_align % 256) as u8);
    buf.push(((block_align / 256) % 256) as u8);
    buf.push((bits_per_sample % 256) as u8);
    buf.push(((bits_per_sample / 256) % 256) as u8);
    buf.push(0x64);
    buf.push(0x61);
    buf.push(0x74);
    buf.push(0x61);
    proof {
        assert(buf@ =~= spec_wave_header(
            format_tag as int,
            channels as int,
            samples_per_sec as int,
            bits_per_sample as int,
        ));
    }
    buf
}

/// What [`build_wave_header_from_wave_format`] returns: the RIFF prefix,
/// the format block's byte length as four little-endian bytes, the block
/// itself, and the `data` tag.
pub open spec fn spec_wave_header_from_wave_format(wave_format_bytes: Seq<u8>) -> Seq<u8> {
    spec_riff_prefix() + spec_le32(wave_format_bytes.len() as int) + wave_format_bytes
        + spec_data_tag()
}

/// Build a streaming wave header around an already-encoded format block.
pub fn build_wave_header_from_wave_format(wave_format_bytes: &[u8]) -> (r: Vec<u8>)
    ensures
        r@ == spec_wave_header_from_wave_format(wave_format_bytes@),
{
    let mut buf: Vec<u8> = Vec::new();
    buf.push(0x52);
    buf.push(0x49);
    buf.push(0x46);
    buf.push(0x46);
    buf.push(0x00);
    buf.push(0x00);
    buf.push(0x00);
    buf.push(0x00);
    buf.push(0x57);
    buf.push(0x41);
    buf.push(0x56);
    buf.push(0x45);
    buf.push(0x66);
    buf.push(0x6d);
    buf.push(0x74);
    buf.push(0x20);
    let len = wave_format_bytes.len();
    buf.push((len % 256) as u8);
    buf.push(((len / 256) % 256) as u8);
    buf.push(((len / 65536) % 256) as u8);
    buf.push(((len / 16777216) % 256) as u8);
    let mut body = vstd::slice::slice_to_vec(wave_format_bytes);
    buf.append(&mut body);
    buf.push(0x64);
    buf.push(0x61);
    buf.push(0x74);
    buf.push(0x61);
    proof {
        assert(buf@ =~= spec_wave_header_from_wave_format(wave_format_bytes@));
    }
    buf
}

/// The byte length at which the outbound buffer (header included) is
/// flushed as one binary frame.
pub const FLUSH_SIZE: usize = 3300;

/// The lifecycle phase of a session. `Closed` is terminal: it is reached
/// on the server's end-of-turn signal and never left.
#[derive(Debug, Clone, Copy, PartialEq, Eq, Structural)]
pub enum Phase {
    Open,
    Finalizing,
    Closed,
}

/// Errors of the session state machine.
#[derive(Debug, Clone, Copy, PartialEq, Eq, Structural)]
pub enum SessionError {
    /// The session is closed; no further send or receive is driven.
    Closed,
    /// An inbound message carried a malformed body for its path.
    ProtocolParse,
}

/// The outcome of feeding one inbound text message to the session.
#[derive(Debug, Clone, PartialEq)]
pub enum PollOutcome {
    /// A partial transcript; its text may still change.
    Partial(String),
    /// A final transcript for the current utterance.
    Final(String),
    /// The server ended the turn; the session is now closed.
    TurnEnd,
    /// A message with no or an unrecognized path; nothing to report.
    Ignored,
}

/// Which handler an inbound message's headers select: the first `Path`
/// header with a recognized value decides.
#[derive(Debug, Clone, Copy, PartialEq, Eq, Structural)]
pub enum Dispatch {
    Hypothesis,
    Phrase,
    TurnEnd,
    Ignored,
}

/// The dispatch of a header list: scan for the first pair whose key is
/// `Path` and whose value is one of the three recognized message paths.
pub open spec fn spec_dispatch(headers: Seq<(Seq<char>, Seq<char>)>) -> Dispatch
    decreases headers.len(),
{
    if headers.len() == 0 {
        Dispatch::Ignored
    } else if headers[0].0 == "Path"@ && headers[0].1 == "speech.hypothesis"@ {
        Dispatch::Hypothesis
    } else if headers[0].0 == "Path"@ && headers[0].1 == "speech.phrase"@ {
        Dispatch::Phrase
    } else if headers[0].0 == "Path"@ && headers[0].1 == "turn.end"@ {
        Dispatch::TurnEnd
    } else {
        spec_dispatch(headers.drop_first())
    }
}

/// Select the handler for a parsed header list.
pub fn dispatch_headers(headers: &Vec<(String, String)>) -> (r: Dispatch)
    ensures
        r == spec_dispatch(headers.deep_view()),
{
    let path_key = String::from_str("Path");
    let hypothesis_path = String::from_str("speech.hypothesis");
    let phrase_path = String::from_str("speech.phrase");
    let turn_end_path = String::from_str("turn.end");
    let n = headers.len();
    let mut i: usize = 0;
    proof {
        assert(headers.deep_view().skip(0) =~= headers.deep_view());
    }
    while i < n
        invariant
            0 <= i <= n,
            n == headers@.len(),
            path_key@ == "Path"@,
            hypothesis_path@ == "speech.hypothesis"@,
            phrase_path@ == "speech.phrase"@,
            turn_end_path@ == "turn.end"@,
            spec_dispatch(headers.deep_view()) == spec_dispatch(
                headers.deep_view().skip(i as int),
            ),
        decreases n - i,
    {
        proof {
            assert(headers.deep_view().len() == headers@.len());
            assert(headers.deep_view().skip(i as int)[0] == headers.deep_view()[i as int]);
            let ghost pair_i = headers@[i as int];
            assert(headers.deep_view()[i as int] == (pair_i.0@, pair_i.1@));
            assert(headers.deep_view().skip(i as int).drop_first() =~= headers.deep_view().skip(
                i + 1,
            ));
        }
        let pair = &headers[i];
        if pair.0 == path_key {
            if pair.1 == hypothesis_path {
                return Dispatch::Hypothesis;
            }
            if pair.1 == phrase_path {
                return Dispatch::Phrase;
            }
            if pair.1 == turn_end_path {
                return Dispatch::TurnEnd;
            }
        }
        i = i + 1;
    }
    proof {
        assert(headers.deep_view().skip(n as int) =~= Seq::<(Seq<char>, Seq<char>)>::empty());
    }
    Dispatch::Ignored
}

/// Mathematical model of a session: its stable request id, the pending
/// outbound bytes, the length of the primed chunk header at the front of
/// the buffer, and the lifecycle phase.
pub ghost struct SessionModel {
    pub request_id: Seq<char>,
    pub buffer: Seq<u8>,
    pub header_len: int,
    pub phase: Phase,
}

/// Whether a session's buffer is exactly one primed chunk header for its
/// own request id (with some timestamp), with no payload after it.
pub open spec fn buffer_is_primed(m: SessionModel, first: bool) -> bool {
    &&& exists|ts: Seq<char>| m.buffer == spec_primed_buffer(m.request_id, ts, first)
    &&& m.header_len == m.buffer.len()
}

/// The per-utterance recognition session: a protocol state machine over
/// an outbound audio buffer and inbound transcript messages. The caller
/// owns the connection: whatever this type returns as a frame or message
/// is to be sent; whatever text arrives is handed to [`Session::process_text`].
pub struct Session {
    request_id: String,
    buffer: Vec<u8>,
    header_len: usize,
    phase: Phase,
}

/// Everything the caller needs to open the connection for a new session:
/// the endpoint with the embedded ids, the two connection headers, and
/// the two control messages to send first.
pub struct SessionOpen {
    pub request_url: String,
    pub accept_language: String,
    pub user_agent: String,
    pub speech_config_message: String,
    pub speech_context_message: String,
}

impl View for Session {
    type V = SessionModel;

    closed spec fn view(&self) -> SessionModel {
        SessionModel {
            request_id: self.request_id@,
            buffer: self.buffer@,
            header_len: self.header_len as int,
            phase: self.phase,
        }
    }
}

impl Session {
    /// Well-formedness: the primed chunk header is a prefix of the
    /// pending buffer.
    pub open spec fn wf(self) -> bool {
        0 <= self@.header_len <= self@.buffer.len()
    }

    /// A session built from explicitly supplied identifiers and
    /// timestamp, so that every field is pinned down. The returned
    /// [`SessionOpen`] holds the connection target and the two control
    /// messages; the session's buffer is primed with the first chunk
    /// header, which declares the audio content type.
    pub fn new_with_ids(
        default_language: &str,
        uqurequestid: &str,
        x_connection_id: &str,
        request_id: &str,
        timestamp: &str,
    ) -> (r: (Session, SessionOpen))
        ensures
            r.0.wf(),
            r.0@.phase is Open,
            r.0@.request_id == request_id@,
            r.0@.buffer == spec_primed_buffer(request_id@, timestamp@, true),
            r.0@.header_len == r.0@.buffer.len(),
            r.1.request_url@ == spec_request_url(uqurequestid@, x_connection_id@),
            r.1.accept_language@ == default_language@,
            r.1.user_agent@ == spec_user_agent(),
            r.1.speech_config_message@ == spec_control_message(
                "speech.config"@,
                request_id@,
                timestamp@,
                spec_speech_config_body(),
            ),
            r.1.speech_context_message@ == spec_control_message(
                "speech.context"@,
                request_id@,
                timestamp@,
                "{}"@,
            ),
    {
        let request_url = get_request_url(uqurequestid, x_connection_id);
        let speech_config_message = build_control_message(
            "speech.config",
            request_id,
            timestamp,
            speech_config_body(),
        );
        let speech_context_message = build_control_message(
            "speech.context",
            request_id,
            timestamp,
            "{}",
        );
        let mut buffer: Vec<u8> = Vec::new();
        prime_chunk_buffer(&mut buffer, request_id, timestamp, true);
        let header_len = buffer.len();
        let session = Session {
            request_id: String::from_str(request_id),
            buffer,
            header_len,
            phase: Phase::Open,
        };
        let open = SessionOpen {
            request_url,
            accept_language: String::from_str(default_language),
            user_agent: String::from_str(user_agent()),
            speech_config_message,
            speech_context_message,
        };
        (session, open)
    }

    /// A new session for one utterance: three fresh random ids and the
    /// current time, then everything [`Session::new_with_ids`] pins down.
    pub fn new(default_language: &str) -> (r: (Session, SessionOpen))
        ensures
            r.0.wf(),
            r.0@.phase is Open,
            r.0@.request_id.len() == 32,
            r.0@.header_len == r.0@.buffer.len(),
            exists|ts: Seq<char>|
                r.0@.buffer == spec_primed_buffer(r.0@.request_id, ts, true),
            r.1.accept_language@ == default_language@,
            r.1.user_agent@ == spec_user_agent(),
            exists|ts: Seq<char>|
                r.1.speech_config_message@ == spec_control_message(
                    "speech.config"@,
                    r.0@.request_id,
                    ts,
                    spec_speech_config_body(),
                ),
            exists|ts: Seq<char>|
                r.1.speech_context_message@ == spec_control_message(
                    "speech.context"@,
                    r.0@.request_id,
                    ts,
                    "{}"@,
                ),
            exists|u: Seq<char>, x: Seq<char>|
                u.len() == 32 && x.len() == 32 && r.1.request_url@ == spec_request_url(u, x),
    {
        let uqurequestid = random_request_id();
        let x_connection_id = random_request_id();
        let request_id = random_request_id();
        let timestamp = get_timestamp();
        Session::new_with_ids(
            default_language,
            uqurequestid.as_str(),
            x_connection_id.as_str(),
            request_id.as_str(),
            timestamp.as_str(),
        )
    }

    /// The request correlation id, stable for the session's lifetime.
    pub fn request_id(&self) -> (r: &String)
        ensures
            r@ == self@.request_id,
    {
        &self.request_id
    }

    /// The number of pending outbound bytes, chunk header included.
    pub fn buffer_len(&self) -> (r: usize)
        ensures
            r as int == self@.buffer.len(),
    {
        self.buffer.len()
    }

    /// The length of the primed chunk header at the front of the buffer.
    pub fn header_len(&self) -> (r: usize)
        ensures
            r as int == self@.header_len,
    {
        self.header_len
    }

    /// The current lifecycle phase.
    pub fn phase(&self) -> (r: Phase)
        ensures
            r == self@.phase,
    {
        self.phase
    }

    /// Send the pending buffer if it holds any payload beyond the primed
    /// header, and re-prime with a fresh chunk header (same request id, a
    /// new timestamp, no content type). Phase is untouched.
    fn flush_inner(&mut self) -> (r: Option<Vec<u8>>)
        requires
            old(self).wf(),
        ensures
            final(self).wf(),
            final(self)@.phase == old(self)@.phase,
            final(self)@.request_id == old(self)@.request_id,
            old(self)@.buffer.len() > old(self)@.header_len ==> (r matches Some(frame)
                && frame@ == old(self)@.buffer) && buffer_is_primed(final(self)@, false),
            old(self)@.buffer.len() <= old(self)@.header_len ==> r is None && *final(self)
                == *old(self),
    {
        if self.buffer.len() > self.header_len {
            let frame = vstd::slice::slice_to_vec(self.buffer.as_slice());
            let timestamp = get_timestamp();
            let request_id = self.request_id.clone();
            prime_chunk_buffer(&mut self.buffer, request_id.as_str(), timestamp.as_str(), false);
            self.header_len = self.buffer.len();
            proof {
                assert(self@.buffer == spec_primed_buffer(self@.request_id, timestamp@, false));
                assert(buffer_is_primed(self@, false));
            }
            Some(frame)
        } else {
            None
        }
    }

    /// Append audio bytes to the outbound buffer. When the buffer (header
    /// included) reaches [`FLUSH_SIZE`], it is flushed: the returned
    /// frame is to be sent as one binary message, and the buffer is
    /// re-primed with a fresh chunk header. On a closed session nothing
    /// is buffered and nothing is to be sent.
    pub fn write(&mut self, data: &[u8]) -> (r: Result<Option<Vec<u8>>, SessionError>)
        requires
            old(self).wf(),
        ensures
            final(self).wf(),
            final(self)@.request_id == old(self)@.request_id,
            r is Err <==> old(self)@.phase is Closed,
            old(self)@.phase is Closed ==> r == Err::<Option<Vec<u8>>, SessionError>(
                SessionError::Closed,
            ) && *final(self) == *old(self),
            !(old(self)@.phase is Closed) ==> final(self)@.phase == old(self)@.phase,
            !(old(self)@.phase is Closed) && old(self)@.buffer.len() + data@.len() < FLUSH_SIZE
                ==> r == Ok::<Option<Vec<u8>>, SessionError>(None) && final(self)@.buffer == old(
                self,
            )@.buffer + data@ && final(self)@.header_len == old(self)@.header_len,
            !(old(self)@.phase is Closed) && old(self)@.buffer.len() + data@.len() >= FLUSH_SIZE
                && old(self)@.buffer.len() + data@.len() > old(self)@.header_len ==> (r matches Ok(
            Some(frame)) && frame@ == old(self)@.buffer + data@) && buffer_is_primed(
                final(self)@,
                false,
            ),
            !(old(self)@.phase is Closed) && old(self)@.buffer.len() + data@.len() >= FLUSH_SIZE
                && old(self)@.buffer.len() + data@.len() <= old(self)@.header_len ==> r == Ok::<
                Option<Vec<u8>>,
                SessionError,
            >(None) && final(self)@.buffer == old(self)@.buffer + data@ && final(self)@.header_len
                == old(self)@.header_len,
    {
        if self.phase == Phase::Closed {
            return Err(SessionError::Closed);
        }
        let mut incoming = vstd::slice::slice_to_vec(data);
        self.buffer.append(&mut incoming);
        proof {
            assert(self@.buffer == old(self)@.buffer + data@);
        }
        if self.buffer.len() >= FLUSH_SIZE {
            let sent = self.flush_inner();
            Ok(sent)
        } else {
            Ok(None)
        }
    }

    /// Send the pending buffer if it holds any payload beyond the primed
    /// header. Returns the binary frame to send, or nothing when the
    /// buffer is header-only; fails on a closed session.
    pub fn flush(&mut self) -> (r: Result<Option<Vec<u8>>, SessionError>)
        requires
            old(self).wf(),
        ensures
            final(self).wf(),
            final(self)@.request_id == old(self)@.request_id,
            r is Err <==> old(self)@.phase is Closed,
            old(self)@.phase is Closed ==> r == Err::<Option<Vec<u8>>, SessionError>(
                SessionError::Closed,
            ) && *final(self) == *old(self),
            !(old(self)@.phase is Closed) ==> final(self)@.phase == old(self)@.phase,
            !(old(self)@.phase is Closed) && old(self)@.buffer.len() > old(self)@.header_len ==> (
            r matches Ok(Some(frame)) && frame@ == old(self)@.buffer) && buffer_is_primed(
                final(self)@,
                false,
            ),
            !(old(self)@.phase is Closed) && old(self)@.buffer.len() <= old(self)@.header_len
                ==> r == Ok::<Option<Vec<u8>>, SessionError>(None) && *final(self) == *old(self),
    {
        if self.phase == Phase::Closed {
            return Err(SessionError::Closed);
        }
        let sent = self.flush_inner();
        Ok(sent)
    }

    /// Feed one inbound text message to the session: split it at the
    /// first blank line, parse the header block, and dispatch on the
    /// first recognized `Path` header. A `speech.hypothesis` body yields
    /// a partial transcript; a `speech.phrase` body yields the final
    /// display text and moves the session to `Finalizing`; `turn.end`
    /// closes the session; anything else is ignored. A malformed body
    /// for a recognized path is an error that leaves the session intact.
    pub fn process_text(&mut self, text: &str) -> (r: Result<PollOutcome, SessionError>)
        requires
            old(self).wf(),
        ensures
            final(self).wf(),
            final(self)@.request_id == old(self)@.request_id,
            final(self)@.buffer == old(self)@.buffer,
            final(self)@.header_len == old(self)@.header_len,
            old(self)@.phase is Closed ==> r == Err::<PollOutcome, SessionError>(
                SessionError::Closed,
            ) && *final(self) == *old(self),
            !(old(self)@.phase is Closed) ==> ({
                let body = spec_split_header_body(text@).1;
                let d = spec_dispatch(spec_parse_headers(spec_split_header_body(text@).0));
                &&& d is Hypothesis ==> (hypothesis_of(body) matches Some(rec) ==> (r matches Ok(
                    PollOutcome::Partial(t),
                ) && t@ == rec.0) && final(self)@.phase == old(self)@.phase)
                &&& d is Hypothesis && hypothesis_of(body) is None ==> r == Err::<
                    PollOutcome,
                    SessionError,
                >(SessionError::ProtocolParse) && final(self)@.phase == old(self)@.phase
                &&& d is Phrase ==> (phrase_of(body) matches Some(rec) ==> (r matches Ok(
                    PollOutcome::Final(t),
                ) && t@ == rec.3) && final(self)@.phase is Finalizing)
                &&& d is Phrase && phrase_of(body) is None ==> r == Err::<
                    PollOutcome,
                    SessionError,
                >(SessionError::ProtocolParse) && final(self)@.phase == old(self)@.phase
                &&& d is TurnEnd ==> r == Ok::<PollOutcome, SessionError>(PollOutcome::TurnEnd)
                    && final(self)@.phase is Closed
                &&& d is Ignored ==> r == Ok::<PollOutcome, SessionError>(PollOutcome::Ignored)
                    && final(self)@.phase == old(self)@.phase
            }),
    {
        if self.phase == Phase::Closed {
            return Err(SessionError::Closed);
        }
        let (header, body) = split_header_body(text);
        let headers = parse_headers(header.as_str());
        match dispatch_headers(&headers) {
            Dispatch::Hypothesis => match parse_hypothesis(body.as_str()) {
                Some(h) => Ok(PollOutcome::Partial(h.text)),
                None => Err(SessionError::ProtocolParse),
            },
            Dispatch::Phrase => match parse_phrase(body.as_str()) {
                Some(p) => {
                    self.phase = Phase::Finalizing;
                    Ok(PollOutcome::Final(p.display_text))
                },
                None => Err(SessionError::ProtocolParse),
            },
            Dispatch::TurnEnd => {
                self.phase = Phase::Closed;
                Ok(PollOutcome::TurnEnd)
            },
            Dispatch::Ignored => Ok(PollOutcome::Ignored),
        }
    }
}

} // verus!
