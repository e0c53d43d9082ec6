use bing_stt::protocol::{parse_headers, split_header_body};
use bing_stt::speech_recognition::{
    build_control_message, build_wave_header, build_wave_header_from_wave_format,
    get_request_url, random_request_id, speech_config_body, Phase, PollOutcome, Session,
    SessionError, FLUSH_SIZE,
};

#[test]
fn split_header_body_at_first_blank_line() {
    let (header, body) = split_header_body("A: b\r\nC: d\r\n\r\nbody text");
    assert_eq!(header, "A: b\r\nC: d");
    assert_eq!(body, "body text");
}

#[test]
fn split_header_body_without_blank_line() {
    let (header, body) = split_header_body("A: b\r\nC: d");
    assert_eq!(header, "A: b\r\nC: d");
    assert_eq!(body, "");
}

#[test]
fn split_header_body_keeps_later_blank_lines_in_body() {
    let (header, body) = split_header_body("H: v\r\n\r\nfirst\r\n\r\nsecond");
    assert_eq!(header, "H: v");
    assert_eq!(body, "first\r\n\r\nsecond");
}

#[test]
fn parse_headers_pairs_and_trimming() {
    let pairs = parse_headers("Path: speech.phrase\r\n  X-RequestId :  ABC \r\nNoColonLine");
    assert_eq!(
        pairs,
        vec![
            ("Path".to_string(), "speech.phrase".to_string()),
            ("X-RequestId".to_string(), "ABC".to_string()),
            ("NoColonLine".to_string(), "".to_string()),
        ]
    );
}

#[test]
fn parse_headers_skips_empty_lines() {
    let pairs = parse_headers("\r\nA: 1\r\n\r\nB: 2\r\n");
    assert_eq!(
        pairs,
        vec![("A".to_string(), "1".to_string()), ("B".to_string(), "2".to_string())]
    );
}

#[test]
fn parse_headers_splits_value_at_first_colon_only() {
    let pairs = parse_headers("Time: 12:30:45");
    assert_eq!(pairs, vec![("Time".to_string(), "12:30:45".to_string())]);
}

#[test]
fn request_url_embeds_both_ids() {
    let url = get_request_url("REQID", "CONNID");
    let expected = "wss://sr.bing.com/opaluqu/speech/recognition/interactive/cognitiveservices/v1?clientbuild=bingDesktop&referer=https%3A%2F%2Fwww.bing.com%2F&form=QBLH&uqurequestid=REQID&language=xx-yy&format=simple&Ocp-Apim-Subscription-Key=key&X-ConnectionId=CONNID";
    assert_eq!(url, expected);
}

#[test]
fn control_message_layout() {
    let m = build_control_message("speech.context", "RID", "TS", "{}");
    assert_eq!(
        m,
        "Path: speech.context\r\nX-RequestId: RID\r\nX-Timestamp: TS\r\nContent-Type: application/json\r\n\r\n{}"
    );
}

#[test]
fn random_request_id_is_32_uppercase_hex() {
    let id = random_request_id();
    assert_eq!(id.len(), 32);
    assert!(id.chars().all(|c| c.is_ascii_digit() || ('A'..='F').contains(&c)));
    let other = random_request_id();
    assert_ne!(id, other);
}

#[test]
fn wave_header_exact_bytes() {
    // Integer PCM, mono, 16 kHz, 16-bit: block align 2, byte rate 32000.
    let header = build_wave_header(1, 1, 16000, 16);
    let mut expected: Vec<u8> = Vec::new();
    expected.extend_from_slice(b"RIFF");
    expected.extend_from_slice(&[0, 0, 0, 0]);
    expected.extend_from_slice(b"WAVE");
    expected.extend_from_slice(b"fmt ");
    expected.extend_from_slice(&[0x10, 0, 0, 0]);
    expected.extend_from_slice(&[0x01, 0x00]); // format tag
    expected.extend_from_slice(&[0x01, 0x00]); // channels
    expected.extend_from_slice(&[0x80, 0x3E, 0x00, 0x00]); // 16000
    expected.extend_from_slice(&[0x00, 0x7D, 0x00, 0x00]); // 32000
    expected.extend_from_slice(&[0x02, 0x00]); // block align
    expected.extend_from_slice(&[0x10, 0x00]); // bits per sample
    expected.extend_from_slice(b"data");
    assert_eq!(header, expected);
}

#[test]
fn wave_header_from_format_block() {
    let header = build_wave_header_from_wave_format(&[9, 8, 7]);
    let mut expected: Vec<u8> = Vec::new();
    expected.extend_from_slice(b"RIFF");
    expected.extend_from_slice(&[0, 0, 0, 0]);
    expected.extend_from_slice(b"WAVE");
    expected.extend_from_slice(b"fmt ");
    expected.extend_from_slice(&[3, 0, 0, 0]);
    expected.extend_from_slice(&[9, 8, 7]);
    expected.extend_from_slice(b"data");
    assert_eq!(header, expected);
}

fn fresh_session() -> Session {
    let (session, _open) = Session::new_with_ids("zh-CN", "U", "X", "RID", "TS");
    session
}

#[test]
fn new_session_buffer_is_primed_first_chunk_header() {
    let (session, open) = Session::new_with_ids("zh-CN", "U", "X", "RID", "TS");
    let header = "Path: audio\r\nX-RequestId: RID\r\nX-Timestamp: TS\r\nContent-Type: audio/x-wav\r\n";
    assert_eq!(session.buffer_len(), header.len() + 2);
    assert_eq!(session.header_len(), session.buffer_len());
    assert_eq!(session.phase(), Phase::Open);
    assert_eq!(session.request_id().as_str(), "RID");
    assert_eq!(open.accept_language, "zh-CN");
    assert_eq!(
        open.speech_config_message,
        format!(
            "Path: speech.config\r\nX-RequestId: RID\r\nX-Timestamp: TS\r\nContent-Type: application/json\r\n\r\n{}",
            speech_config_body()
        )
    );
    assert_eq!(
        open.speech_context_message,
        "Path: speech.context\r\nX-RequestId: RID\r\nX-Timestamp: TS\r\nContent-Type: application/json\r\n\r\n{}"
    );
}

#[test]
fn flush_threshold_sends_exactly_once() {
    let mut session = fresh_session();
    let header_len = session.header_len();
    // Fill the buffer to one byte under the flush threshold: no send.
    let almost = vec![0xABu8; FLUSH_SIZE - 1 - header_len];
    assert_eq!(session.write(&almost), Ok(None));
    assert_eq!(session.buffer_len(), FLUSH_SIZE - 1);
    // One more byte crosses the threshold: exactly one frame comes out,
    // holding the whole buffer, and the buffer resets to header-only.
    let sent = session.write(&[0xCD]).unwrap();
    let frame = sent.expect("crossing the threshold must flush");
    assert_eq!(frame.len(), FLUSH_SIZE);
    assert_eq!(frame[frame.len() - 1], 0xCD);
    assert_eq!(frame[frame.len() - 2], 0xAB);
    assert_eq!(session.buffer_len(), session.header_len());
    assert_eq!(session.phase(), Phase::Open);
}

#[test]
fn flushed_frame_carries_length_prefixed_header() {
    let mut session = fresh_session();
    let header = "Path: audio\r\nX-RequestId: RID\r\nX-Timestamp: TS\r\nContent-Type: audio/x-wav\r\n";
    let payload = vec![0x11u8; FLUSH_SIZE];
    let frame = session.write(&payload).unwrap().expect("must flush");
    assert_eq!(frame[0] as usize, (header.len() >> 8) & 0xff);
    assert_eq!(frame[1] as usize, header.len() & 0xff);
    assert_eq!(&frame[2..2 + header.len()], header.as_bytes());
    assert_eq!(&frame[2 + header.len()..], &payload[..]);
}

#[test]
fn explicit_flush_sends_payload_and_reprimes() {
    let mut session = fresh_session();
    assert_eq!(session.write(&[1, 2, 3]), Ok(None));
    let frame = session.flush().unwrap().expect("payload must be sent");
    assert_eq!(&frame[frame.len() - 3..], &[1, 2, 3]);
    assert_eq!(session.buffer_len(), session.header_len());
}

#[test]
fn flush_of_header_only_buffer_is_noop() {
    let mut session = fresh_session();
    let before = session.buffer_len();
    assert_eq!(session.flush(), Ok(None));
    assert_eq!(session.buffer_len(), before);
}

#[test]
fn turn_end_closes_the_session() {
    let mut session = fresh_session();
    let outcome = session.process_text("Path: turn.end\r\nX-RequestId: ABC\r\n\r\n");
    assert_eq!(outcome, Ok(PollOutcome::TurnEnd));
    assert_eq!(session.phase(), Phase::Closed);
    // Every later operation fails without producing anything to send.
    assert_eq!(session.write(&[1]), Err(SessionError::Closed));
    assert_eq!(session.flush(), Err(SessionError::Closed));
    assert_eq!(
        session.process_text("Path: speech.hypothesis\r\n\r\n{\"Text\":\"x\",\"Offset\":0,\"Duration\":1}"),
        Err(SessionError::Closed)
    );
}

#[test]
fn phrase_message_yields_final_transcript() {
    let mut session = fresh_session();
    let text = "Path: speech.phrase\r\nX-RequestId: ABC\r\n\r\n{\"RecognitionStatus\":\"Success\",\"Offset\":0,\"Duration\":100,\"DisplayText\":\"hello\"}";
    assert_eq!(session.process_text(text), Ok(PollOutcome::Final("hello".to_string())));
    assert_eq!(session.phase(), Phase::Finalizing);
}

#[test]
fn phrase_without_display_text_defaults_to_empty() {
    let mut session = fresh_session();
    let text = "Path: speech.phrase\r\n\r\n{\"RecognitionStatus\":\"NoMatch\",\"Offset\":0,\"Duration\":0}";
    assert_eq!(session.process_text(text), Ok(PollOutcome::Final(String::new())));
}

#[test]
fn hypothesis_message_yields_partial_transcript() {
    let mut session = fresh_session();
    let text = "Path: speech.hypothesis\r\n\r\n{\"Text\":\"he\",\"Offset\":0,\"Duration\":10}";
    assert_eq!(session.process_text(text), Ok(PollOutcome::Partial("he".to_string())));
    assert_eq!(session.phase(), Phase::Open);
}

#[test]
fn unknown_path_is_ignored() {
    let mut session = fresh_session();
    let outcome = session.process_text("Path: turn.start\r\n\r\n{}");
    assert_eq!(outcome, Ok(PollOutcome::Ignored));
    assert_eq!(session.phase(), Phase::Open);
}

#[test]
fn malformed_body_is_a_parse_error_and_keeps_the_session() {
    let mut session = fresh_session();
    let outcome = session.process_text("Path: speech.phrase\r\n\r\nnot json at all");
    assert_eq!(outcome, Err(SessionError::ProtocolParse));
    assert_eq!(session.phase(), Phase::Open);
    // Wrong field type is a parse error too.
    let outcome = session.process_text(
        "Path: speech.hypothesis\r\n\r\n{\"Text\":5,\"Offset\":0,\"Duration\":1}",
    );
    assert_eq!(outcome, Err(SessionError::ProtocolParse));
    // The session still works afterwards.
    let text = "Path: speech.hypothesis\r\n\r\n{\"Text\":\"ok\",\"Offset\":0,\"Duration\":1}";
    assert_eq!(session.process_text(text), Ok(PollOutcome::Partial("ok".to_string())));
}

#[test]
fn dispatch_takes_first_recognized_path_header() {
    let mut session = fresh_session();
    // An unrecognized Path value does not stop the scan; a later Path
    // header may still dispatch.
    let text = "Path: something.else\r\nPath: turn.end\r\n\r\n";
    assert_eq!(session.process_text(text), Ok(PollOutcome::TurnEnd));
}

#[test]
fn new_session_ids_are_fresh_and_well_formed() {
    let (session, open) = Session::new("en-US");
    assert_eq!(session.request_id().len(), 32);
    assert_eq!(session.phase(), Phase::Open);
    assert!(open.request_url.starts_with("wss://sr.bing.com/"));
    assert!(open.request_url.contains("uqurequestid="));
    assert_eq!(open.accept_language, "en-US");
    assert!(session.buffer_len() >= 2);
    assert_eq!(session.buffer_len(), session.header_len());
}
