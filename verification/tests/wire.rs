use branchkit_stage_sdk::wire::{
    check_payload_length, header_for, header_text_len, is_zero_usize, terminate_header, Event, WireError,
    MAX_PAYLOAD,
};

fn header(kind: &str, payload_length: usize) -> Vec<u8> {
    let text = if payload_length == 0 {
        format!("{{\"type\":\"{kind}\",\"data\":{{\"session_id\":\"abc\"}}}}")
    } else {
        format!(
            "{{\"type\":\"{kind}\",\"data\":{{\"session_id\":\"abc\"}},\"payload_length\":{payload_length}}}"
        )
    };
    let v: serde_json::Value = serde_json::from_str(&text).unwrap();
    serde_json::to_vec(&v).unwrap()
}

/// Read frames back the way a line reader does: up to and including the
/// first newline, then the announced payload.
fn read_frames(mut s: &[u8], lens: &[usize]) -> Vec<(serde_json::Value, Vec<u8>)> {
    let mut out = Vec::new();
    for &n in lens {
        let end = s.iter().position(|&b| b == b'\n').map(|i| i + 1).unwrap_or(s.len());
        let line = &s[..end];
        let h = &line[..header_text_len(line)];
        let v: serde_json::Value = serde_json::from_slice(h).unwrap();
        let n = check_payload_length(n).unwrap();
        out.push((v, s[end..end + n].to_vec()));
        s = &s[end + n..];
    }
    assert!(s.is_empty());
    out
}

#[test]
fn roundtrip_event_with_payload() {
    let payload: Vec<u8> = (0..640).map(|i| (i & 0xff) as u8).collect();
    let h = header("audio_chunk", payload.len());
    let mut frame = terminate_header(h.clone());
    frame.extend_from_slice(&payload);
    let got = read_frames(&frame, &[640]);
    assert_eq!(got[0].0["type"], "audio_chunk");
    assert_eq!(got[0].1, payload);
}

#[test]
fn multiple_events_roundtrip_in_order() {
    let mut stream = Vec::new();
    for i in 0u8..5 {
        stream.extend(terminate_header(header("audio_chunk", 16)));
        stream.extend(vec![i; 16]);
    }
    let got = read_frames(&stream, &[16; 5]);
    for (i, (v, p)) in got.iter().enumerate() {
        assert_eq!(v["type"], "audio_chunk");
        assert_eq!(p, &vec![i as u8; 16]);
    }
}

#[test]
fn header_line_trimming() {
    assert_eq!(header_text_len(b"{}\n"), 2);
    assert_eq!(header_text_len(b"{}\n\n"), 2);
    assert_eq!(header_text_len(b"{}"), 2);
    assert_eq!(header_text_len(b"\n"), 0);
    assert_eq!(header_text_len(b""), 0);
    assert_eq!(header_text_len(b"a\nb\n"), 3);
}

#[test]
fn oversized_payload_length_rejected() {
    assert_eq!(
        check_payload_length(33554432),
        Err(WireError::PayloadTooLarge(33554432))
    );
    assert_eq!(check_payload_length(MAX_PAYLOAD), Ok(16 * 1024 * 1024));
    assert_eq!(
        check_payload_length(MAX_PAYLOAD + 1),
        Err(WireError::PayloadTooLarge(MAX_PAYLOAD + 1))
    );
    assert_eq!(check_payload_length(0), Ok(0));
}

#[test]
fn terminator_and_zero_length_rule() {
    assert_eq!(terminate_header(b"{}".to_vec()), b"{}\n".to_vec());
    assert!(is_zero_usize(&0));
    assert!(!is_zero_usize(&640));
}

#[test]
fn event_constructors() {
    let e = Event::new("audio_stop", serde_json::Value::Null);
    assert_eq!(e.event_type, "audio_stop");
    assert!(e.payload.is_empty());
    let e = Event::with_payload("audio_chunk", serde_json::Value::Bool(true), vec![1, 2, 3]);
    assert_eq!(e.event_type, "audio_chunk");
    assert_eq!(e.data, serde_json::Value::Bool(true));
    assert_eq!(e.payload, vec![1, 2, 3]);
}

#[test]
fn header_for_counts_the_payload() {
    let h = header_for("audio_chunk", serde_json::Value::Null, &[0u8; 640]);
    assert_eq!(h.event_type, "audio_chunk");
    assert_eq!(h.payload_length, 640);
    assert_eq!(h.data, serde_json::Value::Null);
    assert_eq!(header_for("audio_stop", serde_json::Value::Null, &[]).payload_length, 0);
}

#[test]
fn a_bad_header_line_leaves_the_next_frame_readable() {
    let mut stream = b"not-json\n".to_vec();
    stream.extend(terminate_header(header("audio_chunk", 4)));
    stream.extend([9u8; 4]);
    let end = stream.iter().position(|&b| b == b'\n').unwrap() + 1;
    let bad = &stream[..end];
    assert!(serde_json::from_slice::<serde_json::Value>(&bad[..header_text_len(bad)]).is_err());
    let got = read_frames(&stream[end..], &[4]);
    assert_eq!(got[0].1, vec![9u8; 4]);
}

#[test]
fn events_clone() {
    let e = Event::with_payload("audio_chunk", serde_json::Value::Bool(false), vec![1]);
    let c = e.clone();
    assert_eq!(c.event_type, e.event_type);
    assert_eq!(c.payload, e.payload);
}
