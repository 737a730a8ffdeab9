use branchkit_stage_sdk::events::{
    is_valid_ext_event_type, new_session_id, session_id_from_bytes, AudioFormat,
};
use branchkit_stage_sdk::events::event_type;

#[test]
fn ext_event_type_requires_vendor_and_name_segments() {
    assert!(is_valid_ext_event_type("ext.acme.gaze_point"));
    assert!(is_valid_ext_event_type("ext.acme.gaze.left_eye"));
    assert!(!is_valid_ext_event_type("ext."));
    assert!(!is_valid_ext_event_type("ext.acme"));
    assert!(!is_valid_ext_event_type("ext.acme."));
    assert!(!is_valid_ext_event_type("ext..gaze"));
    assert!(!is_valid_ext_event_type("extacme.gaze"));
    assert!(!is_valid_ext_event_type("transcript"));
}

#[test]
fn ext_event_type_edge_cases() {
    assert!(!is_valid_ext_event_type(""));
    assert!(!is_valid_ext_event_type("ext"));
    assert!(!is_valid_ext_event_type("EXT.acme.x"));
    assert!(!is_valid_ext_event_type(".ext.acme.x"));
    assert!(!is_valid_ext_event_type("ext.acme..x"));
    assert!(!is_valid_ext_event_type("ext.a.b."));
    assert!(is_valid_ext_event_type("ext.a.b"));
    assert!(is_valid_ext_event_type("ext.ä.ü"));
    assert!(is_valid_ext_event_type("ext.acme.*"));
}

#[test]
fn pcm_16k_mono_baseline_constants() {
    let f = AudioFormat::PCM_16K_MONO();
    assert_eq!(f.rate, 16000);
    assert_eq!(f.width, 2);
    assert_eq!(f.channels, 1);
}

#[test]
fn session_id_is_uuid_v4_shape() {
    let id = new_session_id().unwrap();
    // Length: 36 chars (32 hex + 4 dashes).
    assert_eq!(id.len(), 36);
    // Version nibble is '4'.
    assert_eq!(id.as_bytes()[14], b'4');
    // Variant nibble is one of 8/9/a/b.
    let variant = id.as_bytes()[19];
    assert!(
        matches!(variant, b'8' | b'9' | b'a' | b'b'),
        "variant nibble: {}",
        variant as char
    );
    // Two distinct calls must differ.
    assert_ne!(id, new_session_id().unwrap());
}

#[test]
fn session_id_text_of_known_bytes() {
    let mut b = [0u8; 16];
    for i in 0..16 {
        b[i] = i as u8;
    }
    assert_eq!(session_id_from_bytes(b), "00010203-0405-4607-8809-0a0b0c0d0e0f");
    assert_eq!(
        session_id_from_bytes([0xffu8; 16]),
        "ffffffff-ffff-4fff-bfff-ffffffffffff"
    );
    assert_eq!(
        session_id_from_bytes([0u8; 16]),
        "00000000-0000-4000-8000-000000000000"
    );
}

#[test]
fn event_type_catalog_is_complete_and_ordered() {
    assert_eq!(event_type::ALL.len(), 21);
    assert_eq!(event_type::ALL[0], event_type::CAPABILITY);
    assert_eq!(event_type::ALL[5], "flow_credit");
    assert_eq!(event_type::ALL[20], "power_source_changed");
}
