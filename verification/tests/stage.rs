use branchkit_stage_sdk::events::FlowCredit;
use branchkit_stage_sdk::stage::{
    classify, dispatch, keeps_running, stop_listener_step, Chunk, ConsumerRead, Dispatch, ConsumerRuntime, CreditPolicy, Flow,
    InitialGrant, Inbound, Outbound, SourceOptions, StopListen, StopRead,
};

fn on_start() -> CreditPolicy {
    CreditPolicy {
        initial: 32,
        every: 2,
        grant: 8,
        when: InitialGrant::OnStart,
    }
}

fn startup_credits(out: &[Outbound]) -> Vec<FlowCredit> {
    out.iter()
        .filter_map(|o| match o {
            Outbound::Credit(c) => Some(c.clone()),
            Outbound::Capability => None,
        })
        .collect()
}

#[test]
fn capability_is_the_first_startup_action() {
    for policy in [CreditPolicy::NONE(), on_start()] {
        let mut rt = ConsumerRuntime::new(policy);
        let out = rt.startup();
        assert!(matches!(out[0], Outbound::Capability));
    }
}

#[test]
fn on_start_policy_grants_the_initial_window_before_any_session() {
    let mut rt = ConsumerRuntime::new(on_start());
    let out = rt.startup();
    let grants = startup_credits(&out);
    assert_eq!(out.len(), 2);
    assert_eq!(grants.len(), 1);
    assert_eq!(grants[0].frames, 32);
    // Empty session id: the window opens before any session exists.
    assert_eq!(grants[0].session_id, "");
}

#[test]
fn on_session_start_policy_grants_per_session_not_at_startup() {
    let policy = CreditPolicy {
        when: InitialGrant::OnSessionStart,
        ..on_start()
    };
    let mut rt = ConsumerRuntime::new(policy);
    let out = rt.startup();
    assert!(startup_credits(&out).is_empty(), "no startup grant");
    let g = rt.on_audio_start("s1").expect("one session grant");
    assert_eq!(g.frames, 32);
    assert_eq!(g.session_id, "s1");
}

#[test]
fn session_start_grant_resets_the_cadence() {
    let policy = CreditPolicy {
        when: InitialGrant::OnSessionStart,
        ..on_start()
    };
    let mut rt = ConsumerRuntime::new(policy);
    assert!(rt.on_audio_chunk(Chunk::Counted, "s0").is_none());
    assert!(rt.on_audio_start("s1").is_some());
    // One chunk after the reset is not a full cadence of two.
    assert!(rt.on_audio_chunk(Chunk::Counted, "s1").is_none());
    assert!(rt.on_audio_chunk(Chunk::Counted, "s1").is_some());
}

#[test]
fn counted_chunks_drive_the_cadence() {
    let mut rt = ConsumerRuntime::new(on_start());
    let mut grants = startup_credits(&rt.startup());
    // every=2 → grants after chunk 2 and 4, not 5.
    for _ in 0..5 {
        if let Some(g) = rt.on_audio_chunk(Chunk::Counted, "s1") {
            grants.push(g);
        }
    }
    assert_eq!(grants.len(), 3, "1 initial + 2 cadence");
    assert!(grants[1..]
        .iter()
        .all(|g| g.frames == 8 && g.session_id == "s1"));
}

#[test]
fn dropped_chunks_do_not_drive_the_cadence() {
    let mut rt = ConsumerRuntime::new(on_start());
    let mut grants = startup_credits(&rt.startup());
    for _ in 0..5 {
        if let Some(g) = rt.on_audio_chunk(Chunk::Dropped, "s1") {
            grants.push(g);
        }
    }
    assert_eq!(grants.len(), 1, "initial window only — no cadence grants");
}

#[test]
fn a_policy_of_none_never_grants() {
    let mut rt = ConsumerRuntime::new(CreditPolicy::NONE());
    let mut grants = startup_credits(&rt.startup());
    if let Some(g) = rt.on_audio_start("s1") {
        grants.push(g);
    }
    for _ in 0..5 {
        if let Some(g) = rt.on_audio_chunk(Chunk::Counted, "s1") {
            grants.push(g);
        }
    }
    assert!(grants.is_empty());
}

#[test]
fn manual_grant_through_the_runtime() {
    let mut rt = ConsumerRuntime::new(on_start());
    assert!(rt.on_audio_chunk(Chunk::Counted, "s").is_none());
    let g = rt.grant_now("s", 5);
    assert_eq!((g.frames, g.session_id.as_str()), (5, "s"));
    assert!(rt.on_audio_chunk(Chunk::Counted, "s").is_none());
    assert_eq!(rt.on_audio_chunk(Chunk::Counted, "s").map(|g| g.frames), Some(8));
}

#[test]
fn unknown_event_types_route_to_other_and_keep_running() {
    assert_eq!(classify("ext.acme.custom"), Inbound::Other);
    assert_eq!(classify("totally_unknown"), Inbound::Other);
    assert_eq!(classify("audio_chunk"), Inbound::AudioChunk);
    assert!(keeps_running(Flow::Continue));
}

#[test]
fn known_event_types_route_to_their_handlers() {
    assert_eq!(classify("audio_start"), Inbound::AudioStart);
    assert_eq!(classify("audio_stop"), Inbound::AudioStop);
    assert_eq!(classify("audio_stop "), Inbound::Other);
    assert_eq!(classify("Audio_start"), Inbound::Other);
    assert_eq!(classify(""), Inbound::Other);
    assert_eq!(classify("capability"), Inbound::Other);
}

#[test]
fn audio_stop_routes_and_stop_flow_ends_the_loop() {
    assert_eq!(classify("audio_stop"), Inbound::AudioStop);
    assert!(!keeps_running(Flow::Stop));
}

#[test]
fn stop_listener_rules() {
    assert_eq!(
        stop_listener_step(false, StopRead::Event { kind: Inbound::AudioStop, parsed: true }),
        StopListen::Stop { record: true }
    );
    assert_eq!(
        stop_listener_step(false, StopRead::Event { kind: Inbound::AudioStop, parsed: false }),
        StopListen::Stop { record: false }
    );
    assert_eq!(
        stop_listener_step(false, StopRead::Event { kind: Inbound::AudioChunk, parsed: false }),
        StopListen::Keep
    );
    assert_eq!(stop_listener_step(false, StopRead::Eof), StopListen::Stop { record: false });
    assert_eq!(stop_listener_step(false, StopRead::Failed), StopListen::Stop { record: false });
}

#[test]
fn stop_after_an_earlier_stop_keeps_no_request() {
    assert_eq!(
        stop_listener_step(true, StopRead::Event { kind: Inbound::AudioStop, parsed: true }),
        StopListen::Stop { record: false }
    );
    assert_eq!(
        stop_listener_step(true, StopRead::Event { kind: Inbound::Other, parsed: false }),
        StopListen::Keep
    );
    assert_eq!(stop_listener_step(true, StopRead::Eof), StopListen::Stop { record: false });
}

#[test]
fn source_options_default_does_not_listen() {
    assert!(!SourceOptions::default().listen_for_stop);
}

#[test]
fn dispatch_rules() {
    assert_eq!(
        dispatch(ConsumerRead::Event(Inbound::AudioChunk)),
        Dispatch::Deliver(Inbound::AudioChunk)
    );
    assert_eq!(dispatch(ConsumerRead::Eof), Dispatch::EndOfInput);
    assert_eq!(dispatch(ConsumerRead::Failed), Dispatch::Abort);
}
