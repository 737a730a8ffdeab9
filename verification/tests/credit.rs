use branchkit_stage_sdk::credit::CreditGranter;

#[test]
fn grants_on_cadence_with_configured_size() {
    let mut credit = CreditGranter::new(4, 8);
    // 9 chunks at every=4 → grants after chunk 4 and chunk 8, not 9.
    let mut grants = Vec::new();
    for i in 1..=9 {
        if let Some(g) = credit.on_chunk("s1") {
            grants.push((i, g));
        }
    }
    assert_eq!(grants.len(), 2);
    assert_eq!(grants[0].0, 4);
    assert_eq!(grants[1].0, 8);
    assert!(grants.iter().all(|(_, g)| g.frames == 8 && g.session_id == "s1"));
}

#[test]
fn grant_now_resets_the_cadence_counter() {
    let mut credit = CreditGranter::new(4, 4);
    for _ in 0..3 {
        assert!(credit.on_chunk("s1").is_none());
    }
    let g = credit.grant_now("", 16);
    assert_eq!(g.frames, 16);
    assert_eq!(g.session_id, "");
    // Counter was reset: the next grant needs 4 MORE chunks.
    for _ in 0..3 {
        assert!(credit.on_chunk("s1").is_none());
    }
    let g = credit.on_chunk("s1").expect("4th post-boundary chunk grants");
    assert_eq!(g.frames, 4);
    assert_eq!(g.session_id, "s1");
}

#[test]
fn zero_cadence_grants_on_every_chunk() {
    let mut credit = CreditGranter::new(0, 3);
    for _ in 0..5 {
        let g = credit.on_chunk("s").expect("grant on every chunk");
        assert_eq!(g.frames, 3);
    }
}

#[test]
fn cadence_of_one_grants_every_chunk() {
    let mut credit = CreditGranter::new(1, 2);
    let n = (0..7).filter(|_| credit.on_chunk("x").is_some()).count();
    assert_eq!(n, 7);
}

#[test]
fn grants_are_floor_of_chunks_over_cadence() {
    let mut credit = CreditGranter::new(3, 1);
    let n = (0..100).filter(|_| credit.on_chunk("x").is_some()).count();
    assert_eq!(n, 33);
}

#[test]
fn grants_fall_on_multiples_of_the_cadence() {
    for every in [1u32, 3, 5] {
        let mut credit = CreditGranter::new(every, 7);
        for k in 1..=40u32 {
            let g = credit.on_chunk("s");
            assert_eq!(g.is_some(), k % every == 0, "every={every} call={k}");
        }
    }
}
