use frost_ceremony::keygen::{
    assign_peer_identifiers, keygen_round1_identifier, record_keygen_round1, record_keygen_round2,
};
use frost_ceremony::{create_keygen_state, keygen_round1, keygen_round2, FrostError, KeygenState, ParticipantMap};

fn s(x: &str) -> String {
    x.to_string()
}

fn fresh(threshold: u16, max: u16) -> KeygenState {
    create_keygen_state(threshold, max).ok().unwrap()
}

#[test]
fn create_keygen_state_accepts_threshold_within_range() {
    for (t, n) in [(1u16, 1u16), (1, 3), (2, 3), (3, 3), (65535, 65535)] {
        let st = create_keygen_state(t, n).ok().unwrap();
        assert_eq!(st.threshold, t);
        assert_eq!(st.max_participants, n);
        assert_eq!(st.current_round, 1);
        assert_eq!(st.round1_packages.len(), 0);
        assert_eq!(st.key_packages.len(), 0);
        assert!(st.group_public_key.is_none());
    }
}

#[test]
fn create_keygen_state_rejects_threshold_out_of_range() {
    for (t, n) in [(0u16, 3u16), (0, 0), (4, 3), (1, 0)] {
        match create_keygen_state(t, n) {
            Err(FrostError::InsufficientParticipants { required, actual }) => {
                assert_eq!(required, t);
                assert_eq!(actual, n);
            }
            _ => panic!("expected InsufficientParticipants for ({}, {})", t, n),
        }
    }
}

#[test]
fn round1_identifier_is_one_more_than_entries() {
    let st = fresh(3, 3);
    assert_eq!(keygen_round1_identifier(&st).ok(), Some(1));
    let st = record_keygen_round1(st, s("alice"), s("pa"));
    assert_eq!(keygen_round1_identifier(&st).ok(), Some(2));
}

#[test]
fn round1_refuses_a_full_ceremony() {
    let mut st = fresh(3, 3);
    st = record_keygen_round1(st, s("a"), s("1"));
    st = record_keygen_round1(st, s("b"), s("2"));
    // A malformed state still at round one with every slot taken.
    st = record_keygen_round1(st, s("c"), s("3"));
    st.current_round = 1;
    match keygen_round1_identifier(&st) {
        Err(FrostError::InsufficientParticipants { required, actual }) => {
            assert_eq!(required, 3);
            assert_eq!(actual, 3);
        }
        _ => panic!("expected InsufficientParticipants"),
    }
}

#[test]
fn scenario_two_of_three_keygen_rounds() {
    let st = fresh(2, 3);
    let (st, pkg_a) = keygen_round1(st, "alice").ok().unwrap();
    assert_eq!(st.current_round, 1);
    let (st, pkg_b) = keygen_round1(st, "bob").ok().unwrap();
    assert_eq!(st.current_round, 2);
    assert_ne!(pkg_a, pkg_b);
    // The stored pair holds the secret; only its public half is handed out.
    let stored_a = st.round1_packages.get(&s("alice")).unwrap().clone();
    assert_ne!(stored_a, pkg_a);
    assert!(!pkg_a.contains("coefficients"));
    assert!(stored_a.contains("coefficients"));
    match keygen_round1(st, "carol") {
        Err(FrostError::InvalidStateTransition(d)) => assert_eq!(d, "Expected round 1, got round 2"),
        _ => panic!("expected InvalidStateTransition"),
    }

    // Round two, with the outputs the primitive would hand back.
    let mut st = fresh(2, 3);
    st = record_keygen_round1(st, s("alice"), pkg_a);
    st = record_keygen_round1(st, s("bob"), pkg_b);
    assert_eq!(st.current_round, 2);
    let st = record_keygen_round2(st, s("alice"), s("k1"), s("group"));
    assert!(st.group_public_key.is_none());
    let st = record_keygen_round2(st, s("bob"), s("k2"), s("group"));
    assert_eq!(st.group_public_key, Some(s("group")));
    assert_eq!(st.key_packages.len(), 2);
}

#[test]
fn keygen_round2_with_real_primitives_for_the_first_participant() {
    let st = fresh(2, 2);
    let (st, public_a) = keygen_round1(st, "alice").ok().unwrap();
    let (st, public_b) = keygen_round1(st, "bob").ok().unwrap();
    assert_eq!(st.current_round, 2);
    let mut all = ParticipantMap::new();
    all.insert(s("alice"), public_a);
    all.insert(s("bob"), public_b);
    let own = st.round1_packages.get(&s("alice")).unwrap().clone();
    let (st, key_package) = keygen_round2(st, "alice", &all).ok().unwrap();
    assert_ne!(key_package, own);
    assert_eq!(st.key_packages.len(), 1);
    assert_eq!(st.key_packages.get(&s("alice")), Some(&key_package));
    assert!(st.group_public_key.is_none());
    assert_eq!(st.current_round, 2);
}

#[test]
fn keygen_round1_with_threshold_one_is_refused_by_the_primitive() {
    let st = fresh(1, 1);
    assert!(matches!(keygen_round1(st, "alice"), Err(FrostError::KeygenError(_))));
}

#[test]
fn keygen_round1_in_round_two_is_refused() {
    let mut st = fresh(1, 2);
    st = record_keygen_round1(st, s("a"), s("pa"));
    assert_eq!(st.current_round, 2);
    assert!(matches!(keygen_round1(st, "b"), Err(FrostError::InvalidStateTransition(_))));
}

#[test]
fn keygen_round2_in_round_one_is_refused() {
    let st = fresh(2, 3);
    let all = ParticipantMap::new();
    match keygen_round2(st, "a", &all) {
        Err(FrostError::InvalidStateTransition(d)) => assert_eq!(d, "Expected round 2, got round 1"),
        _ => panic!("expected InvalidStateTransition"),
    }
}

#[test]
fn keygen_round2_for_unknown_participant() {
    let mut st = fresh(1, 2);
    st = record_keygen_round1(st, s("a"), s("pa"));
    let all = ParticipantMap::new();
    match keygen_round2(st, "zed", &all) {
        Err(FrostError::InvalidParticipant(p)) => assert_eq!(p, "Participant zed not found in round 1"),
        _ => panic!("expected InvalidParticipant"),
    }
}

#[test]
fn keygen_round2_with_undecodable_package() {
    let mut st = fresh(1, 2);
    st = record_keygen_round1(st, s("a"), s("not json"));
    let all = ParticipantMap::new();
    assert!(matches!(keygen_round2(st, "a", &all), Err(FrostError::SerializationError(_))));
}

#[test]
fn resubmitting_round1_overwrites_in_place() {
    let mut st = fresh(3, 3);
    st = record_keygen_round1(st, s("a"), s("pa"));
    st = record_keygen_round1(st, s("b"), s("pb"));
    st = record_keygen_round1(st, s("a"), s("pa2"));
    assert_eq!(st.current_round, 1);
    assert_eq!(st.round1_packages.len(), 2);
    let (k0, v0) = st.round1_packages.entry(0);
    assert_eq!((k0.as_str(), v0.as_str()), ("a", "pa2"));
    let (k1, v1) = st.round1_packages.entry(1);
    assert_eq!((k1.as_str(), v1.as_str()), ("b", "pb"));
}

#[test]
fn resubmitting_round1_with_real_primitives_keeps_the_round() {
    let st = fresh(3, 3);
    let (st, pa) = keygen_round1(st, "a").ok().unwrap();
    let (st, pb) = keygen_round1(st, "b").ok().unwrap();
    let (st, pa2) = keygen_round1(st, "a").ok().unwrap();
    assert_ne!(pa, pa2);
    assert_eq!(st.current_round, 1);
    assert_eq!(st.round1_packages.len(), 2);
    assert!(st.round1_packages.get(&s("a")).unwrap().contains(&pa2));
    assert!(st.round1_packages.get(&s("b")).unwrap().contains(&pb));
}

#[test]
fn identifiers_repeat_across_runs() {
    let mut seen = Vec::new();
    for _ in 0..2 {
        let mut st = fresh(3, 3);
        let mut ids = Vec::new();
        for who in ["x", "y", "x", "z"] {
            ids.push(keygen_round1_identifier(&st).ok().unwrap());
            let (next, _) = keygen_round1(st, who).ok().unwrap();
            st = next;
            if st.current_round == 2 {
                break;
            }
        }
        let order: Vec<String> = (0..st.round1_packages.len()).map(|i| st.round1_packages.entry(i).0.clone()).collect();
        seen.push((ids, order));
    }
    assert_eq!(seen[0], seen[1]);
    assert_eq!(seen[0].0, vec![1, 2, 3, 3]);
    assert_eq!(seen[0].1, vec![s("x"), s("y"), s("z")]);
}

#[test]
fn peers_are_numbered_from_two_skipping_self() {
    let mut all = ParticipantMap::new();
    all.insert(s("a"), s("pa"));
    all.insert(s("b"), s("pb"));
    all.insert(s("c"), s("pc"));
    let peers = assign_peer_identifiers(&all, &s("b")).ok().unwrap();
    assert_eq!(peers, vec![(2u16, s("pa")), (3u16, s("pc"))]);
    let peers = assign_peer_identifiers(&all, &s("a")).ok().unwrap();
    assert_eq!(peers, vec![(2u16, s("pb")), (3u16, s("pc"))]);
    let peers = assign_peer_identifiers(&all, &s("nobody")).ok().unwrap();
    assert_eq!(peers, vec![(2u16, s("pa")), (3u16, s("pb")), (4u16, s("pc"))]);
}

#[test]
fn group_key_waits_for_a_quorum_of_key_packages() {
    let mut st = fresh(2, 2);
    st = record_keygen_round1(st, s("a"), s("pa"));
    st = record_keygen_round1(st, s("b"), s("pb"));
    st = record_keygen_round2(st, s("a"), s("ka"), s("g1"));
    assert!(st.group_public_key.is_none());
    st = record_keygen_round2(st, s("a"), s("ka2"), s("g2"));
    assert!(st.group_public_key.is_none());
    assert_eq!(st.key_packages.len(), 1);
    st = record_keygen_round2(st, s("b"), s("kb"), s("g3"));
    assert_eq!(st.group_public_key, Some(s("g3")));
}

/// A stored pair whose secret would make DKG part two panic, made from a real one.
fn tampered_pair(field: &str, value: serde_json::Value) -> String {
    let st = fresh(2, 2);
    let (st, _) = keygen_round1(st, "a").ok().unwrap();
    let mut pair: serde_json::Value = serde_json::from_str(st.round1_packages.get(&s("a")).unwrap()).unwrap();
    pair[0][field] = value;
    serde_json::to_string(&pair).unwrap()
}

#[test]
fn keygen_round2_refuses_unusable_secrets_without_panicking() {
    for (field, value) in [
        ("max_signers", serde_json::Value::from(0u64)),
        ("coefficients", serde_json::Value::Array(Vec::new())),
    ] {
        let mut st = fresh(1, 2);
        st = record_keygen_round1(st, s("a"), tampered_pair(field, value));
        let all = ParticipantMap::new();
        assert!(matches!(keygen_round2(st, "a", &all), Err(FrostError::SerializationError(_))));
    }
}

/// The secret half of a real stored pair rewritten in serde's array form, without field names.
fn array_form_pair(coefficients: serde_json::Value, max_signers: u64) -> String {
    let st = fresh(2, 2);
    let (st, _) = keygen_round1(st, "a").ok().unwrap();
    let pair: serde_json::Value = serde_json::from_str(st.round1_packages.get(&s("a")).unwrap()).unwrap();
    let secret = &pair[0];
    let array = serde_json::Value::Array(vec![
        secret["identifier"].clone(),
        coefficients,
        secret["commitment"].clone(),
        secret["min_signers"].clone(),
        serde_json::Value::from(max_signers),
    ]);
    serde_json::to_string(&serde_json::Value::Array(vec![array, pair[1].clone()])).unwrap()
}

#[test]
fn keygen_round2_refuses_unusable_secrets_in_array_form() {
    for (coefficients, max_signers) in [
        (serde_json::Value::Array(Vec::new()), 1u64),
        (serde_json::Value::Array(Vec::new()), 0u64),
    ] {
        let mut st = fresh(1, 2);
        st = record_keygen_round1(st, s("a"), array_form_pair(coefficients, max_signers));
        let all = ParticipantMap::new();
        assert!(matches!(keygen_round2(st, "a", &all), Err(FrostError::SerializationError(_))));
    }
    // The array form decodes: with real coefficients it reaches part two, which wants a peer.
    let st0 = fresh(2, 2);
    let (st0, _) = keygen_round1(st0, "a").ok().unwrap();
    let pair: serde_json::Value = serde_json::from_str(st0.round1_packages.get(&s("a")).unwrap()).unwrap();
    let mut st = fresh(1, 2);
    st = record_keygen_round1(st, s("a"), array_form_pair(pair[0]["coefficients"].clone(), 2));
    let all = ParticipantMap::new();
    assert!(matches!(keygen_round2(st, "a", &all), Err(FrostError::KeygenError(_))));
}

#[test]
fn wrong_round_text_spells_out_the_round() {
    for (round, text) in [(17u8, "Expected round 1, got round 17"), (200u8, "Expected round 1, got round 200")] {
        let mut st = fresh(2, 3);
        st.current_round = round;
        match keygen_round1(st, "a") {
            Err(FrostError::InvalidStateTransition(d)) => assert_eq!(d, text),
            _ => panic!("expected InvalidStateTransition"),
        }
    }
}
