use frost_ceremony::dealer::dealer_identifiers;
use frost_ceremony::signing::{number_shares, record_final_signature, record_signature_share, record_signing_round1};
use frost_ceremony::{
    create_signing_state, generate_frost_shares, signing_round1, signing_round2, verify_signature, FrostError,
    FrostResult, ParticipantMap, SigningState,
};
use std::collections::BTreeMap;

fn s(x: &str) -> String {
    x.to_string()
}

fn fresh(signers: &[&str]) -> SigningState {
    create_signing_state(b"msg", signers.iter().map(|x| s(x)).collect()).ok().unwrap()
}

/// A dealer's secret share turned into the key package a participant signs with.
fn key_package_of(share_json: &str) -> String {
    let share: frost_secp256k1::keys::SecretShare = serde_json::from_str(share_json).unwrap();
    let package = frost_secp256k1::keys::KeyPackage::try_from(share).unwrap();
    serde_json::to_string(&package).unwrap()
}

fn signing_package(message: &[u8], commitments: &[(u16, &String)]) -> String {
    let mut map = BTreeMap::new();
    for (id, c) in commitments {
        let c: frost_secp256k1::round1::SigningCommitments = serde_json::from_str(c).unwrap();
        map.insert(frost_secp256k1::Identifier::try_from(*id).unwrap(), c);
    }
    serde_json::to_string(&frost_secp256k1::SigningPackage::new(map, message)).unwrap()
}

#[test]
fn create_signing_state_with_no_signers_fails() {
    match create_signing_state(b"hello", Vec::new()) {
        Err(FrostError::InsufficientParticipants { required, actual }) => {
            assert_eq!(required, 1);
            assert_eq!(actual, 0);
        }
        _ => panic!("expected InsufficientParticipants"),
    }
    assert!(matches!(
        create_signing_state(b"", Vec::new()),
        Err(FrostError::InsufficientParticipants { required: 1, actual: 0 })
    ));
}

#[test]
fn create_signing_state_starts_at_round_one() {
    let st = create_signing_state(b"hello", vec![s("a"), s("b")]).ok().unwrap();
    assert_eq!(st.message, b"hello".to_vec());
    assert_eq!(st.signers, vec![s("a"), s("b")]);
    assert_eq!(st.current_round, 1);
    assert_eq!(st.round1_packages.len(), 0);
    assert_eq!(st.signature_shares.len(), 0);
    assert!(st.final_signature.is_none());
}

#[test]
fn scenario_two_of_three_sign_and_verify() {
    let (group_key, shares) = generate_frost_shares("", 2, 3).ok().unwrap();
    assert_eq!(shares.len(), 3);
    let key_a = key_package_of(shares.entry(0).1);
    let key_b = key_package_of(shares.entry(1).1);
    let message = b"msg";

    let st = fresh(&["alice", "bob"]);
    let (st, commit_a) = signing_round1(st, "alice", &key_a).ok().unwrap();
    assert_eq!(st.current_round, 1);
    let (st, commit_b) = signing_round1(st, "bob", &key_b).ok().unwrap();
    assert_eq!(st.current_round, 2);
    let package = signing_package(message, &[(1, &commit_a), (2, &commit_b)]);

    let (st, first) = signing_round2(st, "alice", &key_a, &package, &group_key).ok().unwrap();
    assert!(first.is_none());
    assert!(st.final_signature.is_none());
    let (st, second) = signing_round2(st, "bob", &key_b, &package, &group_key).ok().unwrap();
    let signature = second.unwrap();
    assert_eq!(st.final_signature, Some(signature.clone()));
    assert_eq!(st.signature_shares.len(), 2);

    assert_eq!(verify_signature(message, &signature, &group_key).ok(), Some(true));
    assert_eq!(verify_signature(b"another message", &signature, &group_key).ok(), Some(false));
    let (other_key, _) = generate_frost_shares("", 2, 3).ok().unwrap();
    assert_eq!(verify_signature(message, &signature, &other_key).ok(), Some(false));
}

#[test]
fn signing_round1_keeps_nonces_and_returns_commitments() {
    let (_, shares) = generate_frost_shares("", 2, 2).ok().unwrap();
    let kp = key_package_of(shares.entry(0).1);
    let st = fresh(&["a", "b"]);
    let (st, commitments) = signing_round1(st, "a", &kp).ok().unwrap();
    let stored = st.round1_packages.get(&s("a")).unwrap();
    assert_ne!(stored, &commitments);
    let (_, kept): (frost_secp256k1::round1::SigningNonces, frost_secp256k1::round1::SigningCommitments) =
        serde_json::from_str(stored).unwrap();
    assert_eq!(serde_json::to_string(&kept).unwrap(), commitments);
    assert!(serde_json::from_str::<frost_secp256k1::round1::SigningCommitments>(&commitments).is_ok());
}

#[test]
fn signing_round1_with_undecodable_key_package() {
    let st = fresh(&["a"]);
    assert!(matches!(signing_round1(st, "a", &s("{}")), Err(FrostError::SerializationError(_))));
}

#[test]
fn signing_round1_in_round_two_is_refused() {
    let st = record_signing_round1(fresh(&["a"]), s("a"), s("n"));
    assert_eq!(st.current_round, 2);
    match signing_round1(st, "a", &s("{}")) {
        Err(FrostError::InvalidStateTransition(d)) => assert_eq!(d, "Expected round 1, got round 2"),
        _ => panic!("expected InvalidStateTransition"),
    }
}

#[test]
fn signing_round2_in_round_one_is_refused() {
    let st = fresh(&["a", "b"]);
    match signing_round2(st, "a", &s("{}"), &s("{}"), &s("{}")) {
        Err(FrostError::InvalidStateTransition(d)) => assert_eq!(d, "Expected round 2, got round 1"),
        _ => panic!("expected InvalidStateTransition"),
    }
}

#[test]
fn signing_round2_for_unknown_participant() {
    let st = record_signing_round1(fresh(&["a"]), s("a"), s("n"));
    match signing_round2(st, "b", &s("{}"), &s("{}"), &s("{}")) {
        Err(FrostError::InvalidParticipant(p)) => assert_eq!(p, "Participant b not found in round 1"),
        _ => panic!("expected InvalidParticipant"),
    }
}

#[test]
fn signing_round2_with_undecodable_input() {
    let st = record_signing_round1(fresh(&["a"]), s("a"), s("n"));
    let r = signing_round2(st, "a", &s("{}"), &s("{}"), &s("{}"));
    assert!(matches!(r, Err(FrostError::SerializationError(_))));
}

#[test]
fn signing_rounds_advance_on_quorum() {
    let mut st = fresh(&["a", "b"]);
    st = record_signing_round1(st, s("a"), s("na"));
    st = record_signing_round1(st, s("a"), s("na2"));
    assert_eq!(st.current_round, 1);
    assert_eq!(st.round1_packages.len(), 1);
    assert_eq!(st.round1_packages.get(&s("a")), Some(&s("na2")));
    st = record_signing_round1(st, s("b"), s("nb"));
    assert_eq!(st.current_round, 2);
    st = record_signature_share(st, s("b"), s("sb"));
    st = record_signature_share(st, s("a"), s("sa"));
    assert_eq!(st.current_round, 2);
    let numbered = number_shares(&st.signature_shares).ok().unwrap();
    assert_eq!(numbered, vec![(1u16, s("sb")), (2u16, s("sa"))]);
    st = record_final_signature(st, s("sig"));
    assert_eq!(st.final_signature, Some(s("sig")));
}

#[test]
fn dealer_checks_parameters() {
    assert!(matches!(
        generate_frost_shares("", 0, 3),
        Err(FrostError::InsufficientParticipants { required: 0, actual: 3 })
    ));
    assert!(matches!(
        generate_frost_shares("", 4, 3),
        Err(FrostError::InsufficientParticipants { required: 4, actual: 3 })
    ));
    assert!(matches!(generate_frost_shares("", 1, 1), Err(FrostError::KeygenError(_))));
}

#[test]
fn dealer_identifiers_count_from_one() {
    assert_eq!(dealer_identifiers(3), vec![1u16, 2, 3]);
    assert!(dealer_identifiers(0).is_empty());
}

#[test]
fn dealer_names_shares_by_identifier() {
    let (group_key, shares) = generate_frost_shares("ignored", 2, 3).ok().unwrap();
    assert!(!group_key.is_empty());
    assert_eq!(shares.len(), 3);
    for i in 0..shares.len() {
        let id = frost_secp256k1::Identifier::try_from((i + 1) as u16).unwrap();
        assert_eq!(shares.entry(i).0, &format!("participant_{:?}", id));
    }
}

#[test]
fn verify_signature_with_undecodable_input() {
    assert!(matches!(verify_signature(b"m", &s("nope"), &s("nope")), Err(FrostError::SerializationError(_))));
}

#[test]
fn envelope_holds_exactly_one_side() {
    let ok = FrostResult::ok(7u8);
    assert!(ok.success && ok.data == Some(7) && ok.error.is_none());
    let err: FrostResult<u8> = FrostResult::err(FrostError::KeygenError(s("x")));
    assert!(!err.success && err.data.is_none() && err.error.is_some());
    let from_ok = FrostResult::from_result(Ok::<u8, FrostError>(3));
    assert!(from_ok.success && from_ok.data == Some(3));
    let from_err = FrostResult::<u8>::from_result(Err(FrostError::SigningError(s("y"))));
    assert!(!from_err.success && matches!(from_err.error, Some(FrostError::SigningError(_))));
}

#[test]
fn participant_map_keeps_first_insertion_order() {
    let mut m = ParticipantMap::new();
    m.insert(s("z"), s("1"));
    m.insert(s("a"), s("2"));
    m.insert(s("z"), s("3"));
    assert_eq!(m.len(), 2);
    assert_eq!(m.entry(0), (&s("z"), &s("3")));
    assert_eq!(m.entry(1), (&s("a"), &s("2")));
    assert_eq!(m.position(&s("a")), Some(1));
    assert_eq!(m.get(&s("q")), None);
}

#[test]
fn signing_round2_without_aggregation_ignores_the_group_key() {
    let (_, shares) = generate_frost_shares("", 2, 2).ok().unwrap();
    let key_a = key_package_of(shares.entry(0).1);
    let key_b = key_package_of(shares.entry(1).1);
    let st = fresh(&["alice", "bob"]);
    let (st, commit_a) = signing_round1(st, "alice", &key_a).ok().unwrap();
    let (st, commit_b) = signing_round1(st, "bob", &key_b).ok().unwrap();
    let package = signing_package(b"msg", &[(1, &commit_a), (2, &commit_b)]);
    let (st, out) = signing_round2(st, "alice", &key_a, &package, &s("not a key")).ok().unwrap();
    assert!(out.is_none());
    assert_eq!(st.signature_shares.len(), 1);
}
