use vstd::prelude::*;
use crate::error::{keygen_error_of, missing_participant, missing_participant_text, wrong_round, wrong_round_text, FrostError};
use crate::participants::{
    has_key, ids, lookup, put, unique_keys, lemma_ids_ignore_packages, lemma_len_of_subset, lemma_put, EntryView,
    ParticipantMap,
};
use crate::primitives::{
    dkg_part2_accepts, dkg_part2_output, dkg_round1, dkg_round2, numbered_view, round1_public_part, round1_secret_bounds,
    secret_bounds_of,
};

verus! {

/// Progress of a distributed key generation ceremony.
pub struct KeygenState {
    pub threshold: u16,
    pub max_participants: u16,
    pub current_round: u8,
    /// Each participant's round-one secret and public package.
    pub round1_packages: ParticipantMap,
    /// Each participant's output of DKG part two: its round-two secret package.
    pub key_packages: ParticipantMap,
    /// Set once a quorum finished round two: the round-two packages for the peers that the
    /// participant completing the quorum produced.
    pub group_public_key: Option<String>,
}

impl KeygenState {
    /// The ceremony's invariants: a valid threshold, a round of one or two that is two exactly
    /// when the round-one quorum was met, at most `max_participants` round-one entries, nothing
    /// of round two before it, key packages only for participants of round one (so no more of
    /// them than `max_participants`), and a group key only once a quorum finished round two.
    pub open spec fn wf(&self) -> bool {
        &&& 1 <= self.threshold <= self.max_participants
        &&& self.current_round == 1 || self.current_round == 2
        &&& unique_keys(self.round1_packages@)
        &&& unique_keys(self.key_packages@)
        &&& self.round1_packages@.len() <= self.max_participants
        &&& (self.current_round == 1 <==> self.round1_packages@.len() < self.threshold)
        &&& self.current_round == 1 ==> self.key_packages@.len() == 0 && self.group_public_key is None
        &&& forall|k: Seq<char>| has_key(self.key_packages@, k) ==> has_key(self.round1_packages@, k)
        &&& self.key_packages@.len() <= self.max_participants
        &&& self.group_public_key is Some ==> self.key_packages@.len() >= self.threshold
    }
}

/// `t` is `s` after `participant` stored `package` in round one: the package is put under the
/// participant's id, and the ceremony moves to round two once the round-one quorum is met.
pub open spec fn round1_recorded(s: KeygenState, t: KeygenState, participant: Seq<char>, package: Seq<char>) -> bool {
    &&& t.threshold == s.threshold
    &&& t.max_participants == s.max_participants
    &&& t.round1_packages@ == put(s.round1_packages@, participant, package)
    &&& t.current_round == if put(s.round1_packages@, participant, package).len() >= s.threshold {
        2u8
    } else {
        s.current_round
    }
    &&& t.key_packages@ == s.key_packages@
    &&& t.group_public_key == s.group_public_key
}

/// `t` is `s` after `participant` stored `key_package` in round two: the group key is taken
/// once a quorum of key packages is there, and kept as it was before that.
pub open spec fn round2_recorded(
    s: KeygenState,
    t: KeygenState,
    participant: Seq<char>,
    key_package: Seq<char>,
    group_key: Seq<char>,
) -> bool {
    &&& t.threshold == s.threshold
    &&& t.max_participants == s.max_participants
    &&& t.current_round == s.current_round
    &&& t.round1_packages@ == s.round1_packages@
    &&& t.key_packages@ == put(s.key_packages@, participant, key_package)
    &&& if put(s.key_packages@, participant, key_package).len() >= s.threshold {
        t.group_public_key matches Some(g) && g@ == group_key
    } else {
        t.group_public_key == s.group_public_key
    }
}

/// The entries of `m` other than `me`'s, in order.
pub open spec fn peers_of(m: Seq<EntryView>, me: Seq<char>) -> Seq<EntryView> {
    m.filter(not_me(me))
}

/// Whether an entry belongs to someone other than `me`.
pub open spec fn not_me(me: Seq<char>) -> spec_fn(EntryView) -> bool {
    |e: EntryView| e.0 != me
}

/// The peers of `me` numbered by their order in `m`, from 2 on: identifier 1 is `me`'s own.
pub open spec fn peer_packages(m: Seq<EntryView>, me: Seq<char>) -> Seq<(u16, Seq<char>)> {
    Seq::new(peers_of(m, me).len(), |i: int| ((i + 2) as u16, peers_of(m, me)[i].1))
}

/// Opens a key generation ceremony for `max_participants` parties, any `threshold` of whom
/// can sign.
pub fn create_keygen_state(threshold: u16, max_participants: u16) -> (r: Result<KeygenState, FrostError>)
    ensures
        r is Ok <==> 1 <= threshold <= max_participants,
        r matches Ok(s) ==> {
            &&& s.wf()
            &&& s.threshold == threshold
            &&& s.max_participants == max_participants
            &&& s.current_round == 1
            &&& s.round1_packages@.len() == 0
            &&& s.key_packages@.len() == 0
            &&& s.group_public_key is None
        },
        r matches Err(e) ==> e == (FrostError::InsufficientParticipants { required: threshold, actual: max_participants }),
{
    if threshold == 0 || threshold > max_participants {
        Err(FrostError::InsufficientParticipants { required: threshold, actual: max_participants })
    } else {
        Ok(KeygenState {
            threshold,
            max_participants,
            current_round: 1,
            round1_packages: ParticipantMap::new(),
            key_packages: ParticipantMap::new(),
            group_public_key: None,
        })
    }
}

/// Checks that `state` takes a round-one submission and gives the submitter's identifier:
/// one more than the number of round-one entries.
pub fn keygen_round1_identifier(state: &KeygenState) -> (r: Result<u16, FrostError>)
    ensures
        state.current_round != 1 ==> (r matches Err(FrostError::InvalidStateTransition(d)) && d@ == wrong_round_text(
            1,
            state.current_round,
        )),
        state.current_round == 1 && state.round1_packages@.len() >= state.max_participants ==> r
            == Err::<u16, FrostError>(
            (FrostError::InsufficientParticipants { required: state.threshold, actual: state.max_participants }),
        ),
        state.current_round == 1 && state.round1_packages@.len() < state.max_participants ==> r
            == Ok::<u16, FrostError>((state.round1_packages@.len() + 1) as u16),
{
    if state.current_round != 1 {
        return Err(wrong_round(1, state.current_round));
    }
    let n = state.round1_packages.len();
    if n >= state.max_participants as usize {
        return Err(FrostError::InsufficientParticipants { required: state.threshold, actual: state.max_participants });
    }
    Ok((n + 1) as u16)
}

/// Stores `participant`'s round-one package and advances to round two once the quorum is met.
pub fn record_keygen_round1(state: KeygenState, participant: String, package: String) -> (r: KeygenState)
    ensures
        round1_recorded(state, r, participant@, package@),
        lookup(r.round1_packages@, participant@) == Some(package@),
        state.wf() && state.current_round == 1 && state.round1_packages@.len() < state.max_participants
            ==> r.wf(),
{
    let mut s = state;
    s.round1_packages.ids_are_unique();
    proof {
        lemma_put(s.round1_packages@, participant@, package@);
    }
    s.round1_packages.insert(participant, package);
    if s.round1_packages.len() >= s.threshold as usize {
        s.current_round = 2;
    }
    s
}

/// Round one of key generation for `participant`: draws its round-one secret and public package
/// under the identifier that `keygen_round1_identifier` gives, stores the pair, and returns the
/// new state with the encoded public package to hand to the other participants.
pub fn keygen_round1(state: KeygenState, participant: &str) -> (r: Result<(KeygenState, String), FrostError>)
    ensures
        state.current_round != 1 ==> (r matches Err(FrostError::InvalidStateTransition(d)) && d@ == wrong_round_text(
            1,
            state.current_round,
        )),
        state.current_round == 1 && state.round1_packages@.len() < state.max_participants ==> (r is Ok <==> 2
            <= state.threshold <= state.max_participants),
        state.current_round == 1 && state.round1_packages@.len() >= state.max_participants ==> r
            == Err::<(KeygenState, String), FrostError>(
            (FrostError::InsufficientParticipants { required: state.threshold, actual: state.max_participants }),
        ),
        r matches Ok((t, p)) ==> {
            &&& state.current_round == 1
            &&& state.round1_packages@.len() < state.max_participants
            &&& lookup(t.round1_packages@, participant@) is Some
            &&& round1_recorded(state, t, participant@, lookup(t.round1_packages@, participant@)->0)
            &&& p@ == round1_public_part(lookup(t.round1_packages@, participant@)->0)
            &&& t.current_round >= state.current_round
            &&& t.current_round == 2 ==> t.round1_packages@.len() >= t.threshold
            &&& state.wf() ==> t.wf()
        },
        r matches Err(e) ==> match e {
            FrostError::InvalidStateTransition(_) => state.current_round != 1,
            FrostError::InsufficientParticipants { .. } => state.current_round == 1
                && state.round1_packages@.len() >= state.max_participants,
            FrostError::KeygenError(_) => true,
            FrostError::SerializationError(_) => true,
            _ => false,
        },
{
    let identifier = keygen_round1_identifier(&state)?;
    match dkg_round1(identifier, state.max_participants, state.threshold) {
        Ok((pair, public)) => {
            let t = record_keygen_round1(state, participant.to_owned(), pair);
            Ok((t, public))
        },
        Err(f) => Err(keygen_error_of(f)),
    }
}

/// What round two derives for `participant` (its round-two secret package, and the round-two
/// packages for its peers): from its own stored round-one pair and the numbered public packages
/// of its peers.
pub open spec fn keygen_round2_output(s: KeygenState, participant: Seq<char>, all: Seq<EntryView>) -> (Seq<char>, Seq<char>) {
    dkg_part2_output(lookup(s.round1_packages@, participant)->0, peer_packages(all, participant))
}

/// Numbers the packages of everyone in `all` but `me`, in the order of `all`, from 2 on.
/// Fails when an identifier would not fit in 16 bits.
pub fn assign_peer_identifiers(all: &ParticipantMap, me: &String) -> (r: Result<Vec<(u16, String)>, FrostError>)
    ensures
        peers_of(all@, me@).len() <= 65534 <==> r is Ok,
        r matches Ok(v) ==> numbered_view(v@) == peer_packages(all@, me@),
        r matches Err(e) ==> e is KeygenError,
{
    let ghost m = all@;
    let ghost pred = not_me(me@);
    let mut out: Vec<(u16, String)> = Vec::new();
    let mut i: usize = 0;
    while i < all.len()
        invariant
            m == all@,
            pred == not_me(me@),
            i <= m.len(),
            out@.len() <= 65534,
            numbered_view(out@) == peer_packages(m.subrange(0, i as int), me@),
        decreases m.len() - i,
    {
        let (id, package) = all.entry(i);
        proof {
            reveal(Seq::filter);
            assert(m.subrange(0, i + 1).drop_last() =~= m.subrange(0, i as int));
            assert(m.subrange(0, i + 1).last() == m[i as int]);
        }
        if *id == *me {
            proof {
                assert(numbered_view(out@) =~= peer_packages(m.subrange(0, i + 1), me@));
            }
        } else {
            proof {
                let sub = m.subrange(0, i + 1);
                assert(pred(sub.last()));
                assert(peers_of(sub, me@) == peers_of(m.subrange(0, i as int), me@).push(m[i as int]));
            }
            if out.len() >= 65534 {
                proof {
                    assert(numbered_view(out@).len() == out@.len());
                    assert(peer_packages(m.subrange(0, i as int), me@).len() == peers_of(m.subrange(0, i as int), me@).len());
                    assert(peers_of(m.subrange(0, i + 1), me@).len() == 65535);
                    assert(m =~= m.subrange(0, m.len() as int));
                    m.subrange(i + 1, m.len() as int).lemma_filter_len(pred);
                    m.subrange(0, i + 1).lemma_filter_len(pred);
                    lemma_filter_grows(m, pred, i + 1, m.len() as int);
                }
                return Err(FrostError::KeygenError("Too many participants for an identifier".to_owned()));
            }
            let ghost before = out@;
            out.push(((out.len() + 2) as u16, package.clone()));
            proof {
                let sub_i = m.subrange(0, i as int);
                let sub_n = m.subrange(0, i + 1);
                assert(numbered_view(before).len() == before.len());
                assert(peer_packages(sub_i, me@).len() == peers_of(sub_i, me@).len());
                assert forall|j: int| 0 <= j < before.len() implies numbered_view(out@)[j] == peer_packages(sub_n, me@)[j] by {
                    assert(numbered_view(out@)[j] == numbered_view(before)[j]);
                    assert(peer_packages(sub_i, me@)[j] == peer_packages(sub_n, me@)[j]);
                }
                assert(numbered_view(out@)[before.len() as int] == peer_packages(sub_n, me@)[before.len() as int]);
                assert(numbered_view(out@) =~= peer_packages(m.subrange(0, i + 1), me@));
            }
        }
        i = i + 1;
    }
    proof {
        assert(m.subrange(0, m.len() as int) =~= m);
    }
    Ok(out)
}

/// A filter over a longer prefix keeps at least as many entries.
proof fn lemma_filter_grows(m: Seq<EntryView>, pred: spec_fn(EntryView) -> bool, i: int, j: int)
    requires
        0 <= i <= j <= m.len(),
    ensures
        m.subrange(0, i).filter(pred).len() <= m.subrange(0, j).filter(pred).len(),
    decreases j - i,
{
    if i < j {
        lemma_filter_grows(m, pred, i, j - 1);
        reveal(Seq::filter);
        assert(m.subrange(0, j).drop_last() =~= m.subrange(0, j - 1));
    }
}

/// Stores `participant`'s output of part two, and the packages for its peers once a quorum
/// finished round two.
pub fn record_keygen_round2(state: KeygenState, participant: String, key_package: String, group_key: String) -> (r: KeygenState)
    ensures
        round2_recorded(state, r, participant@, key_package@, group_key@),
        state.wf() && state.current_round == 2 && has_key(state.round1_packages@, participant@) ==> r.wf(),
{
    let mut s = state;
    s.key_packages.ids_are_unique();
    proof {
        lemma_put(s.key_packages@, participant@, key_package@);
        if s.wf() && has_key(s.round1_packages@, participant@) {
            let after = put(s.key_packages@, participant@, key_package@);
            assert forall|k: Seq<char>| has_key(after, k) implies has_key(s.round1_packages@, k) by {
                if k != participant@ {
                    assert(lookup(after, k) == lookup(s.key_packages@, k));
                }
            }
            lemma_len_of_subset(after, s.round1_packages@);
        }
    }
    s.key_packages.insert(participant, key_package);
    if s.key_packages.len() >= s.threshold as usize {
        s.group_public_key = Some(group_key);
    }
    s
}

/// Whether a stored round-one pair is safe to hand to DKG part two: a secret whose
/// `max_signers` and coefficient count are both positive, or one that does not decode.
pub open spec fn secret_usable(pair: Seq<char>) -> bool {
    match secret_bounds_of(pair) {
        Some(b) => b.0 >= 1 && b.1 >= 1,
        None => true,
    }
}

/// Whether round two for `participant` has everything it needs: its stored pair is usable, the
/// peer identifiers fit in 16 bits, and part two accepts its inputs.
pub open spec fn keygen_round2_succeeds(s: KeygenState, participant: Seq<char>, all: Seq<EntryView>) -> bool {
    let own = lookup(s.round1_packages@, participant)->0;
    &&& secret_usable(own)
    &&& peers_of(all, participant).len() <= 65534
    &&& dkg_part2_accepts(own, peer_packages(all, participant))
}

/// Round two of key generation for `participant`: from its stored round-one pair and the public
/// round-one packages of everyone (`all_round1_packages`, supplied by the caller), runs DKG part
/// two, stores its output, and returns the new state with that output.
pub fn keygen_round2(state: KeygenState, participant: &str, all_round1_packages: &ParticipantMap) -> (r: Result<(KeygenState, String), FrostError>)
    ensures
        state.current_round != 2 ==> (r matches Err(FrostError::InvalidStateTransition(d)) && d@ == wrong_round_text(
            2,
            state.current_round,
        )),
        state.current_round == 2 && !has_key(state.round1_packages@, participant@) ==> (r matches Err(
            FrostError::InvalidParticipant(d),
        ) && d@ == missing_participant_text(participant@)),
        state.current_round == 2 && has_key(state.round1_packages@, participant@) ==> (r is Ok
            <==> keygen_round2_succeeds(state, participant@, all_round1_packages@)),
        r matches Ok((t, k)) ==> {
            &&& state.current_round == 2
            &&& has_key(state.round1_packages@, participant@)
            &&& k@ == keygen_round2_output(state, participant@, all_round1_packages@).0
            &&& round2_recorded(
                state,
                t,
                participant@,
                k@,
                keygen_round2_output(state, participant@, all_round1_packages@).1,
            )
            &&& t.current_round == state.current_round
            &&& state.wf() ==> t.wf()
        },
        r matches Err(e) ==> match e {
            FrostError::InvalidStateTransition(_) => state.current_round != 2,
            FrostError::InvalidParticipant(_) => state.current_round == 2 && !has_key(
                state.round1_packages@,
                participant@,
            ),
            FrostError::KeygenError(_) => state.current_round == 2 && has_key(state.round1_packages@, participant@),
            FrostError::SerializationError(_) => state.current_round == 2 && has_key(
                state.round1_packages@,
                participant@,
            ),
            _ => false,
        },
{
    if state.current_round != 2 {
        return Err(wrong_round(2, state.current_round));
    }
    let me = participant.to_owned();
    let own = match state.round1_packages.get(&me) {
        Some(p) => p.clone(),
        None => return Err(missing_participant(participant)),
    };
    match round1_secret_bounds(&own) {
        Some((max_signers, coefficients)) => {
            if max_signers == 0 || coefficients == 0 {
                return Err(FrostError::SerializationError("Round one secret has no signers or coefficients".to_owned()));
            }
        },
        None => {},
    }
    let peers = assign_peer_identifiers(all_round1_packages, &me)?;
    match dkg_round2(&own, &peers) {
        Ok((key_package, group_key)) => {
            let t = record_keygen_round2(state, me, key_package.clone(), group_key);
            Ok((t, key_package))
        },
        Err(f) => Err(keygen_error_of(f)),
    }
}

/// Submitting round one again for a participant already present, in a well-formed ceremony,
/// replaces that participant's package where it stands; the round, the size of the map and
/// every other participant's entry stay as they were.
pub proof fn lemma_keygen_resubmission(s: KeygenState, t: KeygenState, participant: Seq<char>, package: Seq<char>)
    requires
        s.wf(),
        s.current_round == 1,
        has_key(s.round1_packages@, participant),
        round1_recorded(s, t, participant, package),
    ensures
        t.current_round == s.current_round,
        t.round1_packages@.len() == s.round1_packages@.len(),
        lookup(t.round1_packages@, participant) == Some(package),
        forall|i: int|
            0 <= i < s.round1_packages@.len() && s.round1_packages@[i].0 != participant
                ==> #[trigger] t.round1_packages@[i] == s.round1_packages@[i],
        forall|other: Seq<char>|
            other != participant ==> #[trigger] lookup(t.round1_packages@, other) == lookup(
                s.round1_packages@,
                other,
            ),
        t.wf(),
{
    lemma_put(s.round1_packages@, participant, package);
}

/// Identifiers follow from the order of the calls alone: two runs whose round-one maps hold the
/// same ids in the same order give the next submitter the same identifier, and still hold the
/// same ids after it, whatever packages the randomness produced.
pub proof fn lemma_keygen_identifiers_deterministic(
    s1: KeygenState,
    s2: KeygenState,
    participant: Seq<char>,
    package1: Seq<char>,
    package2: Seq<char>,
)
    requires
        ids(s1.round1_packages@) == ids(s2.round1_packages@),
    ensures
        s1.round1_packages@.len() + 1 == s2.round1_packages@.len() + 1,
        ids(put(s1.round1_packages@, participant, package1)) == ids(put(s2.round1_packages@, participant, package2)),
{
    assert(s1.round1_packages@.len() == ids(s1.round1_packages@).len());
    assert(s2.round1_packages@.len() == ids(s2.round1_packages@).len());
    lemma_ids_ignore_packages(s1.round1_packages@, s2.round1_packages@, participant, package1, package2);
}

/// Peer identifiers follow from the ids alone: two collections with the same ids in the same
/// order number the same peers with the same identifiers.
pub proof fn lemma_peer_identifiers_deterministic(m1: Seq<EntryView>, m2: Seq<EntryView>, me: Seq<char>)
    requires
        ids(m1) == ids(m2),
    ensures
        peer_packages(m1, me).len() == peer_packages(m2, me).len(),
        forall|i: int| 0 <= i < peer_packages(m1, me).len() ==> #[trigger] peer_packages(m1, me)[i].0 == peer_packages(m2, me)[i].0,
        ids(peers_of(m1, me)) == ids(peers_of(m2, me)),
    decreases m1.len(),
{
    assert(m1.len() == ids(m1).len());
    assert(m2.len() == ids(m2).len());
    reveal(Seq::filter);
    if m1.len() > 0 {
        assert(ids(m1.drop_last()) =~= ids(m2.drop_last())) by {
            assert forall|i: int| 0 <= i < m1.len() - 1 implies ids(m1.drop_last())[i] == ids(m2.drop_last())[i] by {
                assert(ids(m1)[i] == ids(m2)[i]);
            }
        }
        lemma_peer_identifiers_deterministic(m1.drop_last(), m2.drop_last(), me);
        assert(ids(m1)[m1.len() - 1] == ids(m2)[m1.len() - 1]);
        let a = peers_of(m1.drop_last(), me);
        let b = peers_of(m2.drop_last(), me);
        assert(m1.last().0 == m2.last().0);
        if m1.last().0 != me {
            assert(not_me(me)(m1.last()));
            assert(not_me(me)(m2.last()));
            assert(peers_of(m1, me) == a.push(m1.last()));
            assert(peers_of(m2, me) == b.push(m2.last()));
            assert(ids(a.push(m1.last())) =~= ids(a).push(m1.last().0));
            assert(ids(b.push(m2.last())) =~= ids(b).push(m2.last().0));
        } else {
            assert(!not_me(me)(m1.last()));
            assert(!not_me(me)(m2.last()));
            assert(peers_of(m1, me) == a);
            assert(peers_of(m2, me) == b);
        }
        assert(ids(peers_of(m1, me)) =~= ids(peers_of(m2, me)));
    } else {
        assert(ids(peers_of(m1, me)) =~= ids(peers_of(m2, me)));
    }
    assert(peers_of(m1, me).len() == ids(peers_of(m1, me)).len());
    assert(peers_of(m2, me).len() == ids(peers_of(m2, me)).len());
}

} // verus!
