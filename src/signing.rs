use vstd::prelude::*;
use crate::error::{missing_participant, missing_participant_text, signing_error_of, wrong_round, wrong_round_text, FrostError};
use crate::participants::{has_key, lookup, put, unique_keys, lemma_put, EntryView, ParticipantMap};
use crate::primitives::{
    aggregate_accepts, aggregate_of, aggregate_shares, commitments_part, key_package_decodes, nonce_commit, numbered_view, share_of, sign_accepts,
    sign_share,
};

verus! {

/// Progress of a signing ceremony.
pub struct SigningState {
    pub message: Vec<u8>,
    pub current_round: u8,
    /// The participants expected to sign, in order.
    pub signers: Vec<String>,
    /// Each participant's secret nonces with their commitments.
    pub round1_packages: ParticipantMap,
    /// Each participant's signature share.
    pub signature_shares: ParticipantMap,
    /// The group signature, once every expected share is in.
    pub final_signature: Option<String>,
}

impl SigningState {
    /// The ceremony's invariants: at least one signer, a round of one or two that is two exactly
    /// when every expected commitment is in, no shares before round two, and a final signature
    /// only once every expected share is in.
    pub open spec fn wf(&self) -> bool {
        &&& self.signers@.len() >= 1
        &&& self.current_round == 1 || self.current_round == 2
        &&& unique_keys(self.round1_packages@)
        &&& unique_keys(self.signature_shares@)
        &&& (self.current_round == 1 <==> self.round1_packages@.len() < self.signers@.len())
        &&& self.current_round == 1 ==> self.signature_shares@.len() == 0 && self.final_signature is None
        &&& self.final_signature is Some ==> self.signature_shares@.len() >= self.signers@.len()
    }
}

/// `t` is `s` after `participant` stored `nonces` in round one; the ceremony moves to round two
/// once there are as many entries as expected signers.
pub open spec fn commitment_recorded(s: SigningState, t: SigningState, participant: Seq<char>, nonces: Seq<char>) -> bool {
    &&& t.message@ == s.message@
    &&& t.signers@ == s.signers@
    &&& t.round1_packages@ == put(s.round1_packages@, participant, nonces)
    &&& t.current_round == if put(s.round1_packages@, participant, nonces).len() >= s.signers@.len() {
        2u8
    } else {
        s.current_round
    }
    &&& t.signature_shares@ == s.signature_shares@
    &&& t.final_signature == s.final_signature
}

/// `t` is `s` after `participant` stored `share` in round two, the rest unchanged.
pub open spec fn share_recorded(s: SigningState, t: SigningState, participant: Seq<char>, share: Seq<char>) -> bool {
    &&& t.message@ == s.message@
    &&& t.signers@ == s.signers@
    &&& t.current_round == s.current_round
    &&& t.round1_packages@ == s.round1_packages@
    &&& t.signature_shares@ == put(s.signature_shares@, participant, share)
    &&& t.final_signature == s.final_signature
}

/// The shares of `m` numbered by their order, from 1 on.
pub open spec fn numbered_shares(m: Seq<EntryView>) -> Seq<(u16, Seq<char>)> {
    Seq::new(m.len(), |i: int| ((i + 1) as u16, m[i].1))
}

/// The shares after `participant`'s share in round two.
pub open spec fn shares_after(s: SigningState, participant: Seq<char>, key_package: Seq<char>, signing_package: Seq<char>) -> Seq<EntryView> {
    put(s.signature_shares@, participant, share_of(signing_package, lookup(s.round1_packages@, participant)->0, key_package))
}

/// Opens a signing ceremony over `message` for the given signers.
pub fn create_signing_state(message: &[u8], signers: Vec<String>) -> (r: Result<SigningState, FrostError>)
    ensures
        r is Ok <==> signers@.len() >= 1,
        r matches Ok(s) ==> {
            &&& s.wf()
            &&& s.message@ == message@
            &&& s.signers@ == signers@
            &&& s.current_round == 1
            &&& s.round1_packages@.len() == 0
            &&& s.signature_shares@.len() == 0
            &&& s.final_signature is None
        },
        r matches Err(e) ==> e == (FrostError::InsufficientParticipants { required: 1, actual: 0 }),
{
    if signers.len() == 0 {
        return Err(FrostError::InsufficientParticipants { required: 1, actual: 0 });
    }
    Ok(SigningState {
        message: vstd::slice::slice_to_vec(message),
        current_round: 1,
        signers,
        round1_packages: ParticipantMap::new(),
        signature_shares: ParticipantMap::new(),
        final_signature: None,
    })
}

/// Stores `participant`'s nonces and advances to round two once every expected signer is in.
pub fn record_signing_round1(state: SigningState, participant: String, nonces: String) -> (r: SigningState)
    ensures
        commitment_recorded(state, r, participant@, nonces@),
        lookup(r.round1_packages@, participant@) == Some(nonces@),
        state.wf() && state.current_round == 1 ==> r.wf(),
{
    let mut s = state;
    s.round1_packages.ids_are_unique();
    proof {
        lemma_put(s.round1_packages@, participant@, nonces@);
    }
    s.round1_packages.insert(participant, nonces);
    if s.round1_packages.len() >= s.signers.len() {
        s.current_round = 2;
    }
    s
}

/// Round one of signing for `participant`: draws fresh nonces for the signing share in its key
/// package, keeps them in the state, and returns the new state with the public commitments only.
pub fn signing_round1(state: SigningState, participant: &str, key_package: &String) -> (r: Result<(SigningState, String), FrostError>)
    ensures
        state.current_round != 1 ==> (r matches Err(FrostError::InvalidStateTransition(d)) && d@ == wrong_round_text(
            1,
            state.current_round,
        )),
        state.current_round == 1 ==> (r is Ok <==> key_package_decodes(key_package@)),
        r matches Ok((t, c)) ==> {
            &&& state.current_round == 1
            &&& lookup(t.round1_packages@, participant@) is Some
            &&& commitment_recorded(state, t, participant@, lookup(t.round1_packages@, participant@)->0)
            &&& c@ == commitments_part(lookup(t.round1_packages@, participant@)->0)
            &&& t.current_round >= state.current_round
            &&& t.current_round == 2 ==> t.round1_packages@.len() >= t.signers@.len()
            &&& state.wf() ==> t.wf()
        },
        r matches Err(e) ==> match e {
            FrostError::InvalidStateTransition(_) => state.current_round != 1,
            FrostError::SerializationError(_) => state.current_round == 1,
            _ => false,
        },
{
    if state.current_round != 1 {
        return Err(wrong_round(1, state.current_round));
    }
    match nonce_commit(key_package) {
        Ok((nonces, commitments)) => {
            let t = record_signing_round1(state, participant.to_owned(), nonces);
            Ok((t, commitments))
        },
        Err(f) => Err(signing_error_of(f)),
    }
}

/// Stores `participant`'s signature share.
pub fn record_signature_share(state: SigningState, participant: String, share: String) -> (r: SigningState)
    ensures
        share_recorded(state, r, participant@, share@),
        state.wf() && state.current_round == 2 ==> r.wf(),
{
    let mut s = state;
    s.signature_shares.ids_are_unique();
    proof {
        lemma_put(s.signature_shares@, participant@, share@);
    }
    s.signature_shares.insert(participant, share);
    s
}

/// Numbers the shares of `shares` by their order, from 1 on. Fails when an identifier would not
/// fit in 16 bits.
pub fn number_shares(shares: &ParticipantMap) -> (r: Result<Vec<(u16, String)>, FrostError>)
    ensures
        shares@.len() <= 65535 <==> r is Ok,
        r matches Ok(v) ==> numbered_view(v@) == numbered_shares(shares@),
        r matches Err(e) ==> e is SigningError,
{
    if shares.len() > 65535 {
        return Err(FrostError::SigningError("Too many shares for an identifier".to_owned()));
    }
    let mut out: Vec<(u16, String)> = Vec::new();
    let mut i: usize = 0;
    while i < shares.len()
        invariant
            i <= shares@.len() <= 65535,
            out@.len() == i,
            numbered_view(out@) =~= numbered_shares(shares@).subrange(0, i as int),
        decreases shares@.len() - i,
    {
        let (_, share) = shares.entry(i);
        let ghost before = out@;
        out.push(((i + 1) as u16, share.clone()));
        proof {
            assert forall|j: int| 0 <= j < i implies numbered_view(out@)[j] == numbered_view(before)[j] by {}
            assert(numbered_view(out@)[i as int] == numbered_shares(shares@)[i as int]);
        }
        i = i + 1;
    }
    Ok(out)
}

/// Stores the group signature.
pub fn record_final_signature(state: SigningState, signature: String) -> (r: SigningState)
    ensures
        r.message@ == state.message@,
        r.signers@ == state.signers@,
        r.current_round == state.current_round,
        r.round1_packages@ == state.round1_packages@,
        r.signature_shares@ == state.signature_shares@,
        r.final_signature matches Some(f) && f@ == signature@,
        state.wf() && state.signature_shares@.len() >= state.signers@.len() ==> r.wf(),
{
    let mut s = state;
    s.final_signature = Some(signature);
    s
}

/// Whether signing round two for `participant` has everything it needs: signing accepts its
/// inputs, and, when the share completes the set, the shares can be numbered and aggregation
/// accepts them.
pub open spec fn signing_round2_succeeds(
    s: SigningState,
    participant: Seq<char>,
    key_package: Seq<char>,
    signing_package: Seq<char>,
    group_key: Seq<char>,
) -> bool {
    let shares = shares_after(s, participant, key_package, signing_package);
    &&& sign_accepts(signing_package, lookup(s.round1_packages@, participant)->0, key_package)
    &&& shares.len() < s.signers@.len() || (shares.len() <= 65535 && aggregate_accepts(
        signing_package,
        numbered_shares(shares),
        group_key,
    ))
}

/// Round two of signing for `participant`: signs `signing_package` with its stored nonces and
/// its key package and stores the share. Once every expected share is in, aggregates them, each
/// numbered by its order among the shares, under `group_public_key` and returns the group
/// signature; before that it returns `None`.
pub fn signing_round2(
    state: SigningState,
    participant: &str,
    key_package: &String,
    signing_package: &String,
    group_public_key: &String,
) -> (r: Result<(SigningState, Option<String>), FrostError>)
    ensures
        state.current_round != 2 ==> (r matches Err(FrostError::InvalidStateTransition(d)) && d@ == wrong_round_text(
            2,
            state.current_round,
        )),
        state.current_round == 2 && !has_key(state.round1_packages@, participant@) ==> (r matches Err(
            FrostError::InvalidParticipant(d),
        ) && d@ == missing_participant_text(participant@)),
        state.current_round == 2 && has_key(state.round1_packages@, participant@) ==> (r is Ok
            <==> signing_round2_succeeds(state, participant@, key_package@, signing_package@, group_public_key@)),
        r matches Ok((t, out)) ==> {
            let shares = shares_after(state, participant@, key_package@, signing_package@);
            &&& state.current_round == 2
            &&& has_key(state.round1_packages@, participant@)
            &&& t.message@ == state.message@
            &&& t.signers@ == state.signers@
            &&& t.current_round == state.current_round
            &&& t.round1_packages@ == state.round1_packages@
            &&& t.signature_shares@ == shares
            &&& if shares.len() >= state.signers@.len() {
                &&& out matches Some(sig)
                &&& sig@ == aggregate_of(signing_package@, numbered_shares(shares), group_public_key@)
                &&& t.final_signature matches Some(f) && f@ == sig@
            } else {
                &&& out is None
                &&& t.final_signature == state.final_signature
            }
            &&& state.wf() ==> t.wf()
        },
        r matches Err(e) ==> match e {
            FrostError::InvalidStateTransition(_) => state.current_round != 2,
            FrostError::InvalidParticipant(_) => state.current_round == 2 && !has_key(
                state.round1_packages@,
                participant@,
            ),
            FrostError::SigningError(_) => state.current_round == 2 && has_key(state.round1_packages@, participant@),
            FrostError::SerializationError(_) => state.current_round == 2 && has_key(
                state.round1_packages@,
                participant@,
            ),
            _ => false,
        },
{
    if state.current_round != 2 {
        return Err(wrong_round(2, state.current_round));
    }
    let me = participant.to_owned();
    let nonces = match state.round1_packages.get(&me) {
        Some(p) => p.clone(),
        None => return Err(missing_participant(participant)),
    };
    let share = match sign_share(signing_package, &nonces, key_package) {
        Ok(s) => s,
        Err(f) => return Err(signing_error_of(f)),
    };
    let t = record_signature_share(state, me, share);
    if t.signature_shares.len() >= t.signers.len() {
        let numbered = number_shares(&t.signature_shares)?;
        match aggregate_shares(signing_package, &numbered, group_public_key) {
            Ok(signature) => {
                let done = record_final_signature(t, signature.clone());
                Ok((done, Some(signature)))
            },
            Err(f) => Err(signing_error_of(f)),
        }
    } else {
        Ok((t, None))
    }
}

/// Submitting signing round one again for a participant already present, in a well-formed
/// ceremony, replaces that participant's nonces where they stand; the round, the size of the
/// map and every other participant's entry stay as they were.
pub proof fn lemma_signing_resubmission(s: SigningState, t: SigningState, participant: Seq<char>, nonces: Seq<char>)
    requires
        s.wf(),
        s.current_round == 1,
        has_key(s.round1_packages@, participant),
        commitment_recorded(s, t, participant, nonces),
    ensures
        t.current_round == s.current_round,
        t.round1_packages@.len() == s.round1_packages@.len(),
        lookup(t.round1_packages@, participant) == Some(nonces),
        forall|i: int|
            0 <= i < s.round1_packages@.len() && s.round1_packages@[i].0 != participant
                ==> #[trigger] t.round1_packages@[i] == s.round1_packages@[i],
        forall|other: Seq<char>|
            other != participant ==> #[trigger] lookup(t.round1_packages@, other) == lookup(
                s.round1_packages@,
                other,
            ),
        t.wf(),
{
    lemma_put(s.round1_packages@, participant, nonces);
}

} // verus!
