use vstd::prelude::*;
use vstd::string::StringExecFns;
use crate::error::{keygen_error_of, signing_error_of, FrostError};
use crate::participants::{has_key, put, EntryView, ParticipantMap};
use crate::primitives::{dealer_shares, identifier_text, signature_accepted, verify_decode_error, verify_inputs_decode, verify_with_key};

verus! {

/// The identifiers `1..=n` of a dealer's participants.
pub fn dealer_identifiers(n: u16) -> (r: Vec<u16>)
    ensures
        r@ == Seq::new(n as nat, |i: int| (i + 1) as u16),
{
    let mut out: Vec<u16> = Vec::new();
    let mut i: u16 = 0;
    while i < n
        invariant
            i <= n,
            out@ =~= Seq::new(i as nat, |j: int| (j + 1) as u16),
        decreases n - i,
    {
        out.push(i + 1);
        i = i + 1;
    }
    out
}

/// The name under which the dealer's share for an identifier with debug text `text` is kept.
pub open spec fn share_key(text: Seq<char>) -> Seq<char> {
    "participant_"@ + text
}

/// The entries that `dealer_share_map` builds from identifier texts and shares.
pub open spec fn keyed_shares(shares: Seq<(String, String)>) -> Seq<EntryView> {
    Seq::new(shares.len(), |i: int| (share_key(shares[i].0@), shares[i].1@))
}

/// Keys each share by the name of its identifier text, in the given order. With distinct
/// identifier texts the map holds exactly one entry per share, in that order.
pub fn dealer_share_map(shares: &Vec<(String, String)>) -> (r: ParticipantMap)
    ensures
        (forall|i: int, j: int| 0 <= i < shares@.len() && 0 <= j < shares@.len() && i != j
            ==> (#[trigger] shares@[i]).0@ != (#[trigger] shares@[j]).0@) ==> r@ == keyed_shares(shares@),
{
    let ghost distinct = forall|i: int, j: int| 0 <= i < shares@.len() && 0 <= j < shares@.len() && i != j
        ==> (#[trigger] shares@[i]).0@ != (#[trigger] shares@[j]).0@;
    let mut out = ParticipantMap::new();
    let mut i: usize = 0;
    while i < shares.len()
        invariant
            i <= shares@.len(),
            distinct == (forall|a: int, b: int| 0 <= a < shares@.len() && 0 <= b < shares@.len() && a != b
                ==> (#[trigger] shares@[a]).0@ != (#[trigger] shares@[b]).0@),
            distinct ==> out@ == keyed_shares(shares@).subrange(0, i as int),
        decreases shares@.len() - i,
    {
        let (text, share) = &shares[i];
        let mut key = <String as StringExecFns>::from_str("participant_");
        key.append(text.as_str());
        proof {
            if distinct {
                let prev = keyed_shares(shares@).subrange(0, i as int);
                assert(!has_key(prev, key@)) by {
                    if has_key(prev, key@) {
                        let j = choose|j: int| 0 <= j < prev.len() && (#[trigger] prev[j]).0 == key@;
                        let p = "participant_"@;
                        assert((p + shares@[j].0@).subrange(p.len() as int, (p + shares@[j].0@).len() as int) =~= shares@[j].0@);
                        assert((p + text@).subrange(p.len() as int, (p + text@).len() as int) =~= text@);
                        assert(shares@[j].0@ != shares@[i as int].0@);
                    }
                }
                assert(put(prev, key@, share@) =~= keyed_shares(shares@).subrange(0, i + 1));
            }
        }
        out.insert(key, share.clone());
        i = i + 1;
    }
    proof {
        if distinct {
            assert(keyed_shares(shares@).subrange(0, shares@.len() as int) =~= keyed_shares(shares@));
        }
    }
    out
}

/// Trusted-dealer key generation: checks the parameters as `create_keygen_state` does, then
/// produces in one step the encoded group public key package and each participant's encoded
/// secret share, keyed by `participant_` and the debug text of its identifier, for the
/// identifiers `1..=max_participants` in order. `private_key_hex` is accepted for the
/// interface's sake; the dealer draws its own secret.
pub fn generate_frost_shares(private_key_hex: &str, threshold: u16, max_participants: u16) -> (r: Result<(String, ParticipantMap), FrostError>)
    ensures
        threshold == 0 || threshold > max_participants ==> r == Err::<(String, ParticipantMap), FrostError>(
            (FrostError::InsufficientParticipants { required: threshold, actual: max_participants }),
        ),
        r is Ok <==> 2 <= threshold <= max_participants,
        r matches Err(e) ==> match e {
            FrostError::InsufficientParticipants { required, actual } => (threshold == 0 || threshold
                > max_participants) && required == threshold && actual == max_participants,
            FrostError::KeygenError(_) => 1 <= threshold <= max_participants,
            FrostError::SerializationError(_) => 1 <= threshold <= max_participants,
            _ => false,
        },
        r matches Ok(o) ==> {
            &&& 2 <= threshold <= max_participants
            &&& o.1@.len() == max_participants
            &&& forall|i: int| 0 <= i < max_participants ==> (#[trigger] o.1@[i]).0 == share_key(
                identifier_text((i + 1) as u16),
            )
        },
{
    if threshold == 0 || threshold > max_participants {
        return Err(FrostError::InsufficientParticipants { required: threshold, actual: max_participants });
    }
    let identifiers = dealer_identifiers(max_participants);
    match dealer_shares(&identifiers, max_participants, threshold) {
        Ok((group_key, shares)) => {
            let map = dealer_share_map(&shares);
            proof {
                assert forall|i: int, j: int| 0 <= i < shares@.len() && 0 <= j < shares@.len() && i != j
                    implies (#[trigger] shares@[i]).0@ != (#[trigger] shares@[j]).0@ by {
                    assert(identifiers@[i] != identifiers@[j]);
                }
                assert forall|i: int| 0 <= i < max_participants implies (#[trigger] map@[i]).0 == share_key(
                    identifier_text((i + 1) as u16),
                ) by {
                    assert(shares@[i].0@ == identifier_text(identifiers@[i]));
                }
            }
            Ok((group_key, map))
        },
        Err(f) => Err(keygen_error_of(f)),
    }
}

/// Whether `signature` is a valid signature on `message` under the group public key package.
pub fn verify_signature(message: &[u8], signature: &String, group_public_key: &String) -> (r: Result<bool, FrostError>)
    ensures
        r is Ok <==> verify_inputs_decode(signature@, group_public_key@),
        r matches Ok(b) ==> b == signature_accepted(message@, signature@, group_public_key@),
        r matches Err(e) ==> (e matches FrostError::SerializationError(d) && d@ == verify_decode_error(
            signature@,
            group_public_key@,
        )),
{
    match verify_with_key(message, signature, group_public_key) {
        Ok(b) => Ok(b),
        Err(f) => Err(signing_error_of(f)),
    }
}

} // verus!
