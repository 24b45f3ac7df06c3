use vstd::prelude::*;
use crate::error::PrimitiveFailure;
use frost_core::keys::dkg;
use frost_secp256k1::rand_core::OsRng;
use frost_secp256k1::keys::{IdentifierList, KeyPackage, PublicKeyPackage};
use frost_secp256k1::round1::{SigningCommitments, SigningNonces};
use frost_secp256k1::round2::SignatureShare;
use frost_secp256k1::{Identifier, Secp256K1Sha256, Signature, SigningPackage};
use std::collections::BTreeMap;

verus! {

type Round1 = (dkg::round1::SecretPackage<Secp256K1Sha256>, dkg::round1::Package<Secp256K1Sha256>);

/// Identifier and package of each peer, as handed to `dkg_round2` and `aggregate_shares`.
pub open spec fn numbered_view(v: Seq<(u16, String)>) -> Seq<(u16, Seq<char>)> {
    v.map_values(|e: (u16, String)| (e.0, e.1@))
}

/// The encoded public round-one package inside an encoded (secret, public) round-one pair.
pub uninterp spec fn round1_public_part(pair: Seq<char>) -> Seq<char>;

/// The `max_signers` and the number of coefficients of the secret half of an encoded round-one
/// pair; `None` exactly when the text does not decode as such a pair.
pub uninterp spec fn secret_bounds_of(pair: Seq<char>) -> Option<(u16, usize)>;

/// Whether DKG part two, with decoding and encoding, succeeds on these arguments.
pub uninterp spec fn dkg_part2_accepts(own: Seq<char>, peers: Seq<(u16, Seq<char>)>) -> bool;

/// What DKG part two derives from a participant's round-one secret and its peers' public
/// round-one packages: its round-two secret package, and the round-two packages for its peers.
pub uninterp spec fn dkg_part2_output(own: Seq<char>, peers: Seq<(u16, Seq<char>)>) -> (Seq<char>, Seq<char>);

/// The encoded commitments inside an encoded (nonces, commitments) pair.
pub uninterp spec fn commitments_part(stored: Seq<char>) -> Seq<char>;

/// Whether a text decodes as a key package.
pub uninterp spec fn key_package_decodes(key_package: Seq<char>) -> bool;

/// The decoding error of a signature and a public key package that do not both decode.
pub uninterp spec fn verify_decode_error(signature: Seq<char>, group_key: Seq<char>) -> Seq<char>;

/// Whether signing, with decoding and encoding, succeeds on these arguments.
pub uninterp spec fn sign_accepts(signing_package: Seq<char>, nonces: Seq<char>, key_package: Seq<char>) -> bool;

/// The signature share computed from a signing package, stored nonces and a key package.
pub uninterp spec fn share_of(signing_package: Seq<char>, nonces: Seq<char>, key_package: Seq<char>) -> Seq<char>;

/// Whether aggregation, with decoding and encoding, succeeds on these arguments.
pub uninterp spec fn aggregate_accepts(signing_package: Seq<char>, shares: Seq<(u16, Seq<char>)>, group_key: Seq<char>) -> bool;

/// The group signature aggregated from numbered shares under a group public key package.
pub uninterp spec fn aggregate_of(signing_package: Seq<char>, shares: Seq<(u16, Seq<char>)>, group_key: Seq<char>) -> Seq<char>;

/// Whether a signature and a public key package both decode.
pub uninterp spec fn verify_inputs_decode(signature: Seq<char>, group_key: Seq<char>) -> bool;

/// Whether a signature on a message verifies under a group public key package.
pub uninterp spec fn signature_accepted(message: Seq<u8>, signature: Seq<char>, group_key: Seq<char>) -> bool;

/// The debug text of the identifier made from `id`.
pub uninterp spec fn identifier_text(id: u16) -> Seq<char>;

/// No identifier is zero and none repeats.
pub open spec fn identifiers_distinct_nonzero(ids: Seq<u16>) -> bool {
    &&& forall|i: int| 0 <= i < ids.len() ==> #[trigger] ids[i] != 0
    &&& forall|i: int, j: int| 0 <= i < ids.len() && 0 <= j < ids.len() && i != j ==> #[trigger] ids[i] != #[trigger] ids[j]
}

/// Relies on serde_json::from_str into the (secret, public) round-one pair, the same decoding
/// that `dkg_round2` makes, and on the secret package's `max_signers` and `coefficients`
/// accessors (frost-core's `internals` feature).
#[verifier::external_body]
pub(crate) fn round1_secret_bounds(pair: &String) -> (r: Option<(u16, usize)>)
    ensures
        r == secret_bounds_of(pair@),
{
    let (secret, _): Round1 = serde_json::from_str(pair).ok()?;
    Some((*secret.max_signers(), secret.coefficients().len()))
}

/// Relies on frost_core::keys::dkg::part1 (secp256k1, OS randomness): a fresh round-one secret
/// and public package for `identifier`, returned as the JSON of the pair and the JSON of the
/// public package; part1 refuses fewer than two signers or a minimum above the maximum, and
/// `Identifier::try_from` refuses zero. Nothing else in part1 fails for secp256k1.
#[verifier::external_body]
pub(crate) fn dkg_round1(identifier: u16, max_signers: u16, min_signers: u16) -> (r: Result<(String, String), PrimitiveFailure>)
    ensures
        r is Ok <==> (identifier != 0 && 2 <= min_signers && min_signers <= max_signers),
        r matches Ok(o) ==> o.1@ == round1_public_part(o.0@),
{
    let rejected = |e: frost_secp256k1::Error| PrimitiveFailure::Rejected(e.to_string());
    let malformed = |e: serde_json::Error| PrimitiveFailure::Malformed(e.to_string());
    let id = Identifier::try_from(identifier).map_err(rejected)?;
    let pair = dkg::part1(id, max_signers, min_signers, &mut OsRng).map_err(rejected)?;
    let public = serde_json::to_string(&pair.1).map_err(malformed)?;
    Ok((serde_json::to_string(&pair).map_err(malformed)?, public))
}

/// Relies on frost_core::keys::dkg::part2: decodes the participant's own round-one secret (the
/// first half of its stored pair) and each numbered peer's public round-one package, and returns
/// the JSON of the round-two secret package and of the round-two packages for the peers. Its
/// outcome depends on its arguments alone. part2 panics on a secret with no coefficients or with
/// `max_signers` zero, which `requires` leaves out.
#[verifier::external_body]
pub(crate) fn dkg_round2(own: &String, peers: &Vec<(u16, String)>) -> (r: Result<(String, String), PrimitiveFailure>)
    requires
        match secret_bounds_of(own@) {
            Some(b) => b.0 >= 1 && b.1 >= 1,
            None => true,
        },
    ensures
        r is Ok <==> dkg_part2_accepts(own@, numbered_view(peers@)),
        r matches Ok(o) ==> (o.0@, o.1@) == dkg_part2_output(own@, numbered_view(peers@)),
{
    let malformed = |e: serde_json::Error| PrimitiveFailure::Malformed(e.to_string());
    let rejected = |e: frost_secp256k1::Error| PrimitiveFailure::Rejected(e.to_string());
    let (secret, _): Round1 = serde_json::from_str(own).map_err(malformed)?;
    let mut received = BTreeMap::new();
    for (id, text) in peers {
        let package: dkg::round1::Package<Secp256K1Sha256> = serde_json::from_str(text).map_err(malformed)?;
        received.insert(Identifier::try_from(*id).map_err(rejected)?, package);
    }
    let (secret2, packages) = dkg::part2(secret, &received).map_err(rejected)?;
    Ok((serde_json::to_string(&secret2).map_err(malformed)?, serde_json::to_string(&packages).map_err(malformed)?))
}

/// Relies on frost_secp256k1::round1::commit (OS randomness): decodes a key package and returns
/// the fresh nonces with their commitments, and the commitments alone, as JSON.
#[verifier::external_body]
pub(crate) fn nonce_commit(key_package: &String) -> (r: Result<(String, String), PrimitiveFailure>)
    ensures
        r is Ok <==> key_package_decodes(key_package@),
        r matches Err(f) ==> f is Malformed,
        r matches Ok(o) ==> o.1@ == commitments_part(o.0@),
{
    let malformed = |e: serde_json::Error| PrimitiveFailure::Malformed(e.to_string());
    let package: KeyPackage = serde_json::from_str(key_package).map_err(malformed)?;
    let (nonces, commitments) = frost_secp256k1::round1::commit(package.signing_share(), &mut OsRng);
    let public = serde_json::to_string(&commitments).map_err(malformed)?;
    Ok((serde_json::to_string(&(nonces, commitments)).map_err(malformed)?, public))
}

/// Relies on frost_secp256k1::round2::sign: decodes the signing package, the stored nonces
/// (with their commitments) and the key package, and returns the signature share as JSON.
/// Its outcome depends on its arguments alone.
#[verifier::external_body]
pub(crate) fn sign_share(signing_package: &String, nonces: &String, key_package: &String) -> (r: Result<String, PrimitiveFailure>)
    ensures
        r is Ok <==> sign_accepts(signing_package@, nonces@, key_package@),
        r matches Ok(s) ==> s@ == share_of(signing_package@, nonces@, key_package@),
{
    let malformed = |e: serde_json::Error| PrimitiveFailure::Malformed(e.to_string());
    let package: SigningPackage = serde_json::from_str(signing_package).map_err(malformed)?;
    let (own_nonces, _): (SigningNonces, SigningCommitments) =
        serde_json::from_str(nonces).map_err(malformed)?;
    let key: KeyPackage = serde_json::from_str(key_package).map_err(malformed)?;
    let share = frost_secp256k1::round2::sign(&package, &own_nonces, &key).map_err(|e| PrimitiveFailure::Rejected(e.to_string()))?;
    serde_json::to_string(&share).map_err(malformed)
}

/// Relies on frost_secp256k1::aggregate: decodes the signing package, each numbered share and
/// the public key package, and returns the group signature as JSON.
/// Its outcome depends on its arguments alone.
#[verifier::external_body]
pub(crate) fn aggregate_shares(signing_package: &String, shares: &Vec<(u16, String)>, group_key: &String) -> (r: Result<String, PrimitiveFailure>)
    ensures
        r is Ok <==> aggregate_accepts(signing_package@, numbered_view(shares@), group_key@),
        r matches Ok(s) ==> s@ == aggregate_of(signing_package@, numbered_view(shares@), group_key@),
{
    let malformed = |e: serde_json::Error| PrimitiveFailure::Malformed(e.to_string());
    let rejected = |e: frost_secp256k1::Error| PrimitiveFailure::Rejected(e.to_string());
    let package: SigningPackage = serde_json::from_str(signing_package).map_err(malformed)?;
    let mut numbered = BTreeMap::new();
    for (id, text) in shares {
        let share: SignatureShare = serde_json::from_str(text).map_err(malformed)?;
        numbered.insert(Identifier::try_from(*id).map_err(rejected)?, share);
    }
    let key: PublicKeyPackage = serde_json::from_str(group_key).map_err(malformed)?;
    let signature = frost_secp256k1::aggregate(&package, &numbered, &key).map_err(rejected)?;
    serde_json::to_string(&signature).map_err(malformed)
}

/// Relies on frost_secp256k1::keys::generate_with_dealer (OS randomness) with the given
/// identifiers: the JSON of the public key package, and for each identifier in the given order
/// the debug text of its `Identifier` (the hex of its serialization, so distinct identifiers give
/// distinct texts) with the JSON of its secret share. It refuses fewer than two signers, a
/// minimum above the maximum, an identifier list whose length differs from the maximum, and a
/// zero or repeated identifier; nothing else fails.
#[verifier::external_body]
pub(crate) fn dealer_shares(identifiers: &Vec<u16>, max_signers: u16, min_signers: u16) -> (r: Result<(String, Vec<(String, String)>), PrimitiveFailure>)
    ensures
        r is Ok <==> (2 <= min_signers && min_signers <= max_signers && identifiers@.len() == max_signers
            && identifiers_distinct_nonzero(identifiers@)),
        r matches Ok(o) ==> o.1@.len() == identifiers@.len() && forall|i: int|
            0 <= i < identifiers@.len() ==> (#[trigger] o.1@[i]).0@ == identifier_text(identifiers@[i]),
        r matches Ok(o) ==> forall|i: int, j: int|
            0 <= i < identifiers@.len() && 0 <= j < identifiers@.len() && identifiers@[i] != identifiers@[j]
                ==> (#[trigger] o.1@[i]).0@ != (#[trigger] o.1@[j]).0@,
{
    let malformed = |e: serde_json::Error| PrimitiveFailure::Malformed(e.to_string());
    let rejected = |e: frost_secp256k1::Error| PrimitiveFailure::Rejected(e.to_string());
    let ids = identifiers.iter().map(|i| Identifier::try_from(*i)).collect::<Result<Vec<_>, _>>().map_err(rejected)?;
    let (shares, public) = frost_secp256k1::keys::generate_with_dealer(max_signers, min_signers, IdentifierList::Custom(&ids), &mut OsRng).map_err(rejected)?;
    let mut out = Vec::new();
    for id in &ids {
        out.push((format!("{:?}", id), serde_json::to_string(&shares[id]).map_err(malformed)?));
    }
    Ok((serde_json::to_string(&public).map_err(malformed)?, out))
}

/// Relies on frost_core::VerifyingKey::verify: decodes the signature and the public key package
/// and tells whether the signature on `message` verifies under the group's verifying key.
#[verifier::external_body]
pub(crate) fn verify_with_key(message: &[u8], signature: &String, group_key: &String) -> (r: Result<bool, PrimitiveFailure>)
    ensures
        r is Ok <==> verify_inputs_decode(signature@, group_key@),
        r matches Ok(b) ==> b == signature_accepted(message@, signature@, group_key@),
        r matches Err(f) ==> (f matches PrimitiveFailure::Malformed(d) && d@ == verify_decode_error(signature@, group_key@)),
{
    let malformed = |e: serde_json::Error| PrimitiveFailure::Malformed(e.to_string());
    let sig: Signature = serde_json::from_str(signature).map_err(malformed)?;
    let key: PublicKeyPackage = serde_json::from_str(group_key).map_err(malformed)?;
    Ok(key.verifying_key().verify(message, &sig).is_ok())
}

} // verus!
