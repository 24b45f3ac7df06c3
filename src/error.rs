use vstd::prelude::*;
use vstd::string::StringExecFns;

verus! {

/// Why a ceremony operation was refused.
#[derive(Debug)]
pub enum FrostError {
    /// The participant has no entry where one is expected.
    InvalidParticipant(String),
    /// A threshold or participant count does not allow the operation.
    InsufficientParticipants { required: u16, actual: u16 },
    /// A key-generation primitive failed.
    KeygenError(String),
    /// A nonce, signing or aggregation primitive failed.
    SigningError(String),
    /// A package could not be decoded or encoded.
    SerializationError(String),
    /// The operation does not belong to the round the ceremony is in.
    InvalidStateTransition(String),
}

/// The decimal digits of `n`.
pub open spec fn decimal_text(n: nat) -> Seq<char>
    decreases n,
{
    if n < 10 {
        seq![digit_char(n)]
    } else {
        decimal_text(n / 10).push(digit_char(n % 10))
    }
}

/// The digit character of `d` below ten.
pub open spec fn digit_char(d: nat) -> char {
    if d == 0 { '0' } else if d == 1 { '1' } else if d == 2 { '2' } else if d == 3 { '3' } else if d == 4 {
        '4'
    } else if d == 5 { '5' } else if d == 6 { '6' } else if d == 7 { '7' } else if d == 8 { '8' } else { '9' }
}

/// The digit `d` as a one-character text.
fn digit_str(d: u8) -> (r: &'static str)
    requires
        d < 10,
    ensures
        r@ == seq![digit_char(d as nat)],
{
    proof {
        reveal_strlit("0");
        reveal_strlit("1");
        reveal_strlit("2");
        reveal_strlit("3");
        reveal_strlit("4");
        reveal_strlit("5");
        reveal_strlit("6");
        reveal_strlit("7");
        reveal_strlit("8");
        reveal_strlit("9");
    }
    if d == 0 { "0" } else if d == 1 { "1" } else if d == 2 { "2" } else if d == 3 { "3" } else if d == 4 {
        "4"
    } else if d == 5 { "5" } else if d == 6 { "6" } else if d == 7 { "7" } else if d == 8 { "8" } else { "9" }
}

/// The decimal digits of `n` as text.
pub fn decimal(n: u8) -> (r: String)
    ensures
        r@ == decimal_text(n as nat),
{
    proof {
        reveal_with_fuel(decimal_text, 3);
    }
    if n >= 100 {
        let mut s = <String as StringExecFns>::from_str(digit_str(n / 100));
        s.append(digit_str((n / 10) % 10));
        s.append(digit_str(n % 10));
        proof {
            assert((n / 10) as nat / 10 == n as nat / 100);
            assert(decimal_text((n / 10) as nat) == seq![digit_char((n / 100) as nat)].push(digit_char(((n / 10) % 10) as nat)));
        }
        s
    } else if n >= 10 {
        let mut s = <String as StringExecFns>::from_str(digit_str(n / 10));
        s.append(digit_str(n % 10));
        s
    } else {
        <String as StringExecFns>::from_str(digit_str(n))
    }
}

/// The detail of an `InvalidParticipant` error for `participant`.
pub open spec fn missing_participant_text(participant: Seq<char>) -> Seq<char> {
    "Participant "@ + participant + " not found in round 1"@
}

/// The detail of an `InvalidStateTransition` error for a call of round `expected` on a
/// ceremony in round `got`.
pub open spec fn wrong_round_text(expected: u8, got: u8) -> Seq<char> {
    "Expected round "@ + decimal_text(expected as nat) + ", got round "@ + decimal_text(got as nat)
}

/// The error for a participant with no round-one entry.
pub fn missing_participant(participant: &str) -> (r: FrostError)
    ensures
        (r matches FrostError::InvalidParticipant(d) && d@ == missing_participant_text(participant@)),
{
    let mut d = <String as StringExecFns>::from_str("Participant ");
    d.append(participant);
    d.append(" not found in round 1");
    FrostError::InvalidParticipant(d)
}

/// The error for a call of round `expected` on a ceremony in round `got`.
pub fn wrong_round(expected: u8, got: u8) -> (r: FrostError)
    ensures
        (r matches FrostError::InvalidStateTransition(d) && d@ == wrong_round_text(expected, got)),
{
    let mut d = <String as StringExecFns>::from_str("Expected round ");
    d.append(decimal(expected).as_str());
    d.append(", got round ");
    d.append(decimal(got).as_str());
    FrostError::InvalidStateTransition(d)
}

/// What a cryptographic primitive reported on failure.
#[derive(Debug)]
pub enum PrimitiveFailure {
    /// A package handed to it could not be decoded, or its output could not be encoded.
    Malformed(String),
    /// The primitive itself refused its input.
    Rejected(String),
}

/// A primitive failure during key generation.
pub open spec fn keygen_failure(f: PrimitiveFailure) -> FrostError {
    match f {
        PrimitiveFailure::Malformed(d) => FrostError::SerializationError(d),
        PrimitiveFailure::Rejected(d) => FrostError::KeygenError(d),
    }
}

/// A primitive failure during signing.
pub open spec fn signing_failure(f: PrimitiveFailure) -> FrostError {
    match f {
        PrimitiveFailure::Malformed(d) => FrostError::SerializationError(d),
        PrimitiveFailure::Rejected(d) => FrostError::SigningError(d),
    }
}

pub fn keygen_error_of(f: PrimitiveFailure) -> (r: FrostError)
    ensures
        r == keygen_failure(f),
{
    match f {
        PrimitiveFailure::Malformed(d) => FrostError::SerializationError(d),
        PrimitiveFailure::Rejected(d) => FrostError::KeygenError(d),
    }
}

pub fn signing_error_of(f: PrimitiveFailure) -> (r: FrostError)
    ensures
        r == signing_failure(f),
{
    match f {
        PrimitiveFailure::Malformed(d) => FrostError::SerializationError(d),
        PrimitiveFailure::Rejected(d) => FrostError::SigningError(d),
    }
}

/// The uniform envelope of every ceremony operation: exactly one of `data` and `error`
/// is present, and `success` says which.
pub struct FrostResult<T> {
    pub success: bool,
    pub data: Option<T>,
    pub error: Option<FrostError>,
}

impl<T> FrostResult<T> {
    pub open spec fn wf(&self) -> bool {
        &&& self.success == self.data.is_some()
        &&& self.success == self.error.is_none()
    }

    pub fn ok(data: T) -> (r: Self)
        ensures
            r.wf(),
            r.success,
            r.data == Some(data),
    {
        FrostResult { success: true, data: Some(data), error: None }
    }

    pub fn err(error: FrostError) -> (r: Self)
        ensures
            r.wf(),
            !r.success,
            r.error == Some(error),
    {
        FrostResult { success: false, data: None, error: Some(error) }
    }

    /// Packs the outcome of an operation into an envelope.
    pub fn from_result(res: Result<T, FrostError>) -> (r: Self)
        ensures
            r.wf(),
            match res {
                Ok(d) => r.success && r.data == Some(d),
                Err(e) => !r.success && r.error == Some(e),
            },
    {
        match res {
            Ok(d) => FrostResult::ok(d),
            Err(e) => FrostResult::err(e),
        }
    }
}

} // verus!
