pub mod dealer;
pub mod error;
pub mod keygen;
pub mod participants;
pub mod primitives;
pub mod signing;

pub use dealer::{generate_frost_shares, verify_signature};
pub use error::{FrostError, FrostResult};
pub use keygen::{create_keygen_state, keygen_round1, keygen_round2, KeygenState};
pub use participants::ParticipantMap;
pub use signing::{create_signing_state, signing_round1, signing_round2, SigningState};
