//! Passwordless authentication with a Chaum-Pedersen discrete-log
//! zero-knowledge proof.
//!
//! A prover convinces a verifier that it knows a secret exponent `x` with
//! `y1 == g^x mod p` and `y2 == h^x mod p`, without revealing `x`.  The
//! crate holds the protocol engine (commitments, challenges, responses,
//! verification), the server-side session store with expiry, and the
//! orchestration on both sides.

pub mod big;
pub mod crypto;
pub mod prover;
pub mod server;
pub mod session;
