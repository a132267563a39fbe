//! Seekable stream ciphers built on fixed-width permutations.
//!
//! Each cipher absorbs a 32-byte key and a public context into a permutation
//! state once; any block of the keystream is then derived directly from that
//! state and the block's index, so any byte range can be produced without
//! computing what precedes it.
//!
//! There is no integrity: flipping a ciphertext bit flips the same plaintext
//! bit on decryption.

pub mod keystream;
pub mod lanes;
pub mod ascon;
pub mod chacha;
pub mod keccak;
