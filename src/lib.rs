//! Textbook RSA: key generation, encryption and decryption.
pub mod rsa;
