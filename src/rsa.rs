//! Textbook RSA over arbitrary-precision numbers.
pub mod bignum;
pub mod codec;
pub mod domain;
pub mod error;
pub mod key;
pub mod laws;
pub mod util;
pub mod text;
