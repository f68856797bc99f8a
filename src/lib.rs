//! Prefixed key text, sealed-box encryption to a public key, and decryption
//! with the matching private key.
pub mod command;
pub mod hex;
pub mod keys;
pub mod sealed;

pub use command::{keypair_report, SubCommand};
pub use keys::{KeyError, SodaPrivate, SodaPublic};
pub use sealed::{new_keypair, strip_line_end, DecryptError};
