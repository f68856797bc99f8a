//! The commands of the tool, and the text that `generate` prints.
use vstd::prelude::*;
use vstd::string::StringExecFns;
use crate::keys::{key_text, private_prefix, public_prefix, SodaPrivate, SodaPublic};

verus! {

/// What one run of the tool is asked to do.
#[derive(Clone)]
pub enum SubCommand {
    /// Make a new key pair.
    Generate,
    /// Encrypt a message for the given public key; with no value, the message
    /// is read from standard input.
    Encrypt { public: SodaPublic, value: Option<String> },
    /// Decrypt a message with the given private key; with no value, the
    /// ciphertext is read from standard input.
    Decrypt { private: SodaPrivate, value: Option<String> },
}

/// The two labelled lines that show a new key pair.
pub open spec fn keypair_lines(public: Seq<u8>, private: Seq<u8>) -> Seq<char> {
    "Public key (send to others for encrypting): "@ + key_text(public_prefix(), public) + "\n"@
        + "Private key (keep for yourself for decrypting): "@ + key_text(
        private_prefix(),
        private,
    ) + "\n"@
}

/// The text that shows a new key pair: the public key, to send to others, and
/// the private key, to keep.
pub fn keypair_report(public: &SodaPublic, private: &SodaPrivate) -> (r: String)
    ensures
        r@ == keypair_lines(public@, private@),
{
    let r = String::from_str("Public key (send to others for encrypting): ");
    let r = r.concat(public.to_string().as_str());
    let r = r.concat("\n");
    let r = r.concat("Private key (keep for yourself for decrypting): ");
    let r = r.concat(private.to_string().as_str());
    r.concat("\n")
}

} // verus!
