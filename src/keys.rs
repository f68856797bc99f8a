//! Public and private keys, and their prefixed hexadecimal text.
use vstd::prelude::*;
use vstd::string::StringExecFns;
use crate::hex::{decode_hex, encode_hex, hex_bytes, hex_lower, is_hex_text, lemma_hex_round_trip};

verus! {

/// Length in bytes of a public key and of a private key.
pub const KEY_LEN: usize = 32;

/// Why key text was refused.
#[derive(Clone, Copy, Debug, PartialEq, Eq, Structural)]
pub enum KeyError {
    /// The text does not start with the prefix of its kind of key.
    WrongPrefix,
    /// What follows the prefix is not hexadecimal text.
    NotHex,
    /// The hexadecimal text does not hold exactly one key's bytes.
    InvalidLength,
}

/// The prefix of public key text.
pub open spec fn public_prefix() -> Seq<char> {
    "sodapub"@
}

/// The prefix of private key text.
pub open spec fn private_prefix() -> Seq<char> {
    "sodapriv"@
}

/// Whether `s` starts with `p`.
pub open spec fn has_prefix(s: Seq<char>, p: Seq<char>) -> bool {
    p.len() <= s.len() && s.subrange(0, p.len() as int) == p
}

/// The text of a key: its prefix, then the lowercase hexadecimal text of its
/// bytes.
pub open spec fn key_text(prefix: Seq<char>, key: Seq<u8>) -> Seq<char> {
    prefix + hex_lower(key)
}

/// The key bytes that `s` stands for, or why it stands for none.
pub open spec fn key_from_text(prefix: Seq<char>, s: Seq<char>) -> Result<Seq<u8>, KeyError> {
    if !has_prefix(s, prefix) {
        Err(KeyError::WrongPrefix)
    } else {
        let body = s.subrange(prefix.len() as int, s.len() as int);
        if !is_hex_text(body) {
            Err(KeyError::NotHex)
        } else if hex_bytes(body).len() != KEY_LEN {
            Err(KeyError::InvalidLength)
        } else {
            Ok(hex_bytes(body))
        }
    }
}

/// What `parse` returns, stated over the key's bytes.
pub open spec fn parsed_as<K: View<V = Seq<u8>>>(
    r: Result<K, KeyError>,
    expected: Result<Seq<u8>, KeyError>,
) -> bool {
    match r {
        Ok(k) => expected == Ok::<Seq<u8>, KeyError>(k@),
        Err(e) => expected == Err::<Seq<u8>, KeyError>(e),
    }
}

/// Parsing the text of any key of the right length gives back its bytes.
pub proof fn lemma_key_text_round_trip(prefix: Seq<char>, key: Seq<u8>)
    requires
        key.len() == KEY_LEN,
    ensures
        key_from_text(prefix, key_text(prefix, key)) == Ok::<Seq<u8>, KeyError>(key),
{
    let s = key_text(prefix, key);
    lemma_hex_round_trip(key);
    assert(s.subrange(0, prefix.len() as int) =~= prefix);
    assert(s.subrange(prefix.len() as int, s.len() as int) =~= hex_lower(key));
}

/// The rest of `s` after `prefix`, if `s` starts with it.
pub fn strip_prefix<'a>(s: &'a str, prefix: &str) -> (r: Option<&'a str>)
    ensures
        r is Some <==> has_prefix(s@, prefix@),
        r is Some ==> r->0@ == s@.subrange(prefix@.len() as int, s@.len() as int),
{
    let n = prefix.unicode_len();
    let m = s.unicode_len();
    if m < n {
        return None;
    }
    let mut i: usize = 0;
    while i < n
        invariant
            n == prefix@.len(),
            m == s@.len(),
            n <= m,
            0 <= i <= n,
            forall|j: int| 0 <= j < i ==> s@[j] == prefix@[j],
        decreases n - i,
    {
        if s.get_char(i) != prefix.get_char(i) {
            assert(s@.subrange(0, n as int)[i as int] != prefix@[i as int]);
            return None;
        }
        i = i + 1;
    }
    assert(s@.subrange(0, n as int) =~= prefix@);
    Some(s.substring_char(n, m))
}

/// Relies on sodiumoxide's box_::PublicKey::from_slice: it takes exactly a
/// key's length of bytes, and keeps them as they are.
#[verifier::external_body]
fn public_key_from_slice(b: &[u8]) -> (r: Option<[u8; 32]>)
    ensures
        r is Some <==> b@.len() == KEY_LEN,
        r is Some ==> r->0@ == b@,
{
    sodiumoxide::crypto::box_::PublicKey::from_slice(b).map(|k| k.0)
}

/// Relies on sodiumoxide's box_::SecretKey::from_slice: it takes exactly a
/// key's length of bytes, and keeps them as they are.
#[verifier::external_body]
fn secret_key_from_slice(b: &[u8]) -> (r: Option<[u8; 32]>)
    ensures
        r is Some <==> b@.len() == KEY_LEN,
        r is Some ==> r->0@ == b@,
{
    sodiumoxide::crypto::box_::SecretKey::from_slice(b).map(|k| k.0)
}

/// Relies on sodiumoxide::utils::memcmp: true exactly when the two slices
/// hold the same bytes, in time that does not depend on those bytes.
#[verifier::external_body]
fn same_bytes(a: &[u8], b: &[u8]) -> (r: bool)
    ensures
        r == (a@ == b@),
{
    sodiumoxide::utils::memcmp(a, b)
}

/// Relies on sodiumoxide::utils::memzero: every byte becomes zero.
#[verifier::external_body]
fn wipe(b: &mut [u8; 32])
    ensures
        final(b)@ == Seq::new(32, |i: int| 0u8),
    opens_invariants none
    no_unwind
{
    sodiumoxide::utils::memzero(b)
}

/// A public key: anyone who holds it can encrypt to its owner.
#[derive(Clone, Copy, Debug)]
pub struct SodaPublic {
    key: [u8; 32],
}

impl View for SodaPublic {
    type V = Seq<u8>;

    closed spec fn view(&self) -> Seq<u8> {
        self.key@
    }
}

impl SodaPublic {
    /// The key made of these bytes.
    pub fn from_bytes(key: [u8; 32]) -> (r: SodaPublic)
        ensures
            r@ == key@,
    {
        SodaPublic { key }
    }

    /// The key's bytes.
    pub fn to_bytes(&self) -> (r: [u8; 32])
        ensures
            r@ == self@,
    {
        self.key
    }

    /// Every public key holds exactly a key's length of bytes.
    pub proof fn lemma_len(&self)
        ensures
            self@.len() == KEY_LEN,
    {
    }

    /// Reads public key text: `sodapub`, then the key's bytes in hexadecimal.
    pub fn parse(s: &str) -> (r: Result<SodaPublic, KeyError>)
        ensures
            parsed_as(r, key_from_text(public_prefix(), s@)),
    {
        let body = match strip_prefix(s, "sodapub") {
            Some(body) => body,
            None => return Err(KeyError::WrongPrefix),
        };
        let bytes = match decode_hex(body) {
            Ok(bytes) => bytes,
            Err(_) => return Err(KeyError::NotHex),
        };
        match public_key_from_slice(bytes.as_slice()) {
            Some(key) => Ok(SodaPublic { key }),
            None => Err(KeyError::InvalidLength),
        }
    }

    /// The key's text: `sodapub`, then its bytes in lowercase hexadecimal.
    pub fn to_string(&self) -> (r: String)
        ensures
            r@ == key_text(public_prefix(), self@),
    {
        let digits = encode_hex(self.key.as_slice());
        String::from_str("sodapub").concat(digits.as_str())
    }
}

impl PartialEq for SodaPublic {
    fn eq(&self, o: &SodaPublic) -> (r: bool) {
        same_bytes(self.key.as_slice(), o.key.as_slice())
    }
}

impl vstd::std_specs::cmp::PartialEqSpecImpl for SodaPublic {
    open spec fn obeys_eq_spec() -> bool {
        true
    }

    open spec fn eq_spec(&self, o: &SodaPublic) -> bool {
        self@ == o@
    }
}

impl Eq for SodaPublic {}

impl std::str::FromStr for SodaPublic {
    type Err = KeyError;

    fn from_str(s: &str) -> (r: Result<SodaPublic, KeyError>)
        ensures
            parsed_as(r, key_from_text(public_prefix(), s@)),
    {
        SodaPublic::parse(s)
    }
}

/// A private key: only its holder can decrypt what was encrypted to the
/// matching public key. It has no `Debug`, so that it is never printed by
/// accident, and its bytes are wiped when it is dropped.
#[derive(Clone)]
pub struct SodaPrivate {
    key: [u8; 32],
}

impl Drop for SodaPrivate {
    fn drop(&mut self)
        opens_invariants none
        no_unwind
    {
        wipe(&mut self.key);
    }
}

impl View for SodaPrivate {
    type V = Seq<u8>;

    closed spec fn view(&self) -> Seq<u8> {
        self.key@
    }
}

impl SodaPrivate {
    /// The key made of these bytes.
    pub fn from_bytes(key: [u8; 32]) -> (r: SodaPrivate)
        ensures
            r@ == key@,
    {
        SodaPrivate { key }
    }

    /// The key's bytes.
    pub fn to_bytes(&self) -> (r: [u8; 32])
        ensures
            r@ == self@,
    {
        self.key
    }

    /// Every private key holds exactly a key's length of bytes.
    pub proof fn lemma_len(&self)
        ensures
            self@.len() == KEY_LEN,
    {
    }

    /// Reads private key text: `sodapriv`, then the key's bytes in
    /// hexadecimal.
    pub fn parse(s: &str) -> (r: Result<SodaPrivate, KeyError>)
        ensures
            parsed_as(r, key_from_text(private_prefix(), s@)),
    {
        let body = match strip_prefix(s, "sodapriv") {
            Some(body) => body,
            None => return Err(KeyError::WrongPrefix),
        };
        let bytes = match decode_hex(body) {
            Ok(bytes) => bytes,
            Err(_) => return Err(KeyError::NotHex),
        };
        match secret_key_from_slice(bytes.as_slice()) {
            Some(key) => Ok(SodaPrivate { key }),
            None => Err(KeyError::InvalidLength),
        }
    }

    /// The key's text: `sodapriv`, then its bytes in lowercase hexadecimal.
    pub fn to_string(&self) -> (r: String)
        ensures
            r@ == key_text(private_prefix(), self@),
    {
        let digits = encode_hex(self.key.as_slice());
        String::from_str("sodapriv").concat(digits.as_str())
    }
}

impl PartialEq for SodaPrivate {
    fn eq(&self, o: &SodaPrivate) -> (r: bool) {
        same_bytes(self.key.as_slice(), o.key.as_slice())
    }
}

impl vstd::std_specs::cmp::PartialEqSpecImpl for SodaPrivate {
    open spec fn obeys_eq_spec() -> bool {
        true
    }

    open spec fn eq_spec(&self, o: &SodaPrivate) -> bool {
        self@ == o@
    }
}

impl Eq for SodaPrivate {}

impl std::str::FromStr for SodaPrivate {
    type Err = KeyError;

    fn from_str(s: &str) -> (r: Result<SodaPrivate, KeyError>)
        ensures
            parsed_as(r, key_from_text(private_prefix(), s@)),
    {
        SodaPrivate::parse(s)
    }
}

/// The text of a public key parses back to that key.
pub proof fn lemma_public_text_round_trip(k: SodaPublic)
    ensures
        key_from_text(public_prefix(), key_text(public_prefix(), k@)) == Ok::<Seq<u8>, KeyError>(k@),
{
    lemma_key_text_round_trip(public_prefix(), k@);
}

/// The text of a private key parses back to that key.
pub proof fn lemma_private_text_round_trip(k: SodaPrivate)
    ensures
        key_from_text(private_prefix(), key_text(private_prefix(), k@)) == Ok::<Seq<u8>, KeyError>(k@),
{
    lemma_key_text_round_trip(private_prefix(), k@);
}

} // verus!
