//! Sealed-box encryption to a public key, decryption with the matching
//! private key, and the base64 text that carries ciphertext.
use vstd::prelude::*;
use crate::keys::{SodaPrivate, SodaPublic, KEY_LEN};

verus! {

/// Bytes that a sealed box adds to the message: the sender's one-time public
/// key and the authentication tag.
pub const SEAL_OVERHEAD: usize = 48;

/// The public key that belongs to the secret key `sk`.
pub uninterp spec fn x25519_public(sk: Seq<u8>) -> Seq<u8>;

/// What opening the sealed box `c` with the key pair `(pk, sk)` gives: the
/// message, or nothing where the box does not open.
pub uninterp spec fn sealed_open(c: Seq<u8>, pk: Seq<u8>, sk: Seq<u8>) -> Option<Seq<u8>>;

/// The standard, padded base64 text of `b`.
pub uninterp spec fn base64_text(b: Seq<u8>) -> Seq<char>;

/// The bytes that the base64 text `s` stands for, or nothing where it is not
/// base64.
pub uninterp spec fn base64_decoded(s: Seq<char>) -> Option<Seq<u8>>;

/// Whether `c` is a character of the standard base64 alphabet, or its padding.
pub open spec fn is_base64_char(c: char) -> bool {
    ('A' <= c && c <= 'Z') || ('a' <= c && c <= 'z') || ('0' <= c && c <= '9') || c == '+'
        || c == '/' || c == '='
}

/// The length of the padded base64 text of `n` bytes.
pub open spec fn base64_len(n: nat) -> nat {
    4 * ((n + 2) / 3)
}

/// `s` without one trailing line terminator (`\n` or `\r\n`), if it has one.
pub open spec fn without_line_end(s: Seq<char>) -> Seq<char> {
    if s.len() >= 2 && s[s.len() - 1] == '\n' && s[s.len() - 2] == '\r' {
        s.subrange(0, s.len() - 2)
    } else if s.len() >= 1 && s[s.len() - 1] == '\n' {
        s.subrange(0, s.len() - 1)
    } else {
        s
    }
}

/// Whether `pk` is the public key that belongs to the private key `sk`.
pub open spec fn is_key_pair(pk: Seq<u8>, sk: Seq<u8>) -> bool {
    pk == x25519_public(sk)
}

/// Whether the sealed box `c` opens to `m` under every secret key whose public
/// key is `pk`.
pub open spec fn opens_to(c: Seq<u8>, pk: Seq<u8>, m: Seq<u8>) -> bool {
    forall|sk: Seq<u8>|
        sk.len() == KEY_LEN && is_key_pair(pk, sk) ==> #[trigger] sealed_open(c, pk, sk) == Some(m)
}

/// Whether `text` is the base64 text of a sealed box of `m` for the public key
/// `pk`.
pub open spec fn is_sealed_text(text: Seq<char>, pk: Seq<u8>, m: Seq<u8>) -> bool {
    &&& text.len() == base64_len((m.len() + SEAL_OVERHEAD) as nat)
    &&& forall|i: int| 0 <= i < text.len() ==> is_base64_char(#[trigger] text[i])
    &&& exists|c: Seq<u8>|
        {
            &&& #[trigger] base64_text(c) == text
            &&& base64_decoded(text) == Some(c)
            &&& c.len() == m.len() + SEAL_OVERHEAD
            &&& opens_to(c, pk, m)
        }
}

/// Why decryption failed.
#[derive(Clone, Copy, Debug, PartialEq, Eq, Structural)]
pub enum DecryptError {
    /// The ciphertext text is not base64.
    InvalidBase64,
    /// The sealed box does not open with this key: it was sealed for another
    /// key, or it was changed or cut short.
    DecryptionFailed,
}

/// What opening the sealed box `c` with the private key `sk` gives.
pub open spec fn open_result(sk: Seq<u8>, c: Seq<u8>) -> Result<Seq<u8>, DecryptError> {
    match sealed_open(c, x25519_public(sk), sk) {
        Some(m) => Ok(m),
        None => Err(DecryptError::DecryptionFailed),
    }
}

/// What decrypting the ciphertext text `text` with the private key `sk` gives;
/// one trailing line terminator is not part of the ciphertext.
pub open spec fn decrypt_result(sk: Seq<u8>, text: Seq<char>) -> Result<Seq<u8>, DecryptError> {
    match base64_decoded(without_line_end(text)) {
        Some(c) => open_result(sk, c),
        None => Err(DecryptError::InvalidBase64),
    }
}

/// Whether `r` is `expected`, stated over the bytes of a message.
pub open spec fn decrypted_as(
    r: Result<Vec<u8>, DecryptError>,
    expected: Result<Seq<u8>, DecryptError>,
) -> bool {
    match r {
        Ok(m) => expected == Ok::<Seq<u8>, DecryptError>(m@),
        Err(e) => expected == Err::<Seq<u8>, DecryptError>(e),
    }
}

#[verifier::external_type_specification]
#[verifier::external_body]
pub struct ExDecodeError(base64::DecodeError);

/// Relies on sodiumoxide's box_::gen_keypair: a fresh secret key from the
/// library's secure random source, with the public key that belongs to it.
#[verifier::external_body]
fn gen_keypair() -> (r: ([u8; 32], [u8; 32]))
    ensures
        is_key_pair(r.0@, r.1@),
{
    let (pk, sk) = sodiumoxide::crypto::box_::gen_keypair();
    (pk.0, sk.0)
}

/// Relies on sodiumoxide's box_::SecretKey::public_key: the public key that
/// belongs to a secret key depends on that key alone.
#[verifier::external_body]
fn public_of(sk: &[u8; 32]) -> (r: [u8; 32])
    ensures
        r@ == x25519_public(sk@),
{
    sodiumoxide::crypto::box_::SecretKey(*sk).public_key().0
}

/// Relies on sodiumoxide's sealedbox::seal: the box is the overhead longer
/// than the message, and opens to the message with the key pair of `pk`.
#[verifier::external_body]
fn seal(m: &[u8], pk: &[u8; 32]) -> (r: Vec<u8>)
    ensures
        r@.len() == m@.len() + SEAL_OVERHEAD,
        opens_to(r@, pk@, m@),
{
    sodiumoxide::crypto::sealedbox::seal(m, &sodiumoxide::crypto::box_::PublicKey(*pk))
}

/// Relies on sodiumoxide's sealedbox::open: the result depends on the box and
/// the key pair alone; a box shorter than the overhead never opens, and a
/// message is the overhead shorter than its box.
#[verifier::external_body]
fn open(c: &[u8], pk: &[u8; 32], sk: &[u8; 32]) -> (r: Result<Vec<u8>, ()>)
    ensures
        r is Ok <==> sealed_open(c@, pk@, sk@) is Some,
        r is Ok ==> r->Ok_0@ == sealed_open(c@, pk@, sk@)->0,
        c@.len() < SEAL_OVERHEAD ==> r is Err,
        r is Ok ==> r->Ok_0@.len() + SEAL_OVERHEAD == c@.len(),
{
    sodiumoxide::crypto::sealedbox::open(
        c,
        &sodiumoxide::crypto::box_::PublicKey(*pk),
        &sodiumoxide::crypto::box_::SecretKey(*sk),
    )
}

/// Relies on base64::encode: standard padded text, four characters for each
/// three bytes or part of them, that depends on the bytes alone, and that
/// base64::decode reads back to them.
#[verifier::external_body]
fn encode_base64(b: &[u8]) -> (r: String)
    ensures
        r@ == base64_text(b@),
        r@.len() == base64_len(b@.len()),
        forall|i: int| 0 <= i < r@.len() ==> is_base64_char(#[trigger] r@[i]),
        base64_decoded(r@) == Some(b@),
{
    base64::encode(b)
}

/// Relies on base64::decode: the result depends on the text alone.
#[verifier::external_body]
fn decode_base64(s: &str) -> (r: Result<Vec<u8>, base64::DecodeError>)
    ensures
        r is Ok <==> base64_decoded(s@) is Some,
        r is Ok ==> r->Ok_0@ == base64_decoded(s@)->0,
{
    base64::decode(s)
}

/// `s` without one trailing line terminator, if it has one.
pub fn strip_line_end(s: &str) -> (r: &str)
    ensures
        r@ == without_line_end(s@),
{
    let n = s.unicode_len();
    if n >= 2 && s.get_char(n - 1) == '\n' && s.get_char(n - 2) == '\r' {
        s.substring_char(0, n - 2)
    } else if n >= 1 && s.get_char(n - 1) == '\n' {
        s.substring_char(0, n - 1)
    } else {
        s
    }
}

/// A fresh key pair: a random private key and its public key.
pub fn new_keypair() -> (r: (SodaPublic, SodaPrivate))
    ensures
        is_key_pair(r.0@, r.1@),
{
    let (pk, sk) = gen_keypair();
    (SodaPublic::from_bytes(pk), SodaPrivate::from_bytes(sk))
}

impl SodaPublic {
    /// Seals `plain` for this key and returns the box as base64 text.
    pub fn encrypt(&self, plain: &[u8]) -> (r: String)
        ensures
            is_sealed_text(r@, self@, plain@),
    {
        let pk = self.to_bytes();
        let sealed = seal(plain, &pk);
        let text = encode_base64(sealed.as_slice());
        assert(base64_text(sealed@) == text@);
        text
    }
}

impl SodaPrivate {
    /// The public key that belongs to this key.
    pub fn public_key(&self) -> (r: SodaPublic)
        ensures
            is_key_pair(r@, self@),
    {
        let sk = self.to_bytes();
        SodaPublic::from_bytes(public_of(&sk))
    }

    /// Opens the sealed box `cipher` with this key.
    pub fn open_box(&self, cipher: &[u8]) -> (r: Result<Vec<u8>, DecryptError>)
        ensures
            decrypted_as(r, open_result(self@, cipher@)),
            cipher@.len() < SEAL_OVERHEAD ==> r == Err::<Vec<u8>, DecryptError>(
                DecryptError::DecryptionFailed,
            ),
            r is Ok ==> r->Ok_0@.len() + SEAL_OVERHEAD == cipher@.len(),
    {
        let sk = self.to_bytes();
        let pk = public_of(&sk);
        match open(cipher, &pk, &sk) {
            Ok(m) => Ok(m),
            Err(_) => Err(DecryptError::DecryptionFailed),
        }
    }

    /// Decrypts base64 text of a sealed box with this key; one trailing line
    /// terminator is dropped first.
    pub fn decrypt(&self, data: &str) -> (r: Result<Vec<u8>, DecryptError>)
        ensures
            decrypted_as(r, decrypt_result(self@, data@)),
            (base64_decoded(without_line_end(data@)) matches Some(c) && c.len() < SEAL_OVERHEAD)
                ==> r == Err::<Vec<u8>, DecryptError>(DecryptError::DecryptionFailed),
            r is Ok ==> (base64_decoded(without_line_end(data@)) matches Some(c)
                && r->Ok_0@.len() + SEAL_OVERHEAD == c.len()),
    {
        let text = strip_line_end(data);
        let cipher = match decode_base64(text) {
            Ok(cipher) => cipher,
            Err(_) => return Err(DecryptError::InvalidBase64),
        };
        self.open_box(cipher.as_slice())
    }
}

/// Decrypting, with a private key, text that was encrypted to its public key
/// gives back the message.
pub proof fn lemma_decrypt_inverts_encrypt(
    public: SodaPublic,
    private: SodaPrivate,
    text: Seq<char>,
    m: Seq<u8>,
)
    requires
        is_key_pair(public@, private@),
        is_sealed_text(text, public@, m),
    ensures
        decrypt_result(private@, text) == Ok::<Seq<u8>, DecryptError>(m),
{
    assert(without_line_end(text) == text) by {
        if text.len() >= 1 {
            assert(is_base64_char(text[text.len() - 1]));
        }
    }
    let c = choose|c: Seq<u8>|
        {
            &&& #[trigger] base64_text(c) == text
            &&& base64_decoded(text) == Some(c)
            &&& c.len() == m.len() + SEAL_OVERHEAD
            &&& opens_to(c, public@, m)
        };
    private.lemma_len();
    assert(sealed_open(c, public@, private@) == Some(m));
}

/// The line that encryption prints, with its line terminator, decrypts to the
/// message as well.
pub proof fn lemma_printed_line_decrypts(
    public: SodaPublic,
    private: SodaPrivate,
    text: Seq<char>,
    m: Seq<u8>,
)
    requires
        is_key_pair(public@, private@),
        is_sealed_text(text, public@, m),
    ensures
        decrypt_result(private@, text.push('\n')) == Ok::<Seq<u8>, DecryptError>(m),
{
    let line = text.push('\n');
    assert(line.len() >= 2 && line[line.len() - 2] != '\r') by {
        assert(line[line.len() - 2] == text[text.len() - 1]);
        assert(is_base64_char(text[text.len() - 1]));
    }
    assert(without_line_end(line) =~= text);
    lemma_decrypt_inverts_encrypt(public, private, text, m);
}

} // verus!
