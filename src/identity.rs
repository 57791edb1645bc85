//! Keypairs, public keys and signatures of the Ed25519 scheme, and the
//! z-base-32 text form under which a public key travels in a URL.
use ed25519_dalek::{Signer, SigningKey, Verifier, VerifyingKey};
use rand::rngs::OsRng;
use vstd::prelude::*;
use vstd::string::StringExecFns;

verus! {

/// Whether 32 bytes are the compressed form of a point that the signature
/// scheme accepts as a verification key.
pub uninterp spec fn valid_key(bytes: Seq<u8>) -> bool;

/// Whether a 64-byte signature is accepted for a message under a key.
pub uninterp spec fn signature_accepted(key: Seq<u8>, message: Seq<u8>, signature: Seq<u8>) -> bool;

/// The public key bytes that belong to 32 secret bytes.
pub uninterp spec fn public_of(secret: Seq<u8>) -> Seq<u8>;

/// The signature of a message under 32 secret bytes.
pub uninterp spec fn signature_of(secret: Seq<u8>, message: Seq<u8>) -> Seq<u8>;

/// The z-base-32 text of a byte string (no padding).
pub uninterp spec fn z32_encode(bytes: Seq<u8>) -> Seq<char>;

/// The bytes that a z-base-32 text stands for, if it is well formed.
pub uninterp spec fn z32_decode(text: Seq<char>) -> Option<Seq<u8>>;

/// The z-base-32 alphabet: the value of each digit is its index.
pub open spec fn z32_alphabet() -> Seq<char> {
    seq![
        'y', 'b', 'n', 'd', 'r', 'f', 'g', '8', 'e', 'j', 'k', 'm', 'c', 'p', 'q', 'x',
        'o', 't', '1', 'u', 'w', 'i', 's', 'z', 'a', '3', '4', '5', 'h', '7', '6', '9',
    ]
}

/// Whether every character of a text is a z-base-32 digit.
pub open spec fn in_z32_alphabet(text: Seq<char>) -> bool {
    forall|i: int| 0 <= i < text.len() ==> z32_alphabet().contains(#[trigger] text[i])
}

/// The key that a text names: it decodes to exactly 32 bytes that form a
/// valid verification key.
pub open spec fn key_of_text(text: Seq<char>) -> Option<Seq<u8>> {
    match z32_decode(text) {
        Some(b) => if b.len() == 32 && valid_key(b) {
            Some(b)
        } else {
            None
        },
        None => None,
    }
}

/// Relies on `ed25519_dalek::VerifyingKey::from_bytes`: it succeeds exactly on
/// the bytes of a point that decompresses.
#[verifier::external_body]
fn decompresses(bytes: &[u8; 32]) -> (r: bool)
    ensures
        r == valid_key(bytes@),
{
    VerifyingKey::from_bytes(bytes).is_ok()
}

/// Relies on `ed25519_dalek::VerifyingKey::verify` (through `from_bytes` on the
/// key and `Signature::from_bytes`): the verdict depends on the three byte
/// strings alone.
#[verifier::external_body]
fn ed25519_verify(key: &[u8; 32], message: &[u8], signature: &[u8; 64]) -> (r: bool)
    ensures
        r == signature_accepted(key@, message@, signature@),
{
    match VerifyingKey::from_bytes(key) {
        Ok(vk) => vk.verify(message, &ed25519_dalek::Signature::from_bytes(signature)).is_ok(),
        Err(_) => false,
    }
}

/// Relies on `ed25519_dalek::SigningKey::generate` with the operating system's
/// random source (and `SigningKey::to_bytes`): 32 secret bytes.
#[verifier::external_body]
fn generate_secret() -> (r: [u8; 32]) {
    SigningKey::generate(&mut OsRng).to_bytes()
}

/// Relies on `ed25519_dalek::SigningKey::from_bytes`, `SigningKey::verifying_key`
/// and `VerifyingKey::to_bytes`: the public half is a function of the secret,
/// and its compressed form decompresses again.
#[verifier::external_body]
fn verifying_key_bytes(secret: &[u8; 32]) -> (r: [u8; 32])
    ensures
        r@ == public_of(secret@),
        valid_key(r@),
{
    SigningKey::from_bytes(secret).verifying_key().to_bytes()
}

/// Relies on `ed25519_dalek::SigningKey::sign` (through `SigningKey::from_bytes`
/// and `Signature::to_bytes`): deterministic Ed25519 signing, whose signature
/// `VerifyingKey::verify` accepts under the public half of the same secret.
#[verifier::external_body]
fn ed25519_sign(secret: &[u8; 32], message: &[u8]) -> (r: [u8; 64])
    ensures
        r@ == signature_of(secret@, message@),
        signature_accepted(public_of(secret@), message@, r@),
{
    SigningKey::from_bytes(secret).sign(message).to_bytes()
}

/// Relies on `base32::encode` with the z-base-32 alphabet, and on `base32::decode`
/// giving the bytes back.
#[verifier::external_body]
fn z32_encode_bytes(bytes: &[u8]) -> (r: String)
    ensures
        r@ == z32_encode(bytes@),
        r@.len() == (8 * bytes@.len() + 4) / 5,
        in_z32_alphabet(r@),
        z32_decode(r@) == Some(bytes@),
{
    base32::encode(base32::Alphabet::Z, bytes)
}

/// Relies on `base32::decode` with the z-base-32 alphabet: it refuses any
/// character outside the alphabet, and otherwise gives five bits per character,
/// the incomplete last byte dropped.
#[verifier::external_body]
fn z32_decode_text(text: &str) -> (r: Option<Vec<u8>>)
    ensures
        r.is_some() == z32_decode(text@).is_some(),
        r.is_some() ==> r.unwrap()@ == z32_decode(text@).unwrap(),
        r.is_some() ==> r.unwrap()@.len() == text@.len() * 5 / 8,
        !in_z32_alphabet(text@) ==> r.is_none(),
{
    base32::decode(base32::Alphabet::Z, text)
}

/// Failures of the identity operations.
#[derive(Debug, Clone)]
pub enum Error {
    /// The bytes are not a valid verification key.
    InvalidPublicKey,
    /// The signature does not verify against the message and key.
    InvalidSignature,
    /// The text is not the z-base-32 form of 32 bytes.
    Base32Error(String),
}

impl Error {
    /// The text that describes the failure.
    pub open spec fn text(&self) -> Seq<char> {
        match self {
            Error::InvalidPublicKey => "Invalid public key format"@,
            Error::InvalidSignature => "Invalid signature"@,
            Error::Base32Error(m) => "Base32 decode error: "@ + m@,
        }
    }

    /// The text that describes the failure.
    pub fn message(&self) -> (r: String)
        ensures
            r@ == self.text(),
    {
        match self {
            Error::InvalidPublicKey => String::from_str("Invalid public key format"),
            Error::InvalidSignature => String::from_str("Invalid signature"),
            Error::Base32Error(m) => String::from_str("Base32 decode error: ").concat(m.as_str()),
        }
    }
}

/// The decimal digit characters, by value.
pub open spec fn digit_chars() -> Seq<char> {
    seq!['0', '1', '2', '3', '4', '5', '6', '7', '8', '9']
}

/// The decimal numeral of `n`, without leading zeros.
pub open spec fn decimal(n: nat) -> Seq<char>
    decreases n,
{
    if n < 10 {
        seq![digit_chars()[n as int]]
    } else {
        decimal(n / 10) + seq![digit_chars()[(n % 10) as int]]
    }
}

/// The numeral of one decimal digit.
fn digit_text(d: usize) -> (r: &'static str)
    requires
        d < 10,
    ensures
        r@ == seq![digit_chars()[d as int]],
{
    proof {
        reveal_strlit("0");
        reveal_strlit("1");
        reveal_strlit("2");
        reveal_strlit("3");
        reveal_strlit("4");
        reveal_strlit("5");
        reveal_strlit("6");
        reveal_strlit("7");
        reveal_strlit("8");
        reveal_strlit("9");
    }
    let r = match d {
        0 => "0",
        1 => "1",
        2 => "2",
        3 => "3",
        4 => "4",
        5 => "5",
        6 => "6",
        7 => "7",
        8 => "8",
        _ => "9",
    };
    assert(r@ =~= seq![digit_chars()[d as int]]);
    r
}

/// Appends the decimal numeral of `n` to `text`.
fn append_decimal(text: &mut String, n: usize)
    ensures
        final(text)@ == old(text)@ + decimal(n as nat),
    decreases n,
{
    if n >= 10 {
        append_decimal(text, n / 10);
    }
    text.append(digit_text(n % 10));
    proof {
        if n >= 10 {
            assert(final(text)@ =~= old(text)@ + decimal(n as nat));
        }
    }
}

/// The text of the failure that decoding `text` as a key gives, where it fails.
pub open spec fn rejection_text(text: Seq<char>) -> Seq<char> {
    match z32_decode(text) {
        None => "Base32 decode error: "@ + "Invalid base32"@,
        Some(b) => if b.len() != 32 {
            "Base32 decode error: "@ + ("Expected 32 bytes, got "@ + decimal(b.len()))
        } else {
            "Invalid public key format"@
        },
    }
}

/// A 64-byte Ed25519 signature.
#[derive(Debug, Clone, Copy)]
pub struct Signature {
    bytes: [u8; 64],
}

impl View for Signature {
    type V = Seq<u8>;

    closed spec fn view(&self) -> Seq<u8> {
        self.bytes@
    }
}

impl Signature {
    /// The signature with the given bytes.
    pub fn from_bytes(bytes: &[u8; 64]) -> (r: Signature)
        ensures
            r@ == bytes@,
    {
        Signature { bytes: *bytes }
    }

    /// The bytes of the signature.
    pub fn to_bytes(&self) -> (r: [u8; 64])
        ensures
            r@ == self@,
    {
        self.bytes
    }
}

/// An Ed25519 verification key, kept as its 32 compressed bytes, which always
/// form a valid key.
#[derive(Debug, Clone, Copy, Hash, PartialOrd, Ord)]
pub struct PublicKey {
    bytes: [u8; 32],
}

impl View for PublicKey {
    type V = Seq<u8>;

    closed spec fn view(&self) -> Seq<u8> {
        self.bytes@
    }
}

impl PartialEq for PublicKey {
    fn eq(&self, other: &PublicKey) -> (r: bool)
        ensures
            r == (self@ == other@),
    {
        let mut i: usize = 0;
        while i < 32
            invariant
                0 <= i <= 32,
                forall|j: int| 0 <= j < i ==> self.bytes@[j] == other.bytes@[j],
            decreases 32 - i,
        {
            if self.bytes[i] != other.bytes[i] {
                return false;
            }
            i = i + 1;
        }
        assert(self.bytes@ =~= other.bytes@);
        true
    }
}

impl vstd::std_specs::cmp::PartialEqSpecImpl for PublicKey {
    open spec fn obeys_eq_spec() -> bool {
        true
    }

    open spec fn eq_spec(&self, other: &PublicKey) -> bool {
        self@ == other@
    }
}

impl Eq for PublicKey {
}

impl PublicKey {
    #[verifier::type_invariant]
    spec fn inv(&self) -> bool {
        valid_key(self.bytes@)
    }

    /// The public key with the given bytes, or `InvalidPublicKey` where they
    /// do not form a valid verification key.
    pub fn from_bytes(bytes: &[u8; 32]) -> (r: Result<PublicKey, Error>)
        ensures
            r.is_ok() == valid_key(bytes@),
            r matches Ok(k) ==> k@ == bytes@,
            r matches Err(e) ==> e is InvalidPublicKey,
    {
        if decompresses(bytes) {
            Ok(PublicKey { bytes: *bytes })
        } else {
            Err(Error::InvalidPublicKey)
        }
    }

    /// The 32 bytes of the key.
    pub fn to_bytes(&self) -> (r: [u8; 32])
        ensures
            r@ == self@,
            valid_key(r@),
    {
        proof {
            use_type_invariant(self);
        }
        self.bytes
    }

    /// Succeeds exactly when `signature` is accepted for `message` under this
    /// key; fails with `InvalidSignature` otherwise.
    pub fn verify(&self, message: &[u8], signature: &Signature) -> (r: Result<(), Error>)
        ensures
            r.is_ok() == signature_accepted(self@, message@, signature@),
            r matches Err(e) ==> e is InvalidSignature,
    {
        if ed25519_verify(&self.bytes, message, &signature.bytes) {
            Ok(())
        } else {
            Err(Error::InvalidSignature)
        }
    }

    /// The z-base-32 text of the key, which decodes back to this key.
    pub fn to_z32(&self) -> (r: String)
        ensures
            r@ == z32_encode(self@),
            r@.len() == 52,
            in_z32_alphabet(r@),
            key_of_text(r@) == Some(self@),
    {
        proof {
            use_type_invariant(self);
        }
        z32_encode_bytes(&self.bytes)
    }

    /// The key that a z-base-32 text names. Fails with `Base32Error` where
    /// the text is not z-base-32 or does not decode to exactly 32 bytes, and
    /// with `InvalidPublicKey` where the 32 bytes are not a valid key.
    pub fn from_z32(s: &str) -> (r: Result<PublicKey, Error>)
        ensures
            r.is_ok() == key_of_text(s@).is_some(),
            r matches Ok(k) ==> Some(k@) == key_of_text(s@),
            z32_decode(s@) matches Some(b) ==> b.len() == s@.len() * 5 / 8,
            z32_decode(s@) is None ==> (r matches Err(Error::Base32Error(m)) && m@
                == "Invalid base32"@),
            !in_z32_alphabet(s@) ==> r matches Err(Error::Base32Error(_)),
            z32_decode(s@) is Some && z32_decode(s@).unwrap().len() != 32 ==> (r matches Err(
                Error::Base32Error(m),
            ) && m@ == "Expected 32 bytes, got "@ + decimal(z32_decode(s@).unwrap().len())),
            z32_decode(s@) matches Some(b) && b.len() == 32 && !valid_key(b) ==> r matches Err(
                Error::InvalidPublicKey,
            ),
            r matches Err(e) ==> e.text() == rejection_text(s@),
    {
        let decoded = z32_decode_text(s);
        let bytes = match decoded {
            Some(b) => b,
            None => {
                return Err(Error::Base32Error(String::from_str("Invalid base32")));
            },
        };
        if bytes.len() != 32 {
            let mut message = String::from_str("Expected 32 bytes, got ");
            append_decimal(&mut message, bytes.len());
            return Err(Error::Base32Error(message));
        }
        let mut key_bytes: [u8; 32] = [0u8; 32];
        let mut i: usize = 0;
        while i < 32
            invariant
                0 <= i <= 32,
                bytes@.len() == 32,
                forall|j: int| 0 <= j < i ==> key_bytes@[j] == bytes@[j],
            decreases 32 - i,
        {
            key_bytes[i] = bytes[i];
            i = i + 1;
        }
        assert(key_bytes@ =~= bytes@);
        PublicKey::from_bytes(&key_bytes)
    }
}

/// An Ed25519 signing keypair: its 32 secret bytes, which never leave it,
/// and the public half derived from them.
pub struct Keypair {
    secret: [u8; 32],
    public: [u8; 32],
}

impl View for Keypair {
    type V = Seq<u8>;

    /// The secret bytes.
    closed spec fn view(&self) -> Seq<u8> {
        self.secret@
    }
}

impl Clone for Keypair {
    fn clone(&self) -> (r: Keypair)
        ensures
            r@ == self@,
    {
        proof {
            use_type_invariant(self);
        }
        Keypair { secret: self.secret, public: self.public }
    }
}

impl Keypair {
    #[verifier::type_invariant]
    spec fn inv(&self) -> bool {
        &&& self.public@ == public_of(self.secret@)
        &&& valid_key(self.public@)
    }

    /// A fresh keypair drawn from the operating system's secure random source.
    pub fn random() -> (r: Keypair)
        ensures
            valid_key(public_of(r@)),
    {
        let secret = generate_secret();
        let public = verifying_key_bytes(&secret);
        Keypair { secret, public }
    }

    /// The public half of the keypair.
    pub fn public_key(&self) -> (r: PublicKey)
        ensures
            r@ == public_of(self@),
            valid_key(r@),
    {
        proof {
            use_type_invariant(self);
        }
        PublicKey { bytes: self.public }
    }

    /// The signature of `message` under this keypair, which the public half
    /// accepts.
    pub fn sign(&self, message: &[u8]) -> (r: Signature)
        ensures
            r@ == signature_of(self@, message@),
            signature_accepted(public_of(self@), message@, r@),
    {
        Signature { bytes: ed25519_sign(&self.secret, message) }
    }
}

} // verus!
