use pubky::identity::{Error, Keypair, PublicKey, Signature};

fn hex(text: &str) -> Vec<u8> {
    (0..text.len() / 2)
        .map(|i| u8::from_str_radix(&text[2 * i..2 * i + 2], 16).unwrap())
        .collect()
}

const RFC_PUBLIC: &str = "d75a980182b10ab7d54bfed3c964073a0ee172f3daa62325af021a68f707511a";
const RFC_SIGNATURE: &str = "e5564300c360ac729086e2cc806e828a84877f1eb8e5d974d873e065224901555fb8821590a33bacc61e39701cf9b46bd25bf5f0595bbe24655141438e7a100b";

fn rfc_key() -> PublicKey {
    let bytes: [u8; 32] = hex(RFC_PUBLIC).try_into().unwrap();
    PublicKey::from_bytes(&bytes).unwrap()
}

fn rfc_signature() -> Signature {
    let bytes: [u8; 64] = hex(RFC_SIGNATURE).try_into().unwrap();
    Signature::from_bytes(&bytes)
}

#[test]
fn test_keypair_generation() {
    let keypair = Keypair::random();
    let public_key = keypair.public_key();

    let message = b"Hello, Pubky!";
    let signature = keypair.sign(message);
    assert!(public_key.verify(message, &signature).is_ok());

    let wrong_message = b"Wrong message";
    assert!(public_key.verify(wrong_message, &signature).is_err());
}

#[test]
fn test_public_key_encoding() {
    let keypair = Keypair::random();
    let public_key = keypair.public_key();

    let encoded = public_key.to_z32();
    let decoded = PublicKey::from_z32(&encoded).unwrap();

    assert_eq!(public_key, decoded);
}

#[test]
fn test_public_key_bytes() {
    let keypair = Keypair::random();
    let public_key = keypair.public_key();

    let bytes = public_key.to_bytes();
    let restored = PublicKey::from_bytes(&bytes).unwrap();

    assert_eq!(public_key, restored);
}

#[test]
fn known_signature_verifies() {
    let key = rfc_key();
    assert!(key.verify(b"", &rfc_signature()).is_ok());
}

#[test]
fn known_signature_fails_on_other_message() {
    let key = rfc_key();
    let result = key.verify(b"x", &rfc_signature());
    assert!(matches!(result, Err(Error::InvalidSignature)));
}

#[test]
fn signature_of_other_key_fails() {
    let first = Keypair::random();
    let second = Keypair::random();
    let message = b"same message";
    let signature = second.sign(message);
    assert!(matches!(first.public_key().verify(message, &signature), Err(Error::InvalidSignature)));
    assert!(second.public_key().verify(message, &signature).is_ok());
}

#[test]
fn signature_bytes_round_trip() {
    let signature = Keypair::random().sign(b"abc");
    let copy = Signature::from_bytes(&signature.to_bytes());
    assert_eq!(copy.to_bytes().to_vec(), signature.to_bytes().to_vec());
}

#[test]
fn encoding_of_known_key() {
    let mut bytes = [0u8; 32];
    bytes[0] = 1;
    let key = PublicKey::from_bytes(&bytes).unwrap();
    let expected = format!("yr{}", "y".repeat(50));
    assert_eq!(key.to_z32(), expected);
    assert_eq!(PublicKey::from_z32(&expected).unwrap().to_bytes(), bytes);
}

#[test]
fn encoding_has_fifty_two_digits() {
    let text = Keypair::random().public_key().to_z32();
    assert_eq!(text.len(), 52);
    assert!(text.chars().all(|c| "ybndrfg8ejkmcpqxot1uwisza345h769".contains(c)));
}

#[test]
fn round_trip_of_many_keys() {
    for _ in 0..20 {
        let key = Keypair::random().public_key();
        let back = PublicKey::from_z32(&key.to_z32()).unwrap();
        assert_eq!(back, key);
        assert_eq!(PublicKey::from_bytes(&key.to_bytes()).unwrap(), key);
    }
}

#[test]
fn decode_rejects_short_text() {
    let text = Keypair::random().public_key().to_z32();
    let result = PublicKey::from_z32(&text[..40]);
    match result {
        Err(Error::Base32Error(message)) => assert_eq!(message, "Expected 32 bytes, got 25"),
        _ => panic!("short text accepted"),
    }
}

#[test]
fn decode_rejects_long_text() {
    let text = format!("{}yyyyyyyy", Keypair::random().public_key().to_z32());
    assert!(matches!(PublicKey::from_z32(&text), Err(Error::Base32Error(_))));
}

#[test]
fn decode_rejects_empty_text() {
    assert!(matches!(PublicKey::from_z32(""), Err(Error::Base32Error(_))));
}

#[test]
fn decode_rejects_characters_outside_alphabet() {
    let text = Keypair::random().public_key().to_z32();
    let bad = format!("l{}", &text[1..]);
    match PublicKey::from_z32(&bad) {
        Err(Error::Base32Error(message)) => assert_eq!(message, "Invalid base32"),
        _ => panic!("bad digit accepted"),
    }
    let upper = text.to_uppercase();
    assert!(matches!(PublicKey::from_z32(&upper), Err(Error::Base32Error(_))));
    let padded = format!("{}=", text);
    assert!(matches!(PublicKey::from_z32(&padded), Err(Error::Base32Error(_))));
}

#[test]
fn invalid_key_bytes_are_rejected() {
    let mut rejected = 0;
    for first in 0..=255u8 {
        let mut bytes = [0u8; 32];
        bytes[0] = first;
        bytes[31] = 0x7f;
        match PublicKey::from_bytes(&bytes) {
            Err(error) => {
                assert!(matches!(error, Error::InvalidPublicKey));
                rejected += 1;
            }
            Ok(key) => assert_eq!(key.to_bytes(), bytes),
        }
    }
    assert!(rejected > 0);
}

#[test]
fn decode_rejects_invalid_key_bytes() {
    for first in 0..=255u8 {
        let mut bytes = [0u8; 32];
        bytes[0] = first;
        bytes[31] = 0x7f;
        if PublicKey::from_bytes(&bytes).is_err() {
            let text = base32::encode(base32::Alphabet::Z, &bytes);
            assert!(matches!(PublicKey::from_z32(&text), Err(Error::InvalidPublicKey)));
            return;
        }
    }
    panic!("no invalid key found");
}

#[test]
fn error_messages() {
    assert_eq!(Error::InvalidPublicKey.message(), "Invalid public key format");
    assert_eq!(Error::InvalidSignature.message(), "Invalid signature");
    assert_eq!(
        Error::Base32Error("Invalid base32".to_string()).message(),
        "Base32 decode error: Invalid base32"
    );
}

#[test]
fn keys_compare_by_bytes() {
    let a = Keypair::random().public_key();
    let b = Keypair::random().public_key();
    assert_ne!(a, b);
    assert_eq!(a, a.clone());
}

#[test]
fn decode_reports_decoded_length() {
    let cases = [(0usize, "0"), (51, "31"), (53, "33"), (8, "5"), (160, "100")];
    for (digits, got) in cases {
        match PublicKey::from_z32(&"y".repeat(digits)) {
            Err(Error::Base32Error(message)) => {
                assert_eq!(message, format!("Expected 32 bytes, got {}", got))
            }
            _ => panic!("text of {} digits accepted", digits),
        }
    }
}

#[test]
fn signing_is_deterministic() {
    let keypair = Keypair::random();
    let first = keypair.sign(b"message");
    let second = keypair.sign(b"message");
    assert_eq!(first.to_bytes().to_vec(), second.to_bytes().to_vec());
    let other = keypair.sign(b"other");
    assert_ne!(first.to_bytes().to_vec(), other.to_bytes().to_vec());
}

#[test]
fn empty_message_signs_and_verifies() {
    let keypair = Keypair::random();
    let signature = keypair.sign(b"");
    assert!(keypair.public_key().verify(b"", &signature).is_ok());
}

#[test]
fn public_half_is_stable_and_cloned() {
    let keypair = Keypair::random();
    let copy = keypair.clone();
    assert_eq!(keypair.public_key(), keypair.public_key());
    assert_eq!(copy.public_key(), keypair.public_key());
    assert_eq!(
        copy.sign(b"m").to_bytes().to_vec(),
        keypair.sign(b"m").to_bytes().to_vec()
    );
}

#[test]
fn keys_order_by_bytes() {
    let a = Keypair::random().public_key();
    let b = Keypair::random().public_key();
    assert_eq!(a < b, a.to_bytes() < b.to_bytes());
    assert_eq!(a.cmp(&b), a.to_bytes().cmp(&b.to_bytes()));
}
