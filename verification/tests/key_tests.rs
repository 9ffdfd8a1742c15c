use rwg::{InvalidKey, Key};

#[test]
fn key_zero_is_all_zero_bytes() {
    let k = Key::zero();
    assert_eq!(k.as_bytes(), &[0u8; 32][..]);
}

#[test]
fn key_from_bytes_keeps_bytes() {
    let mut bytes = [0u8; 32];
    for i in 0..32 {
        bytes[i] = i as u8;
    }
    let k = Key::from_bytes(bytes);
    assert_eq!(k.as_bytes(), &bytes[..]);
}

#[test]
fn key_from_slice_accepts_exactly_32_bytes() {
    let bytes = [7u8; 32];
    let k = Key::from_slice(&bytes[..]).unwrap();
    assert_eq!(k.as_bytes(), &bytes[..]);
}

#[test]
fn key_from_slice_rejects_other_lengths() {
    assert!(matches!(
        Key::from_slice(&[1u8; 31][..]),
        Err(InvalidKey::InvalidLength)
    ));
    assert!(matches!(
        Key::from_slice(&[1u8; 33][..]),
        Err(InvalidKey::InvalidLength)
    ));
    assert!(matches!(
        Key::from_slice(&[][..]),
        Err(InvalidKey::InvalidLength)
    ));
}

#[test]
fn key_to_base64_known_values() {
    assert_eq!(
        Key::zero().to_base64(),
        "AAAAAAAAAAAAAAAAAAAAAAAAAAAAAAAAAAAAAAAAAAA="
    );
    let mut bytes = [0u8; 32];
    for i in 0..32 {
        bytes[i] = i as u8;
    }
    assert_eq!(
        Key::from_bytes(bytes).to_base64(),
        "AAECAwQFBgcICQoLDA0ODxAREhMUFRYXGBkaGxwdHh8="
    );
}

#[test]
fn key_from_base64_known_value() {
    let k = Key::from_base64("AAAAAAAAAAAAAAAAAAAAAAAAAAAAAAAAAAAAAAAAAAE=").unwrap();
    let mut expected = [0u8; 32];
    expected[31] = 1;
    assert_eq!(k.as_bytes(), &expected[..]);
}

#[test]
fn key_base64_round_trip() {
    let mut bytes = [0u8; 32];
    for i in 0..32 {
        bytes[i] = (255 - i) as u8;
    }
    let k = Key::from_bytes(bytes);
    let text = k.to_base64();
    let back = Key::from_base64(&text).unwrap();
    assert_eq!(back, k);
}

#[test]
fn key_from_base64_rejects_wrong_length() {
    // Valid Base64, but it decodes to four bytes.
    assert!(matches!(
        Key::from_base64("AAAAAA=="),
        Err(InvalidKey::InvalidLength)
    ));
}

#[test]
fn key_from_base64_rejects_malformed_text() {
    assert!(matches!(
        Key::from_base64("this is not base64!!!"),
        Err(InvalidKey::InvalidBase64)
    ));
}

#[test]
fn key_derive_public_is_deterministic() {
    let k = Key::generate_private();
    assert_eq!(k.derive_public(), k.derive_public());
}

#[test]
fn key_derive_public_known_value() {
    // The well-known paired value of the all-zero private key.
    let pk = Key::zero().derive_public();
    assert_eq!(pk.to_base64(), "L+V9o0fNYkMVKNqsX7spBzD/9oSvxM/C7ZCZX1jLO3Q=");
}

#[test]
fn key_generate_private_gives_fresh_keys() {
    let a = Key::generate_private();
    let b = Key::generate_private();
    assert_eq!(a.as_bytes().len(), 32);
    assert_ne!(a, b);
}
