use ycloud_console_cli::pkce::{challenge_for_verifier, generate_pkce_pair};

#[test]
fn generated_pkce_pair_uses_s256_challenge() {
    let pair = generate_pkce_pair().unwrap();
    let expected = challenge_for_verifier(&pair.code_verifier);

    assert_eq!(pair, expected);
    assert_ne!(pair.code_verifier, pair.code_challenge);
    assert!(pair.code_verifier.len() >= 43);
}

#[test]
fn challenge_is_unpadded_base64url_of_sha256() {
    assert_eq!(
        challenge_for_verifier("").code_challenge,
        "47DEQpj8HBSa-_TImW-5JCeuQeRkm5NMpJWZG3hSuFU"
    );
    let pair = challenge_for_verifier("dBjftJeZ4CVP-mB92K27uhbUJU1p1r7wW1gFWFOEjXk");
    assert_eq!(
        pair.code_challenge,
        "bwWFMyPfdG9qreDhH2lmftFx_dFeLDalzcT1gb_j68g"
    );
    assert_eq!(
        pair.code_verifier,
        "dBjftJeZ4CVP-mB92K27uhbUJU1p1r7wW1gFWFOEjXk"
    );
}

#[test]
fn generated_verifiers_are_fresh_and_url_safe() {
    let a = generate_pkce_pair().unwrap();
    let b = generate_pkce_pair().unwrap();
    assert_ne!(a.code_verifier, b.code_verifier);
    assert_eq!(a.code_verifier.len(), 43);
    assert!(a
        .code_verifier
        .chars()
        .all(|c| c.is_ascii_alphanumeric() || c == '-' || c == '_'));
}
