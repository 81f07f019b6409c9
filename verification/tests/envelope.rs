use vox_media::endpoint::parse_endpoint;
use vox_media::endpoint::parse_port;
use vox_media::endpoint::split_host_port;
use vox_media::endpoint::strip_scheme;
use vox_media::endpoint::EndpointError;
use vox_media::endpoint::HostPort;
use vox_media::envelope::check_parts;
use vox_media::envelope::decrypt_if_needed;
use vox_media::envelope::encrypt_if_needed;
use vox_media::envelope::frame_envelope;
use vox_media::envelope::is_sealed;
use vox_media::envelope::seal_with_nonce;
use vox_media::envelope::split_envelope;
use vox_media::envelope::EnvelopeError;
use vox_media::mls::check_no_identity;
use vox_media::mls::find_member;
use vox_media::mls::identity_label;
use vox_media::mls::loaded_user_id;
use vox_media::mls::require_identity;
use vox_media::mls::stored_user_id;
use vox_media::mls::welcome_source;
use vox_media::mls::EnvelopeRead;
use vox_media::mls::Member;
use vox_media::mls::MlsError;
use vox_media::mls::ProcessedMessage;
use vox_media::mls::ProcessedResult;
use vox_media::mls::WelcomeSource;
use vox_media::trust::alpn_protocol;
use vox_media::trust::pinned_certificate_matches;
use vox_media::trust::trust_mode;
use vox_media::trust::TrustMode;

const KEY: [u8; 32] = [0u8; 32];
const NONCE: [u8; 12] = [0u8; 12];

#[test]
fn known_answer_for_an_empty_plaintext() {
    let stored = seal_with_nonce(&KEY, &NONCE, b"").unwrap();
    assert_eq!(stored, b"enc:v1:AAAAAAAAAAAAAAAA/Uw+K+8dFNrmpY7TxxMtziw==");
}

#[test]
fn known_answer_for_one_block() {
    let stored = seal_with_nonce(&KEY, &NONCE, &[0u8; 16]).unwrap();
    assert_eq!(
        stored,
        b"enc:v1:AAAAAAAAAAAAAAAA/zqdAPU1ga24HTsXTuvOdGNDRyKeZmWvwJluYtdSKuRk=".to_vec()
    );
    assert_eq!(decrypt_if_needed(Some(&KEY), &stored), Ok(vec![0u8; 16]));
}

#[test]
fn sealed_value_reads_back_with_the_same_key() {
    let key = [7u8; 32];
    let nonce = [1, 2, 3, 4, 5, 6, 7, 8, 9, 10, 11, 12];
    let plaintext = br#"{"private":[1,2,3],"public":[4,5,6]}"#;
    let stored = seal_with_nonce(&key, &nonce, plaintext).unwrap();
    assert!(is_sealed(&stored));
    assert_ne!(&stored[..], &plaintext[..]);
    assert_eq!(decrypt_if_needed(Some(&key), &stored), Ok(plaintext.to_vec()));
    assert_eq!(decrypt_if_needed(Some(&[8u8; 32]), &stored), Err(EnvelopeError::DecryptFailed));
    assert_eq!(decrypt_if_needed(None, &stored), Err(EnvelopeError::KeyMissing));
}

#[test]
fn plain_value_reads_back_with_or_without_a_key() {
    let value = br#"{"private":[1,2,3]}"#;
    assert_eq!(encrypt_if_needed(None, value), Ok(value.to_vec()));
    assert_eq!(decrypt_if_needed(None, value), Ok(value.to_vec()));
    assert_eq!(decrypt_if_needed(Some(&KEY), value), Ok(value.to_vec()));
    assert_eq!(decrypt_if_needed(Some(&KEY), b""), Ok(Vec::new()));
    assert_eq!(decrypt_if_needed(None, b"enc:v1"), Ok(b"enc:v1".to_vec()));
}

#[test]
fn writes_with_a_key_are_always_sealed_and_fresh() {
    let value = br#"{"private":[1,2,3]}"#;
    let a = encrypt_if_needed(Some(&KEY), value).unwrap();
    let b = encrypt_if_needed(Some(&KEY), value).unwrap();
    assert!(is_sealed(&a) && is_sealed(&b));
    assert_ne!(a, b);
    // nonce text, separator, ciphertext text of 19 + 16 bytes
    assert_eq!(a.len(), 7 + 16 + 1 + 48);
    assert!(a[7..].contains(&b'/'));
}

#[test]
fn a_slash_in_the_nonce_text_is_no_separator() {
    // The base64 text of this nonce is sixteen slashes; the separator is the
    // seventeenth.
    let stored = seal_with_nonce(&KEY, &[0xFF; 12], b"secret").unwrap();
    assert_eq!(&stored[7..24], b"/////////////////");
    assert_eq!(decrypt_if_needed(Some(&KEY), &stored), Ok(b"secret".to_vec()));
}

#[test]
fn every_write_with_a_key_reads_back() {
    let value = br#"{"private":[1,2,3],"public":[4,5,6]}"#;
    for _ in 0..200 {
        let stored = encrypt_if_needed(Some(&KEY), value).unwrap();
        assert_eq!(stored[23], b'/');
        assert_eq!(decrypt_if_needed(Some(&KEY), &stored), Ok(value.to_vec()));
    }
}

#[test]
fn malformed_envelopes_are_refused() {
    assert_eq!(decrypt_if_needed(Some(&KEY), b"enc:v1:abc"), Err(EnvelopeError::MissingSeparator));
    assert_eq!(decrypt_if_needed(Some(&KEY), b"enc:v1:"), Err(EnvelopeError::MissingSeparator));
    assert_eq!(
        decrypt_if_needed(Some(&KEY), b"enc:v1:!!!/AAAA"),
        Err(EnvelopeError::MissingSeparator)
    );
    assert_eq!(
        decrypt_if_needed(Some(&KEY), b"enc:v1:AAAAAAAAAAAAAAAAAAAA"),
        Err(EnvelopeError::MissingSeparator)
    );
    assert_eq!(
        decrypt_if_needed(Some(&KEY), b"enc:v1:!!!!!!!!!!!!!!!!/AAAA"),
        Err(EnvelopeError::BadNonce)
    );
    assert_eq!(
        decrypt_if_needed(Some(&KEY), b"enc:v1:AAAAAAAAAAAAAAAA/!!!"),
        Err(EnvelopeError::BadCiphertext)
    );
    assert_eq!(
        decrypt_if_needed(Some(&KEY), b"enc:v1:AAAA/AAAA"),
        Err(EnvelopeError::MissingSeparator)
    );
    assert_eq!(
        decrypt_if_needed(Some(&KEY), b"enc:v1:AAAAAAAAAAAAAA==/AAAA"),
        Err(EnvelopeError::NonceLength)
    );
    assert_eq!(
        decrypt_if_needed(Some(&KEY), b"enc:v1:AAAAAAAAAAAAAAAA/AAAA"),
        Err(EnvelopeError::DecryptFailed)
    );
    assert_eq!(decrypt_if_needed(None, b"enc:v1:"), Err(EnvelopeError::KeyMissing));
}

#[test]
fn envelope_framing() {
    assert_eq!(frame_envelope(b"nonce", b"text"), b"enc:v1:nonce/text");
    assert_eq!(
        split_envelope(b"enc:v1:0123456789abcdef/text/more"),
        Some((b"0123456789abcdef".to_vec(), b"text/more".to_vec()))
    );
    assert_eq!(
        split_envelope(b"enc:v1:0123/56789abcdef/"),
        Some((b"0123/56789abcdef".to_vec(), Vec::new()))
    );
    assert_eq!(split_envelope(b"enc:v1:nonce/text/more"), None);
    assert_eq!(split_envelope(b"enc:v1:/"), None);
    assert_eq!(split_envelope(b"enc:v1:0123456789abcdef"), None);
    assert_eq!(split_envelope(b"enc:v1:0123456789abcdefg/"), None);
    assert!(is_sealed(b"enc:v1:"));
    assert!(!is_sealed(b"enc:v2:x/y"));
    assert!(!is_sealed(b"enc:v1"));
    assert!(!is_sealed(b" enc:v1:"));
}

#[test]
fn errors_have_their_messages() {
    assert_eq!(EnvelopeError::EncryptFailed.message(), "Failed to encrypt key material");
    assert_eq!(
        EnvelopeError::KeyMissing.message(),
        "Encrypted key material found but no encryption key configured"
    );
    assert_eq!(
        EnvelopeError::MissingSeparator.message(),
        "Malformed encrypted value: missing separator"
    );
    assert_eq!(EnvelopeError::BadNonce.message(), "Failed to decode nonce");
    assert_eq!(EnvelopeError::BadCiphertext.message(), "Failed to decode ciphertext");
    assert_eq!(
        EnvelopeError::NonceLength.message(),
        "Malformed encrypted value: nonce is not twelve bytes"
    );
    assert_eq!(EnvelopeError::DecryptFailed.message(), "Failed to decrypt key material");
    assert_eq!(EndpointError::MissingPort.message(), "missing port in URL");
    assert_eq!(EndpointError::InvalidPort.message(), "invalid port in URL");
}

#[test]
fn decoded_parts_are_judged() {
    assert_eq!(check_parts(None, Some(vec![1])), Err(EnvelopeError::BadNonce));
    assert_eq!(check_parts(None, None), Err(EnvelopeError::BadNonce));
    assert_eq!(check_parts(Some(vec![0; 12]), None), Err(EnvelopeError::BadCiphertext));
    assert_eq!(check_parts(Some(vec![0; 11]), Some(vec![1])), Err(EnvelopeError::NonceLength));
    assert_eq!(check_parts(Some(vec![0; 13]), Some(vec![1])), Err(EnvelopeError::NonceLength));
    assert_eq!(check_parts(Some(vec![0; 12]), Some(vec![1])), Ok((vec![0; 12], vec![1])));
}

#[test]
fn identity_labels_and_user_ids() {
    assert_eq!(identity_label(42, b"phone"), b"42:phone");
    assert_eq!(identity_label(0, b""), b"0:");
    assert_eq!(identity_label(u64::MAX, b"a:b"), b"18446744073709551615:a:b");
    assert_eq!(stored_user_id(0), Ok(0));
    assert_eq!(stored_user_id(i64::MAX as u64), Ok(i64::MAX));
    assert_eq!(stored_user_id(i64::MAX as u64 + 1), Err(MlsError::UserIdTooLarge));
    assert_eq!(loaded_user_id(5), Some(5));
    assert_eq!(loaded_user_id(-1), None);
}

#[test]
fn identity_rules() {
    assert_eq!(check_no_identity::<u8>(&None), Ok(()));
    assert_eq!(check_no_identity(&Some(1u8)), Err(MlsError::IdentityAlreadyInitialized));
    assert_eq!(require_identity(&Some("c"), &Some(5u8)), Ok((&"c", &5u8)));
    assert_eq!(require_identity::<&str, u8>(&None, &Some(5)), Err(MlsError::IdentityNotInitialized));
    assert_eq!(require_identity::<&str, u8>(&Some("c"), &None), Err(MlsError::IdentityNotInitialized));
    assert_eq!(MlsError::IdentityNotInitialized.message(), "Identity not initialized");
    assert_eq!(MlsError::NotApplicationMessage.message(), "Message is not an application message");
    assert_eq!(MlsError::BackupWithoutIdentity.message(), "Backup does not contain identity data");
}

#[test]
fn members_are_found_by_identity() {
    let members = vec![
        Member { index: 0, identity: b"1:a".to_vec() },
        Member { index: 3, identity: b"2:b".to_vec() },
        Member { index: 4, identity: b"2:b".to_vec() },
    ];
    assert_eq!(find_member(&members, b"2:b"), Ok(3));
    assert_eq!(find_member(&members, b"1:a"), Ok(0));
    assert_eq!(find_member(&members, b"2:"), Err(MlsError::MemberNotFound));
    assert_eq!(find_member(&[], b"1:a"), Err(MlsError::MemberNotFound));
}

#[test]
fn processed_messages() {
    assert_eq!(
        ProcessedResult::Application(b"hello".to_vec()).into_message(),
        ProcessedMessage { kind: "application".to_string(), data: Some(b"hello".to_vec()) }
    );
    assert_eq!(
        ProcessedResult::Commit.into_message(),
        ProcessedMessage { kind: "commit".to_string(), data: None }
    );
    assert_eq!(ProcessedResult::Proposal.into_message().kind, "proposal");
    assert_eq!(
        ProcessedResult::ExternalJoinProposal.into_message().kind,
        "external_join_proposal"
    );
    assert_eq!(ProcessedResult::Application(b"hello".to_vec()).into_plaintext(), Ok(b"hello".to_vec()));
    assert_eq!(ProcessedResult::Commit.into_plaintext(), Err(MlsError::NotApplicationMessage));
    assert_eq!(ProcessedResult::Proposal.into_plaintext(), Err(MlsError::NotApplicationMessage));
    assert_eq!(welcome_source(EnvelopeRead::Welcome), Ok(WelcomeSource::Envelope));
    assert_eq!(welcome_source(EnvelopeRead::NotAnEnvelope), Ok(WelcomeSource::Bare));
    assert_eq!(welcome_source(EnvelopeRead::OtherMessage), Err(MlsError::NotAWelcome));
}

fn host_port(host: &str, port: u16) -> Result<HostPort, EndpointError> {
    Ok(HostPort { host: host.as_bytes().to_vec(), port })
}

#[test]
fn endpoints() {
    assert_eq!(parse_endpoint(b"quic://sfu.example.com:4433"), host_port("sfu.example.com", 4433));
    assert_eq!(parse_endpoint(b"sfu.example.com:4433"), host_port("sfu.example.com", 4433));
    assert_eq!(parse_endpoint(b"quic://a:b:80"), host_port("a:b", 80));
    assert_eq!(parse_endpoint(b"quic://[::1]:443"), host_port("[::1]", 443));
    assert_eq!(parse_endpoint(b"host:+80"), host_port("host", 80));
    assert_eq!(parse_endpoint(b"host:00080"), host_port("host", 80));
    assert_eq!(parse_endpoint(b":0"), host_port("", 0));
    assert_eq!(parse_endpoint(b"host:65535"), host_port("host", 65535));
    assert_eq!(parse_endpoint(b"host:65536"), Err(EndpointError::InvalidPort));
    assert_eq!(parse_endpoint(b"host:99999999999999999999"), Err(EndpointError::InvalidPort));
    assert_eq!(parse_endpoint(b"host:"), Err(EndpointError::InvalidPort));
    assert_eq!(parse_endpoint(b"host:+"), Err(EndpointError::InvalidPort));
    assert_eq!(parse_endpoint(b"host:-1"), Err(EndpointError::InvalidPort));
    assert_eq!(parse_endpoint(b"host:8o"), Err(EndpointError::InvalidPort));
    assert_eq!(parse_endpoint(b"host"), Err(EndpointError::MissingPort));
    assert_eq!(parse_endpoint(b"quic://host"), Err(EndpointError::MissingPort));
    assert_eq!(parse_endpoint(b""), Err(EndpointError::MissingPort));
    assert_eq!(strip_scheme(b"quic://x"), b"x");
    assert_eq!(strip_scheme(b"QUIC://x"), b"QUIC://x");
    assert_eq!(strip_scheme(b"quic:/"), b"quic:/");
    assert_eq!(split_host_port(b"quic://h:1"), host_port("quic://h", 1));
    assert_eq!(parse_port(b"443"), Some(443));
    assert_eq!(parse_port(b""), None);
}

#[test]
fn trust() {
    assert_eq!(alpn_protocol(), b"vox-media/1");
    assert_eq!(trust_mode(None), TrustMode::PublicRoots);
    assert_eq!(trust_mode(Some(vec![1, 2])), TrustMode::Pinned(vec![1, 2]));
    assert!(pinned_certificate_matches(&[1, 2, 3], &[1, 2, 3]));
    assert!(!pinned_certificate_matches(&[1, 2, 3], &[1, 2, 4]));
    assert!(!pinned_certificate_matches(&[1, 2, 3], &[1, 2]));
    assert!(!pinned_certificate_matches(&[], &[0]));
    assert!(pinned_certificate_matches(&[], &[]));
}
