use yah::error::{ErrorKind, ProviderErrorKind};
use yah::ids::{valid_wire_identifier, Digest, Uuid7};

#[test]
fn digest_wire_form_round_trips() {
    let d = Digest::of_bytes(b"abc");
    let s = d.as_str().to_owned();
    assert!(s.starts_with("blake3:"));
    assert_eq!(Digest::try_from(s).unwrap(), d);
}

#[test]
fn digest_rejects_uppercase_and_wrong_length() {
    assert!(Digest::try_from(format!("blake3:{}", "A".repeat(64))).is_err());
    assert!(Digest::try_from("blake3:abc".to_owned()).is_err());
    assert!(Digest::try_from("sha256:".to_owned() + &"a".repeat(64)).is_err());
}

#[test]
fn digest_refusals_say_why() {
    assert_eq!(
        Digest::try_from("blake3:ab\"c".to_owned()).unwrap_err(),
        "digest is not 64 lowercase hex bytes: \"blake3:ab\\\"c\""
    );
    assert_eq!(
        Digest::try_from("sha256:ab".to_owned()).unwrap_err(),
        "digest missing blake3: prefix: \"sha256:ab\""
    );
}

#[test]
fn digest_is_the_blake3_hash_of_the_bytes() {
    assert_eq!(
        Digest::of_bytes(b"abc").as_str(),
        format!("blake3:{}", blake3::hash(b"abc").to_hex())
    );
    assert_eq!(
        Digest::of_bytes(b"").into_string(),
        "blake3:af1349b9f5f9a1a6a0404dea36dcc9499bcb25c9adc112b7cc9a93cae41f3262"
    );
    assert!(!Digest::of_bytes(b"a").same_as(&Digest::of_bytes(b"b")));
}

#[test]
fn uuid7_is_deterministic_and_ordered_by_time() {
    let a = Uuid7::mint(1, 42);
    let b = Uuid7::mint(1, 42);
    let c = Uuid7::mint(2, 0);
    assert_eq!(a, b);
    assert!(c > a);
    // Version and variant nibbles land where RFC 9562 puts them.
    let s = a.to_string();
    assert_eq!(&s[14..15], "7");
    assert!(matches!(&s[19..20], "8" | "9" | "a" | "b"));
    assert_eq!(Uuid7::try_from(s.clone()).unwrap(), a);
}

#[test]
fn uuid7_has_one_text() {
    assert_eq!(
        Uuid7::mint(1_700_000_000_123, 0x1234).to_string(),
        "018bcfe5-687b-7000-8000-000000001234"
    );
    assert!(Uuid7::try_from("not-a-uuid".to_owned()).is_err());
    let a = Uuid7::mint(5, 1);
    assert!(a.before(&Uuid7::mint(6, 0)));
    assert!(!a.before(&a));
    assert!(a.same_as(&Uuid7::mint(5, 1)));
}

/// Two lifetimes minting at the same logical millisecond and sequence
/// produce distinct ids because the authority epoch rides the entropy.
#[test]
fn minted_ids_differ_across_authority_epochs() {
    let a = Uuid7::mint(1_000, (1u128 << 64) | 1);
    let b = Uuid7::mint(1_000, (2u128 << 64) | 1);
    assert_ne!(a, b);
}

#[test]
fn wire_names_are_snake_case() {
    assert_eq!(
        format!("\"{}\"", ErrorKind::FenceRejected.wire()),
        "\"fence_rejected\""
    );
    assert_eq!(
        format!("\"{}\"", ProviderErrorKind::ContextLengthExceeded.wire()),
        "\"context_length_exceeded\""
    );
}

#[test]
fn unknown_member_is_a_decode_failure() {
    assert!(ErrorKind::from_wire("weird_new_kind").is_none());
}

#[test]
fn every_kind_reads_back() {
    for kind in [
        ErrorKind::InvalidRequest,
        ErrorKind::VersionConflict,
        ErrorKind::OutcomeUnknown,
        ErrorKind::Internal,
    ] {
        assert_eq!(ErrorKind::from_wire(kind.wire()), Some(kind));
    }
    assert!(ErrorKind::OutcomeUnknown.reconcile_required());
    assert!(!ErrorKind::OutcomeUnknown.retryable());
    assert!(ErrorKind::VersionConflict.retryable());
    assert!(ProviderErrorKind::RateLimit.transient());
}

#[test]
fn wire_identifiers_are_bounded() {
    assert!(valid_wire_identifier("run-1_a.b:C"));
    assert!(valid_wire_identifier(&"x".repeat(64)));
    assert!(!valid_wire_identifier(&"x".repeat(65)));
    assert!(!valid_wire_identifier(""));
    assert!(!valid_wire_identifier("a b"));
}
