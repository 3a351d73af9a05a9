use keystone_xdtl::{
    AccountId, AssetId, Digest, Epoch, EventKind, Journal, KeystoneError, LoanId, VaultId,
};

#[test]
fn journal_digest_changes_per_event() {
    let epoch = Epoch(1);
    let mut journal = Journal::new(7, epoch).unwrap();
    let before = journal.digest();
    journal
        .push(
            epoch,
            EventKind::PolicyUpdated {
                digest: Digest::from_parts("policy", &[b"a".as_slice()]),
            },
        )
        .unwrap();
    assert_ne!(before, journal.digest());
    assert_eq!(journal.len(), 2);
}

#[test]
fn ids_are_hex_encoded() {
    let account = AccountId::named("alice");
    assert_eq!(account.to_hex().len(), 64);
    assert_ne!(account, AccountId::named("bob"));
}

#[test]
fn digest_deserializes_from_hex() {
    let digest = Digest::from_parts("test", &[b"a".as_slice()]);
    let encoded = serde_json::to_string(&digest.to_hex()).unwrap();
    let text: String = serde_json::from_str(&encoded).unwrap();
    let decoded = Digest::from_hex(&text).unwrap();
    assert_eq!(digest, decoded);
}

#[test]
fn loan_ids_bind_participants_and_nonce() {
    let asset = AssetId::native();
    let lender = VaultId::named("lender", asset);
    let borrower = VaultId::named("borrower", asset);
    let first = LoanId::derive(lender, borrower, 1, 100, 5);
    let second = LoanId::derive(lender, borrower, 2, 100, 5);
    assert_ne!(first, second);
}

#[test]
fn zero_digest_is_all_zero_hex() {
    assert_eq!(Digest::zero().to_hex(), "0".repeat(64));
    assert_eq!(Digest::from_hex(&"0".repeat(64)).unwrap(), Digest::zero());
}

#[test]
fn hex_text_round_trips_in_either_case() {
    let digest = Digest::from_parts("case", &[b"x".as_slice(), b"y".as_slice()]);
    let lower = digest.to_hex();
    assert!(lower.chars().all(|c| c.is_ascii_digit() || ('a'..='f').contains(&c)));
    assert_eq!(Digest::from_hex(&lower.to_uppercase()).unwrap(), digest);
}

#[test]
fn malformed_hex_is_refused() {
    assert!(matches!(Digest::from_hex("abc"), Err(KeystoneError::Serialization(_))));
    assert!(matches!(Digest::from_hex("zz"), Err(KeystoneError::Serialization(_))));
    assert_eq!(
        Digest::from_hex("abcd"),
        Err(KeystoneError::Serialization("digest must have 32 bytes".to_string()))
    );
}

#[test]
fn hashing_depends_on_domain_and_parts() {
    let a = Digest::from_parts("one", &[b"a".as_slice()]);
    assert_eq!(a, Digest::from_parts("one", &[b"a".as_slice()]));
    assert_ne!(a, Digest::from_parts("two", &[b"a".as_slice()]));
    assert_ne!(a, Digest::from_parts("one", &[b"b".as_slice()]));
    assert_ne!(a, Digest::zero());
    assert_ne!(a.chain("next", &[]), a);
}

#[test]
fn vault_ids_depend_on_name_and_asset() {
    let native = AssetId::native();
    let other = AssetId::named("OTHER");
    assert_eq!(VaultId::named("v", native), VaultId::named("v", native));
    assert_ne!(VaultId::named("v", native), VaultId::named("v", other));
    assert_ne!(VaultId::named("v", native), VaultId::named("w", native));
}

#[test]
fn journal_replay_matches_and_filters() {
    let mut journal = Journal::new(3, Epoch(2)).unwrap();
    let asset = AssetId::native();
    let vault = VaultId::named("a", asset);
    journal
        .push(Epoch(2), EventKind::VaultRegistered { vault, role: "hybrid".to_string() })
        .unwrap();
    journal
        .push(Epoch(3), EventKind::EpochAdvanced { from: Epoch(2), to: Epoch(3) })
        .unwrap();
    assert_eq!(journal.len(), 3);
    assert_eq!(journal.replay_digest(3, Epoch(2)).unwrap(), journal.digest());
    assert_ne!(journal.replay_digest(4, Epoch(2)).unwrap(), journal.digest());
    assert_eq!(journal.by_vault(vault).len(), 1);
    assert_eq!(journal.last().unwrap().sequence, 2);
}

#[test]
fn digest_parses_from_text() {
    let digest = Digest::from_parts("parse", &[b"p".as_slice()]);
    let parsed: Digest = digest.to_hex().parse().unwrap();
    assert_eq!(parsed, digest);
    assert!("xyz".parse::<Digest>().is_err());
}
