use pos_accounting::net::types::{PubSubTopic, SemVer};
use pos_accounting::runner::{check_chain_type, ChainType, NodeError};
use pos_accounting::sqlite::{
    copy_of, rows_with_prefix, starts_with, statement_cache_capacity, PrefixIter, Sqlite,
};
use pos_accounting::text::{is_ascii_alphanumeric, text_with_non_ascii};
use std::path::PathBuf;

#[test]
fn only_the_main_network_is_supported() {
    assert_eq!(check_chain_type(ChainType::Mainnet), Ok(()));
    assert_eq!(
        check_chain_type(ChainType::Testnet),
        Err(NodeError::UnsupportedChain(ChainType::Testnet))
    );
    assert_eq!(
        check_chain_type(ChainType::Regtest),
        Err(NodeError::UnsupportedChain(ChainType::Regtest))
    );
    assert_eq!(
        check_chain_type(ChainType::Signet),
        Err(NodeError::UnsupportedChain(ChainType::Signet))
    );
}

#[test]
fn sqlite_keeps_its_path() {
    let backend = Sqlite::new(PathBuf::from("/var/lib/node/db.sqlite"));
    assert_eq!(backend.path(), &PathBuf::from("/var/lib/node/db.sqlite"));
    assert_eq!(backend.clone(), backend);
    assert_eq!(backend.into_path(), PathBuf::from("/var/lib/node/db.sqlite"));
    assert_ne!(Sqlite::new(PathBuf::from("a")), Sqlite::new(PathBuf::from("b")));
}

#[test]
fn key_prefixes() {
    assert!(starts_with(b"abc", b""));
    assert!(starts_with(b"abc", b"a"));
    assert!(starts_with(b"abc", b"abc"));
    assert!(!starts_with(b"abc", b"abcd"));
    assert!(!starts_with(b"abc", b"b"));
    assert!(!starts_with(b"abc", b"abd"));
    assert!(starts_with(b"", b""));
    assert!(!starts_with(b"", b"a"));
    assert_eq!(copy_of(&vec![1u8, 2, 3]), vec![1u8, 2, 3]);
}

#[test]
fn rows_are_filtered_by_prefix_in_order() {
    let rows = vec![
        (b"ab1".to_vec(), b"one".to_vec()),
        (b"b".to_vec(), b"two".to_vec()),
        (b"ab".to_vec(), b"three".to_vec()),
        (b"a".to_vec(), b"four".to_vec()),
        (b"abz".to_vec(), b"five".to_vec()),
    ];
    assert_eq!(
        rows_with_prefix(&rows, b"ab"),
        vec![
            (b"ab1".to_vec(), b"one".to_vec()),
            (b"ab".to_vec(), b"three".to_vec()),
            (b"abz".to_vec(), b"five".to_vec()),
        ]
    );
    assert_eq!(rows_with_prefix(&rows, b""), rows);
    assert_eq!(rows_with_prefix(&rows, b"c"), vec![]);
    assert_eq!(rows_with_prefix(&vec![], b"a"), vec![]);
}

#[test]
fn prefix_iter_stops_at_a_key_without_the_prefix() {
    let mut iter = PrefixIter::new(
        vec![
            (b"ab1".to_vec(), b"one".to_vec()),
            (b"ab2".to_vec(), b"two".to_vec()),
            (b"b".to_vec(), b"three".to_vec()),
            (b"ab3".to_vec(), b"four".to_vec()),
        ],
        b"ab".to_vec(),
    );
    assert_eq!(iter.next(), Some((b"ab1".to_vec(), b"one".to_vec())));
    assert_eq!(iter.next(), Some((b"ab2".to_vec(), b"two".to_vec())));
    assert_eq!(iter.next(), None);
    assert_eq!(iter.next(), Some((b"ab3".to_vec(), b"four".to_vec())));
    assert_eq!(iter.next(), None);
    assert_eq!(iter.next(), None);
}

#[test]
fn statement_cache_has_room_for_every_table() {
    assert_eq!(statement_cache_capacity(0), 16);
    assert_eq!(statement_cache_capacity(3), 16);
    assert_eq!(statement_cache_capacity(4), 16);
    assert_eq!(statement_cache_capacity(5), 20);
    assert_eq!(statement_cache_capacity(100), 400);
}

#[test]
fn letters_and_digits() {
    for c in 0u8..=255 {
        assert_eq!(is_ascii_alphanumeric(c), c.is_ascii_alphanumeric());
    }
}

#[test]
fn text_with_one_other_byte() {
    let letters = b"abcdefghij".to_vec();
    // length 1 + 7 % 5 = 3, index 8 % 3 = 2
    assert_eq!(text_with_non_ascii(b'-', 7, 8, &letters, 5), b"ab-".to_vec());
    // length 1 + 9 % 10 = 10, index 20 % 10 = 0
    assert_eq!(text_with_non_ascii(b'!', 9, 20, &letters, 10), b"!bcdefghij".to_vec());
    // length 1, index 0
    assert_eq!(text_with_non_ascii(b' ', 0, 5, &letters, 1), b" ".to_vec());
}

#[test]
fn topics_and_versions_compare() {
    assert!(PubSubTopic::Transactions < PubSubTopic::Blocks);
    assert_eq!(PubSubTopic::Blocks, PubSubTopic::Blocks);
    let v = SemVer { major: 0, minor: 1, patch: 2 };
    assert_eq!(v, SemVer { major: 0, minor: 1, patch: 2 });
}
