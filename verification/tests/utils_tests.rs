use space_owners::utils::{
    has_only_valid_handle_chars, is_valid_handle_char, log_2, to_lowercase, vec_remove_on, Content,
    Error, Module, User, WhoAndWhen,
};

fn cid_v0() -> Vec<u8> {
    let mut bytes = vec![0x12, 0x20];
    bytes.extend_from_slice(&[7u8; 32]);
    bytes
}

fn cid_v1() -> Vec<u8> {
    let mut bytes = vec![0x01, 0x55, 0x12, 0x20];
    bytes.extend_from_slice(&[9u8; 32]);
    bytes
}

#[test]
fn who_and_when_keeps_its_parts() {
    let w = WhoAndWhen::new(5, 10, 60_000);
    assert_eq!(w.account, 5);
    assert_eq!(w.block, 10);
    assert_eq!(w.time, 60_000);
}

#[test]
fn log_2_rounds_down() {
    assert_eq!(log_2(0), None);
    assert_eq!(log_2(1), Some(0));
    assert_eq!(log_2(2), Some(1));
    assert_eq!(log_2(3), Some(1));
    assert_eq!(log_2(4), Some(2));
    assert_eq!(log_2(1023), Some(9));
    assert_eq!(log_2(1024), Some(10));
    assert_eq!(log_2(0x7fff_ffff), Some(30));
    assert_eq!(log_2(0x8000_0000), Some(31));
    assert_eq!(log_2(u32::MAX), Some(31));
}

#[test]
fn vec_remove_on_takes_the_first_match_out() {
    let mut v = vec![1, 2, 3, 2, 5];
    vec_remove_on(&mut v, 2);
    assert_eq!(v, vec![1, 5, 3, 2]);
    vec_remove_on(&mut v, 2);
    assert_eq!(v, vec![1, 5, 3]);
    vec_remove_on(&mut v, 2);
    assert_eq!(v, vec![1, 5, 3]);
    vec_remove_on(&mut v, 3);
    assert_eq!(v, vec![1, 5]);
    let mut empty: Vec<u8> = vec![];
    vec_remove_on(&mut empty, 1);
    assert!(empty.is_empty());
    let mut one = vec![String::from("a")];
    vec_remove_on(&mut one, String::from("a"));
    assert!(one.is_empty());
}

#[test]
fn content_kinds() {
    assert_eq!(Module::is_valid_content(Content::Nothing), Ok(()));
    assert_eq!(
        Module::is_valid_content(Content::Raw(vec![1, 2, 3])),
        Err(Error::RawContentTypeNotSupported)
    );
    assert_eq!(
        Module::is_valid_content(Content::Hyper(cid_v0())),
        Err(Error::HypercoreContentTypeNotSupported)
    );
    assert_eq!(Module::is_valid_content(Content::IPFS(cid_v0())), Ok(()));
    assert_eq!(Module::is_valid_content(Content::IPFS(cid_v1())), Ok(()));
    assert_eq!(Module::is_valid_content(Content::IPFS(vec![])), Err(Error::InvalidIpfsCid));
    assert_eq!(
        Module::is_valid_content(Content::IPFS(vec![0x05, 0x55, 0x12, 0x20])),
        Err(Error::InvalidIpfsCid)
    );
    assert_eq!(
        Module::is_valid_content(Content::IPFS(cid_v0()[..20].to_vec())),
        Err(Error::InvalidIpfsCid)
    );
}

#[test]
fn content_is_judged_by_the_answer_on_its_hash() {
    let ipfs = Content::IPFS(vec![1, 2, 3]);
    assert_eq!(Module::check_content(&ipfs, true), Ok(()));
    assert_eq!(Module::check_content(&ipfs, false), Err(Error::InvalidIpfsCid));
    assert_eq!(Module::check_content(&Content::Nothing, false), Ok(()));
    assert_eq!(
        Module::check_content(&Content::Raw(vec![]), true),
        Err(Error::RawContentTypeNotSupported)
    );
    assert_eq!(
        Module::check_content(&Content::Hyper(vec![]), true),
        Err(Error::HypercoreContentTypeNotSupported)
    );
}

#[test]
fn users_become_a_set_of_keys() {
    let users = vec![User::Space(3), User::Account(9), User::Space(3), User::Account(2)];
    let set = Module::convert_users_vec_to_btree_set(users).unwrap();
    let keys: Vec<(u8, u64)> = set.into_iter().collect();
    assert_eq!(keys, vec![(0, 2), (0, 9), (1, 3)]);
    assert_eq!(User::Account(4).key(), (0, 4));
    assert_eq!(User::Space(4).key(), (1, 4));
    assert_eq!(User::from_key((0, 4)), Some(User::Account(4)));
    assert_eq!(User::from_key((1, 8)), Some(User::Space(8)));
    assert_eq!(User::from_key((2, 8)), None);
    assert!(Module::convert_users_vec_to_btree_set(vec![]).unwrap().is_empty());
}

#[test]
fn handle_chars() {
    for c in b'0'..=b'9' {
        assert!(is_valid_handle_char(c));
    }
    for c in b'a'..=b'z' {
        assert!(is_valid_handle_char(c));
    }
    assert!(is_valid_handle_char(b'_'));
    for c in [b'A', b'Z', b'-', b' ', b'/', b':', b'`', b'{', 0u8, 255u8] {
        assert!(!is_valid_handle_char(c));
    }
    assert!(has_only_valid_handle_chars(&b"good_handle".to_vec()));
    assert!(has_only_valid_handle_chars(&vec![]));
    assert!(!has_only_valid_handle_chars(&b"Good_handle".to_vec()));
    assert_eq!(to_lowercase(&b"AbC_xyZ-09@[`{".to_vec()), b"abc_xyz-09@[`{".to_vec());
    assert_eq!(to_lowercase(&vec![0xC4, 0x41, 0x5a, 0x5b]), vec![0xC4, 0x61, 0x7a, 0x5b]);
}

#[test]
fn handles_are_made_small_and_checked() {
    let limits = Module { ipfs_cid_len: 46, min_handle_len: 5, max_handle_len: 10 };
    assert_eq!(
        limits.lowercase_and_validate_a_handle(b"Good_One".to_vec()),
        Ok(b"good_one".to_vec())
    );
    assert_eq!(
        limits.lowercase_and_validate_a_handle(b"abcd".to_vec()),
        Err(Error::HandleIsTooShort)
    );
    assert_eq!(limits.lowercase_and_validate_a_handle(b"abcde".to_vec()), Ok(b"abcde".to_vec()));
    assert_eq!(
        limits.lowercase_and_validate_a_handle(b"abcdefghij".to_vec()),
        Ok(b"abcdefghij".to_vec())
    );
    assert_eq!(
        limits.lowercase_and_validate_a_handle(b"abcdefghijk".to_vec()),
        Err(Error::HandleIsTooLong)
    );
    assert_eq!(
        limits.lowercase_and_validate_a_handle(b"bad-handle".to_vec()),
        Err(Error::HandleContainsInvalidChars)
    );
    assert_eq!(
        limits.lowercase_and_validate_a_handle(b"a-b".to_vec()),
        Err(Error::HandleIsTooShort)
    );
}
