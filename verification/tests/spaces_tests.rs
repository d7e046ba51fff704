use space_owners::spaces::registry::{
    copy_bytes, is_ipfs_hash_valid, same_bytes, same_handle, Module,
};
use space_owners::spaces::space::{Error, Event, Space, SpaceUpdate};
use space_owners::utils::WhoAndWhen;

fn cid(fill: u8) -> Vec<u8> {
    let mut bytes = vec![0x12, 0x20];
    bytes.extend_from_slice(&[fill; 32]);
    bytes
}

fn by(account: u64, block: u64) -> WhoAndWhen {
    WhoAndWhen::new(account, block, block * 6000)
}

fn no_update() -> SpaceUpdate {
    SpaceUpdate { handle: None, ipfs_hash: None, hidden: None }
}

#[test]
fn a_new_space() {
    let space = Space::new(3, by(5, 2), cid(1), Some(b"Home".to_vec()));
    assert_eq!(space.id, 3);
    assert_eq!(space.created, by(5, 2));
    assert_eq!(space.updated, None);
    assert!(!space.hidden);
    assert_eq!(space.owner, 5);
    assert_eq!(space.handle, Some(b"Home".to_vec()));
    assert_eq!(space.ipfs_hash, cid(1));
    assert!(space.edit_history.is_empty());
    assert_eq!(space.score, 0);
    assert!(space.is_owner(&5));
    assert!(!space.is_owner(&6));
    assert_eq!(space.ensure_space_owner(5), Ok(()));
    assert_eq!(space.ensure_space_owner(6), Err(Error::NotASpaceOwner));
}

#[test]
fn the_score_stays_within_its_bounds() {
    let mut space = Space::new(3, by(5, 2), cid(1), None);
    space.change_score(5);
    assert_eq!(space.score, 5);
    space.change_score(-7);
    assert_eq!(space.score, -2);
    space.change_score(0);
    assert_eq!(space.score, -2);
    space.score = i32::MAX - 3;
    space.change_score(10);
    assert_eq!(space.score, i32::MAX);
    space.change_score(i16::MAX);
    assert_eq!(space.score, i32::MAX);
    space.score = i32::MIN + 3;
    space.change_score(-10);
    assert_eq!(space.score, i32::MIN);
    space.score = 0;
    space.change_score(i16::MIN);
    assert_eq!(space.score, -32768);
    assert_eq!(space.owner, 5);
    assert_eq!(space.ipfs_hash, cid(1));
}

#[test]
fn bytes_and_handles_compare_by_content() {
    assert!(same_bytes(&vec![1, 2], &vec![1, 2]));
    assert!(!same_bytes(&vec![1, 2], &vec![1, 3]));
    assert!(same_handle(&None, &None));
    assert!(same_handle(&Some(vec![1]), &Some(vec![1])));
    assert!(!same_handle(&Some(vec![1]), &None));
    assert!(!same_handle(&None, &Some(vec![])));
    assert_eq!(copy_bytes(&vec![4, 5, 6]), vec![4, 5, 6]);
    assert!(is_ipfs_hash_valid(&cid(3)));
    assert!(!is_ipfs_hash_valid(&vec![1, 2, 3]));
}

#[test]
fn spaces_are_created_one_after_another() {
    let mut spaces = Module::new(3, 8);
    assert_eq!(spaces.next_space_id(), 1);
    assert_eq!(spaces.ensure_space_exists(1), Err(Error::SpaceNotFound));
    assert!(spaces.require_space(1).is_err());

    assert_eq!(
        spaces.create_space(by(5, 2), Some(b"Home".to_vec()), cid(1)),
        Ok(Event::SpaceCreated(5, 1))
    );
    assert_eq!(spaces.create_space(by(5, 3), None, cid(2)), Ok(Event::SpaceCreated(5, 2)));
    assert_eq!(
        spaces.create_space(by(6, 4), Some(b"work_1".to_vec()), cid(3)),
        Ok(Event::SpaceCreated(6, 3))
    );
    assert_eq!(spaces.next_space_id(), 4);
    assert_eq!(spaces.space_ids_by_owner(5), vec![1, 2]);
    assert_eq!(spaces.space_ids_by_owner(6), vec![3]);
    assert!(spaces.space_ids_by_owner(7).is_empty());
    assert_eq!(spaces.space_id_by_handle(&b"home".to_vec()), Some(1));
    assert_eq!(spaces.space_id_by_handle(&b"Home".to_vec()), None);
    assert_eq!(spaces.space_id_by_handle(&b"work_1".to_vec()), Some(3));
    assert_eq!(spaces.ensure_space_exists(2), Ok(()));
    let space = spaces.require_space(1).unwrap();
    assert_eq!(space.id, 1);
    assert_eq!(space.owner, 5);
    assert_eq!(space.handle, Some(b"Home".to_vec()));
    assert_eq!(space.ipfs_hash, cid(1));
    assert_eq!(spaces.space_by_id(2).unwrap().handle, None);
    assert!(spaces.space_by_id(4).is_none());
}

#[test]
fn create_reports_the_first_fault() {
    let mut spaces = Module::new(3, 8);
    spaces.create_space(by(5, 2), Some(b"Home".to_vec()), cid(1)).unwrap();
    assert_eq!(
        spaces.create_space(by(5, 2), Some(b"x".to_vec()), vec![1, 2, 3]),
        Err(Error::InvalidIpfsCid)
    );
    assert_eq!(
        spaces.create_space(by(5, 2), Some(b"ab".to_vec()), cid(1)),
        Err(Error::HandleIsTooShort)
    );
    assert_eq!(
        spaces.create_space(by(5, 2), Some(b"abcdefghi".to_vec()), cid(1)),
        Err(Error::HandleIsTooLong)
    );
    assert_eq!(
        spaces.create_space(by(5, 2), Some(b"ab cd".to_vec()), cid(1)),
        Err(Error::HandleContainsInvalidChars)
    );
    assert_eq!(
        spaces.create_space(by(6, 2), Some(b"hOME".to_vec()), cid(1)),
        Err(Error::HandleIsNotUnique)
    );
    assert_eq!(spaces.next_space_id(), 2);
    assert_eq!(spaces.space_ids_by_owner(5), vec![1]);
    assert!(spaces.space_ids_by_owner(6).is_empty());
    assert_eq!(
        spaces.create_space_with(by(6, 2), None, vec![1, 2, 3], true),
        Ok(Event::SpaceCreated(6, 2))
    );
    assert_eq!(
        spaces.create_space_with(by(6, 2), None, cid(1), false),
        Err(Error::InvalidIpfsCid)
    );
    assert_eq!(spaces.check_new_space(&Some(b"NEW".to_vec()), true), Ok(b"new".to_vec()));
    assert_eq!(spaces.check_new_space(&None, true), Ok(vec![]));
    assert_eq!(spaces.lowercase_and_validate_a_handle(b"Home".to_vec()), Err(Error::HandleIsNotUnique));
    assert_eq!(spaces.lowercase_and_validate_a_handle(b"Home2".to_vec()), Ok(b"home2".to_vec()));
}

#[test]
fn a_space_with_an_empty_handle_gets_none_assigned() {
    let mut spaces = Module::new(0, 8);
    assert_eq!(spaces.create_space(by(5, 2), Some(vec![]), cid(1)), Ok(Event::SpaceCreated(5, 1)));
    assert_eq!(spaces.space_id_by_handle(&vec![]), None);
    assert_eq!(spaces.space_by_id(1).unwrap().handle, Some(vec![]));
    assert_eq!(spaces.create_space(by(5, 2), Some(vec![]), cid(1)), Ok(Event::SpaceCreated(5, 2)));
}

#[test]
fn an_inserted_space_is_kept_as_given() {
    let mut spaces = Module::new(3, 8);
    let mut space = Space::new(1, by(5, 2), cid(1), None);
    space.hidden = true;
    space.score = 12;
    assert_eq!(spaces.insert_space(9, space, b"nine".to_vec()), Event::SpaceCreated(9, 1));
    let kept = spaces.space_by_id(1).unwrap();
    assert!(kept.hidden);
    assert_eq!(kept.score, 12);
    assert_eq!(kept.owner, 5);
    assert_eq!(spaces.space_ids_by_owner(9), vec![1]);
    assert_eq!(spaces.space_id_by_handle(&b"nine".to_vec()), Some(1));
    assert_eq!(spaces.next_space_id(), 2);
}

#[test]
fn update_reports_the_first_fault() {
    let mut spaces = Module::new(3, 8);
    spaces.create_space(by(5, 2), Some(b"home".to_vec()), cid(1)).unwrap();
    spaces.create_space(by(6, 2), Some(b"work".to_vec()), cid(2)).unwrap();

    assert_eq!(spaces.update_space(by(5, 3), 9, no_update(), false), Err(Error::NoUpdatesForSpace));
    let hide = SpaceUpdate { handle: None, ipfs_hash: None, hidden: Some(true) };
    assert_eq!(spaces.update_space(by(5, 3), 9, hide, false), Err(Error::SpaceNotFound));
    let hide = SpaceUpdate { handle: None, ipfs_hash: None, hidden: Some(true) };
    assert_eq!(spaces.update_space(by(5, 3), 1, hide, false), Err(Error::NoPermissionToUpdateSpace));
    let bad_hash = SpaceUpdate {
        handle: Some(Some(b"x".to_vec())),
        ipfs_hash: Some(vec![1, 2]),
        hidden: Some(true),
    };
    assert_eq!(spaces.update_space(by(5, 3), 1, bad_hash, true), Err(Error::InvalidIpfsCid));
    let short = SpaceUpdate { handle: Some(Some(b"x".to_vec())), ipfs_hash: None, hidden: Some(true) };
    assert_eq!(spaces.update_space(by(5, 3), 1, short, true), Err(Error::HandleIsTooShort));
    let long = SpaceUpdate { handle: Some(Some(b"abcdefghi".to_vec())), ipfs_hash: None, hidden: None };
    assert_eq!(spaces.update_space(by(5, 3), 1, long, true), Err(Error::HandleIsTooLong));
    let odd = SpaceUpdate { handle: Some(Some(b"a.b.c".to_vec())), ipfs_hash: None, hidden: None };
    assert_eq!(spaces.update_space(by(5, 3), 1, odd, true), Err(Error::HandleContainsInvalidChars));
    let taken = SpaceUpdate { handle: Some(Some(b"WORK".to_vec())), ipfs_hash: None, hidden: None };
    assert_eq!(spaces.update_space(by(5, 3), 1, taken, true), Err(Error::HandleIsNotUnique));

    let space = spaces.space_by_id(1).unwrap();
    assert!(!space.hidden);
    assert_eq!(space.updated, None);
    assert!(space.edit_history.is_empty());
    assert_eq!(space.handle, Some(b"home".to_vec()));
    assert_eq!(spaces.space_id_by_handle(&b"home".to_vec()), Some(1));
}

#[test]
fn an_update_records_the_former_values() {
    let mut spaces = Module::new(3, 8);
    spaces.create_space(by(5, 2), Some(b"home".to_vec()), cid(1)).unwrap();

    let update = SpaceUpdate {
        handle: Some(Some(b"Castle".to_vec())),
        ipfs_hash: Some(cid(4)),
        hidden: Some(true),
    };
    assert_eq!(spaces.update_space(by(8, 7), 1, update, true), Ok(Some(Event::SpaceUpdated(8, 1))));
    let space = spaces.space_by_id(1).unwrap();
    assert_eq!(space.handle, Some(b"Castle".to_vec()));
    assert_eq!(space.ipfs_hash, cid(4));
    assert!(space.hidden);
    assert_eq!(space.updated, Some(by(8, 7)));
    assert_eq!(space.owner, 5);
    assert_eq!(space.created, by(5, 2));
    assert_eq!(space.edit_history.len(), 1);
    let record = &space.edit_history[0];
    assert_eq!(record.edited, by(8, 7));
    assert_eq!(record.old_data.handle, Some(Some(b"home".to_vec())));
    assert_eq!(record.old_data.ipfs_hash, Some(cid(1)));
    assert_eq!(record.old_data.hidden, Some(false));
    assert_eq!(spaces.space_id_by_handle(&b"castle".to_vec()), Some(1));
    assert_eq!(spaces.space_id_by_handle(&b"home".to_vec()), None);

    let same = SpaceUpdate {
        handle: Some(Some(b"Castle".to_vec())),
        ipfs_hash: Some(cid(4)),
        hidden: Some(true),
    };
    assert_eq!(spaces.update_space(by(8, 9), 1, same, true), Ok(None));
    let space = spaces.space_by_id(1).unwrap();
    assert_eq!(space.updated, Some(by(8, 7)));
    assert_eq!(space.edit_history.len(), 1);

    let unhandle = SpaceUpdate { handle: Some(None), ipfs_hash: None, hidden: Some(true) };
    assert_eq!(spaces.update_space(by(5, 10), 1, unhandle, true), Ok(Some(Event::SpaceUpdated(5, 1))));
    let space = spaces.space_by_id(1).unwrap();
    assert_eq!(space.handle, None);
    assert_eq!(space.edit_history.len(), 2);
    assert_eq!(space.edit_history[1].old_data.handle, Some(Some(b"Castle".to_vec())));
    assert_eq!(space.edit_history[1].old_data.ipfs_hash, None);
    assert_eq!(space.edit_history[1].old_data.hidden, None);
    assert_eq!(spaces.space_id_by_handle(&b"castle".to_vec()), Some(1));
}

#[test]
fn an_unchanged_hash_is_not_checked() {
    let mut spaces = Module::new(3, 8);
    assert_eq!(
        spaces.create_space_with(by(5, 2), None, vec![1, 2, 3], true),
        Ok(Event::SpaceCreated(5, 1))
    );
    let update = SpaceUpdate { handle: None, ipfs_hash: Some(vec![1, 2, 3]), hidden: Some(true) };
    assert_eq!(spaces.update_space(by(5, 3), 1, update, true), Ok(Some(Event::SpaceUpdated(5, 1))));
    let update = SpaceUpdate { handle: None, ipfs_hash: Some(vec![1, 2]), hidden: None };
    assert_eq!(
        spaces.update_space_with(by(5, 3), 1, update, true, false),
        Err(Error::InvalidIpfsCid)
    );
    let update = SpaceUpdate { handle: None, ipfs_hash: Some(vec![1, 2]), hidden: None };
    assert_eq!(
        spaces.update_space_with(by(5, 4), 1, update, true, true),
        Ok(Some(Event::SpaceUpdated(5, 1)))
    );
    assert_eq!(spaces.space_by_id(1).unwrap().ipfs_hash, vec![1, 2]);
}
