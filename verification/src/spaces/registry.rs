//! The registry of spaces.

use crate::spaces::space::{
    handle_view, Error, Event, Space, SpaceHistoryRecord, SpaceUpdate, SpaceUpdateView, SpaceView,
    SpaceHistoryRecordView,
};
use crate::utils::{
    all_valid_handle_chars, cid_bytes, has_only_valid_handle_chars, is_cid, lowercase,
    to_lowercase, AccountId, Content, SpaceId, WhoAndWhen,
};
use sp_std::collections::btree_map::BTreeMap;
use sp_std::vec::Vec;
use vstd::prelude::*;

verus! {

/// The handles that the list `entries` assigns to spaces: of two entries with the same
/// handle the later one counts.
pub open spec fn handles_of(entries: Seq<(Vec<u8>, SpaceId)>) -> Map<Seq<u8>, SpaceId>
    decreases entries.len(),
{
    if entries.len() == 0 {
        Map::empty()
    } else {
        handles_of(entries.drop_last()).insert(entries.last().0@, entries.last().1)
    }
}

/// Whether two byte strings are the same.
pub fn same_bytes(a: &Vec<u8>, b: &Vec<u8>) -> (r: bool)
    ensures
        r == (a@ == b@),
{
    let r = a == b;
    proof {
        if r {
            assert(a@ =~= b@);
        }
    }
    r
}

/// Whether two handles are the same, or both are absent.
pub fn same_handle(a: &Option<Vec<u8>>, b: &Option<Vec<u8>>) -> (r: bool)
    ensures
        r == (handle_view(*a) == handle_view(*b)),
{
    match (a, b) {
        (Some(x), Some(y)) => same_bytes(x, y),
        (None, None) => true,
        _ => false,
    }
}

/// A copy of `bytes`.
pub fn copy_bytes(bytes: &Vec<u8>) -> (r: Vec<u8>)
    ensures
        r@ == bytes@,
{
    let r = bytes.clone();
    proof {
        assert(r@ =~= bytes@);
    }
    r
}

/// The space that `entries` assigns to `handle`, if any.
fn find_handle(entries: &Vec<(Vec<u8>, SpaceId)>, handle: &Vec<u8>) -> (r: Option<SpaceId>)
    ensures
        r is Some <==> handles_of(entries@).contains_key(handle@),
        r matches Some(id) ==> handles_of(entries@)[handle@] == id,
{
    let mut r: Option<SpaceId> = None;
    let mut i: usize = 0;
    while i < entries.len()
        invariant
            i <= entries.len(),
            r is Some <==> handles_of(entries@.take(i as int)).contains_key(handle@),
            r matches Some(id) ==> handles_of(entries@.take(i as int))[handle@] == id,
        decreases entries.len() - i,
    {
        proof {
            assert(entries@.take(i + 1).drop_last() =~= entries@.take(i as int));
        }
        if same_bytes(&entries[i].0, handle) {
            r = Some(entries[i].1);
        }
        i += 1;
    }
    proof {
        assert(entries@.take(entries@.len() as int) =~= entries@);
    }
    r
}

/// Takes `handle` out of `entries`.
fn remove_handle(entries: &mut Vec<(Vec<u8>, SpaceId)>, handle: &Vec<u8>)
    ensures
        handles_of(final(entries)@) == handles_of(old(entries)@).remove(handle@),
{
    let mut kept: Vec<(Vec<u8>, SpaceId)> = Vec::new();
    let mut i: usize = 0;
    proof {
        assert(handles_of(kept@) =~= handles_of(entries@.take(0)).remove(handle@));
    }
    while i < entries.len()
        invariant
            i <= entries.len(),
            entries@ == old(entries)@,
            handles_of(kept@) == handles_of(entries@.take(i as int)).remove(handle@),
        decreases entries.len() - i,
    {
        proof {
            assert(entries@.take(i + 1).drop_last() =~= entries@.take(i as int));
        }
        if !same_bytes(&entries[i].0, handle) {
            let ghost before = kept@;
            kept.push((copy_bytes(&entries[i].0), entries[i].1));
            proof {
                assert(kept@.drop_last() =~= before);
                assert(handles_of(kept@) =~= handles_of(entries@.take(i + 1)).remove(handle@));
            }
        } else {
            proof {
                assert(handles_of(kept@) =~= handles_of(entries@.take(i + 1)).remove(handle@));
            }
        }
        i += 1;
    }
    proof {
        assert(entries@.take(entries@.len() as int) =~= entries@);
    }
    *entries = kept;
}

/// Assigns `handle` to `space_id` in `entries`.
fn insert_handle(entries: &mut Vec<(Vec<u8>, SpaceId)>, handle: Vec<u8>, space_id: SpaceId)
    ensures
        handles_of(final(entries)@) == handles_of(old(entries)@).insert(handle@, space_id),
{
    entries.push((handle, space_id));
    proof {
        assert(entries@.drop_last() =~= old(entries)@);
    }
}

/// The spaces, their handles and their owners.
pub struct Spaces {
    /// The id that the next space gets.
    pub next_space_id: SpaceId,
    /// The spaces by their ids.
    pub space_by_id: Map<SpaceId, SpaceView>,
    /// The spaces by their handles, in small letters.
    pub space_id_by_handle: Map<Seq<u8>, SpaceId>,
    /// The spaces that each account has created, oldest first.
    pub space_ids_by_owner: Map<AccountId, Seq<SpaceId>>,
}

/// What an update does to a space: the space after it, the record of the edit, and whether
/// any field changed.
pub struct Edit {
    pub space: SpaceView,
    pub old_data: SpaceUpdateView,
    pub changed: bool,
}

impl Edit {
    /// No field of `space` has changed yet.
    pub open spec fn start(space: SpaceView) -> Edit {
        Edit {
            space,
            old_data: SpaceUpdateView { handle: None, ipfs_hash: None, hidden: None },
            changed: false,
        }
    }

    /// The edit after `ipfs_hash` has taken the place of another hash.
    pub open spec fn with_ipfs_hash(self, ipfs_hash: Option<Seq<u8>>) -> Edit {
        if ipfs_hash is Some && ipfs_hash->0 != self.space.ipfs_hash {
            Edit {
                space: SpaceView { ipfs_hash: ipfs_hash->0, ..self.space },
                old_data: SpaceUpdateView {
                    ipfs_hash: Some(self.space.ipfs_hash),
                    ..self.old_data
                },
                changed: true,
            }
        } else {
            self
        }
    }

    /// The edit after the space was hidden or shown, if it was not so before.
    pub open spec fn with_hidden(self, hidden: Option<bool>) -> Edit {
        if hidden is Some && hidden->0 != self.space.hidden {
            Edit {
                space: SpaceView { hidden: hidden->0, ..self.space },
                old_data: SpaceUpdateView { hidden: Some(self.space.hidden), ..self.old_data },
                changed: true,
            }
        } else {
            self
        }
    }

    /// The edit after `handle` has taken the place of another handle.
    pub open spec fn with_handle(self, handle: Option<Option<Seq<u8>>>) -> Edit {
        if handle is Some && handle->0 != self.space.handle {
            Edit {
                space: SpaceView { handle: handle->0, ..self.space },
                old_data: SpaceUpdateView { handle: Some(self.space.handle), ..self.old_data },
                changed: true,
            }
        } else {
            self
        }
    }

    /// What `update` does to `space`.
    pub open spec fn of(space: SpaceView, update: SpaceUpdateView) -> Edit {
        Edit::start(space).with_ipfs_hash(update.ipfs_hash).with_hidden(
            update.hidden,
        ).with_handle(update.handle)
    }

    /// The space after the edit by `edited`: if a field changed, the edit is recorded.
    pub open spec fn finish(self, edited: WhoAndWhen) -> SpaceView {
        if self.changed {
            SpaceView {
                updated: Some(edited),
                edit_history: self.space.edit_history.push(
                    SpaceHistoryRecordView { edited, old_data: self.old_data },
                ),
                ..self.space
            }
        } else {
            self.space
        }
    }
}

impl Spaces {
    /// The spaces that `owner` has created, oldest first.
    pub open spec fn owned_by(self, owner: AccountId) -> Seq<SpaceId> {
        if self.space_ids_by_owner.contains_key(owner) {
            self.space_ids_by_owner[owner]
        } else {
            Seq::empty()
        }
    }

    /// The error of a handle that is too short or too long, holds a character that is not
    /// valid once its capital letters are made small, or belongs to a space already.
    pub open spec fn handle_error(self, min_len: u32, max_len: u32, handle: Seq<u8>) -> Option<
        Error,
    > {
        if handle.len() < min_len {
            Some(Error::HandleIsTooShort)
        } else if handle.len() > max_len {
            Some(Error::HandleIsTooLong)
        } else if !all_valid_handle_chars(lowercase(handle)) {
            Some(Error::HandleContainsInvalidChars)
        } else if self.space_id_by_handle.contains_key(lowercase(handle)) {
            Some(Error::HandleIsNotUnique)
        } else {
            None
        }
    }

    /// The error of creating a space with the given handle and hash; `cid_ok` tells whether
    /// the hash is a content identifier.
    pub open spec fn create_error(
        self,
        min_len: u32,
        max_len: u32,
        handle: Option<Seq<u8>>,
        cid_ok: bool,
    ) -> Option<Error> {
        if !cid_ok {
            Some(Error::InvalidIpfsCid)
        } else if handle is Some {
            self.handle_error(min_len, max_len, handle->0)
        } else {
            None
        }
    }

    /// The handle under which a new space is entered: the given one in small letters, or
    /// none.
    pub open spec fn handle_key(handle: Option<Seq<u8>>) -> Seq<u8> {
        match handle {
            Some(bytes) => lowercase(bytes),
            None => Seq::empty(),
        }
    }

    /// The registry after `space` has been entered under the next id as a space that
    /// `owner` created. The handle `handle_in_lowercase` is assigned to it unless it is
    /// empty.
    pub open spec fn insert(
        self,
        owner: AccountId,
        space: SpaceView,
        handle_in_lowercase: Seq<u8>,
    ) -> Spaces {
        Spaces {
            next_space_id: (self.next_space_id + 1) as SpaceId,
            space_by_id: self.space_by_id.insert(self.next_space_id, space),
            space_id_by_handle: if handle_in_lowercase.len() > 0 {
                self.space_id_by_handle.insert(handle_in_lowercase, self.next_space_id)
            } else {
                self.space_id_by_handle
            },
            space_ids_by_owner: self.space_ids_by_owner.insert(
                owner,
                self.owned_by(owner).push(self.next_space_id),
            ),
        }
    }

    /// The registry after `created.account` has created a space with the given handle and
    /// hash.
    pub open spec fn create(
        self,
        created: WhoAndWhen,
        handle: Option<Seq<u8>>,
        ipfs_hash: Seq<u8>,
    ) -> Spaces {
        self.insert(
            created.account,
            SpaceView::new(self.next_space_id, created, ipfs_hash, handle),
            Spaces::handle_key(handle),
        )
    }

    /// The error of updating `space_id` with `update`. `has_permission` tells whether the
    /// account may update the space, `cid_ok` whether the new hash is a content identifier.
    pub open spec fn update_error(
        self,
        min_len: u32,
        max_len: u32,
        space_id: SpaceId,
        update: SpaceUpdateView,
        has_permission: bool,
        cid_ok: bool,
    ) -> Option<Error> {
        if !update.has_updates() {
            Some(Error::NoUpdatesForSpace)
        } else if !self.space_by_id.contains_key(space_id) {
            Some(Error::SpaceNotFound)
        } else if !has_permission {
            Some(Error::NoPermissionToUpdateSpace)
        } else {
            let space = self.space_by_id[space_id];
            if update.ipfs_hash is Some && update.ipfs_hash->0 != space.ipfs_hash && !cid_ok {
                Some(Error::InvalidIpfsCid)
            } else if update.handle is Some && update.handle->0 != space.handle
                && update.handle->0 is Some {
                self.handle_error(min_len, max_len, update.handle->0->0)
            } else {
                None
            }
        }
    }

    /// The handles after `update` has changed the handle of `space_id`: the new handle, in
    /// small letters, is assigned to the space, and the former handle, as it was given, is
    /// free again.
    pub open spec fn updated_handles(self, space_id: SpaceId, update: SpaceUpdateView) -> Map<
        Seq<u8>,
        SpaceId,
    > {
        let space = self.space_by_id[space_id];
        if update.handle is Some && update.handle->0 != space.handle {
            let added = if update.handle->0 is Some {
                self.space_id_by_handle.insert(lowercase(update.handle->0->0), space_id)
            } else {
                self.space_id_by_handle
            };
            if space.handle is Some {
                added.remove(space.handle->0)
            } else {
                added
            }
        } else {
            self.space_id_by_handle
        }
    }

    /// The registry after `edited.account` has updated `space_id` with `update`.
    pub open spec fn update(
        self,
        edited: WhoAndWhen,
        space_id: SpaceId,
        update: SpaceUpdateView,
    ) -> Spaces {
        let edit = Edit::of(self.space_by_id[space_id], update);
        Spaces {
            space_by_id: if edit.changed {
                self.space_by_id.insert(space_id, edit.finish(edited))
            } else {
                self.space_by_id
            },
            space_id_by_handle: self.updated_handles(space_id, update),
            ..self
        }
    }
}

/// The registry of spaces, with the limits on the length of a handle.
pub struct Module {
    min_handle_len: u32,
    max_handle_len: u32,
    next_space_id: SpaceId,
    space_by_id: BTreeMap<SpaceId, Space>,
    space_id_by_handle: Vec<(Vec<u8>, SpaceId)>,
    space_ids_by_owner: BTreeMap<AccountId, Vec<SpaceId>>,
}

impl View for Module {
    type V = Spaces;

    closed spec fn view(&self) -> Spaces {
        Spaces {
            next_space_id: self.next_space_id,
            space_by_id: self.space_by_id@.map_values(|s: Space| s@),
            space_id_by_handle: handles_of(self.space_id_by_handle@),
            space_ids_by_owner: self.space_ids_by_owner@.map_values(|l: Vec<SpaceId>| l@),
        }
    }
}

impl Module {
    /// The least length of a handle.
    pub closed spec fn min_handle_len(&self) -> u32 {
        self.min_handle_len
    }

    /// The greatest length of a handle.
    pub closed spec fn max_handle_len(&self) -> u32 {
        self.max_handle_len
    }

    /// A registry without spaces, for handles of `min_handle_len` to `max_handle_len`
    /// bytes. Ids start at 1.
    pub fn new(min_handle_len: u32, max_handle_len: u32) -> (r: Module)
        ensures
            r.min_handle_len() == min_handle_len,
            r.max_handle_len() == max_handle_len,
            r@ == (Spaces {
                next_space_id: 1,
                space_by_id: Map::empty(),
                space_id_by_handle: Map::empty(),
                space_ids_by_owner: Map::empty(),
            }),
    {
        let r = Module {
            min_handle_len,
            max_handle_len,
            next_space_id: 1,
            space_by_id: BTreeMap::new(),
            space_id_by_handle: Vec::new(),
            space_ids_by_owner: BTreeMap::new(),
        };
        proof {
            assert(r@.space_by_id =~= Map::empty());
            assert(r@.space_ids_by_owner =~= Map::empty());
        }
        r
    }

    /// The id that the next space gets.
    pub fn next_space_id(&self) -> (r: SpaceId)
        ensures
            r == self@.next_space_id,
    {
        self.next_space_id
    }

    /// The space `space_id`, if there is one.
    pub fn space_by_id(&self, space_id: SpaceId) -> (r: Option<&Space>)
        ensures
            r is Some <==> self@.space_by_id.contains_key(space_id),
            r matches Some(space) ==> space@ == self@.space_by_id[space_id],
    {
        self.space_by_id.get(&space_id)
    }

    /// The space that has the handle `handle`, if there is one.
    pub fn space_id_by_handle(&self, handle: &Vec<u8>) -> (r: Option<SpaceId>)
        ensures
            r is Some <==> self@.space_id_by_handle.contains_key(handle@),
            r matches Some(id) ==> id == self@.space_id_by_handle[handle@],
    {
        find_handle(&self.space_id_by_handle, handle)
    }

    /// The spaces that `owner` has created, oldest first.
    pub fn space_ids_by_owner(&self, owner: AccountId) -> (r: Vec<SpaceId>)
        ensures
            r@ == self@.owned_by(owner),
    {
        match self.space_ids_by_owner.get(&owner) {
            Some(ids) => {
                let r = ids.clone();
                proof {
                    assert(r@ =~= ids@);
                }
                r
            },
            None => Vec::new(),
        }
    }

    /// Refuses an id that no space has.
    pub fn ensure_space_exists(&self, space_id: SpaceId) -> (r: Result<(), Error>)
        ensures
            r == (if self@.space_by_id.contains_key(space_id) {
                Ok::<(), Error>(())
            } else {
                Err::<(), Error>(Error::SpaceNotFound)
            }),
    {
        if !self.space_by_id.contains_key(&space_id) {
            return Err(Error::SpaceNotFound);
        }
        Ok(())
    }

    /// The space `space_id`; an error if there is none.
    pub fn require_space(&self, space_id: SpaceId) -> (r: Result<&Space, Error>)
        ensures
            match r {
                Ok(space) => self@.space_by_id.contains_key(space_id) && space@
                    == self@.space_by_id[space_id],
                Err(e) => !self@.space_by_id.contains_key(space_id) && e == Error::SpaceNotFound,
            },
    {
        match self.space_by_id.get(&space_id) {
            Some(space) => Ok(space),
            None => Err(Error::SpaceNotFound),
        }
    }

    /// Makes the capital letters of `handle` small and hands the result back, if its length
    /// is within the limits, it then holds only digits, small letters and underscores, and
    /// no space has it.
    pub fn lowercase_and_validate_a_handle(&self, handle: Vec<u8>) -> (r: Result<Vec<u8>, Error>)
        ensures
            match self@.handle_error(self.min_handle_len(), self.max_handle_len(), handle@) {
                Some(e) => r == Err::<Vec<u8>, Error>(e),
                None => r is Ok && r->Ok_0@ == lowercase(handle@),
            },
    {
        if handle.len() < self.min_handle_len as usize {
            return Err(Error::HandleIsTooShort);
        }
        if handle.len() > self.max_handle_len as usize {
            return Err(Error::HandleIsTooLong);
        }
        let handle_in_lowercase = to_lowercase(&handle);
        if !has_only_valid_handle_chars(&handle_in_lowercase) {
            return Err(Error::HandleContainsInvalidChars);
        }
        if find_handle(&self.space_id_by_handle, &handle_in_lowercase).is_some() {
            return Err(Error::HandleIsNotUnique);
        }
        Ok(handle_in_lowercase)
    }
}

impl Module {
    /// Tells whether a space with the given handle can be created; `cid_ok` tells whether
    /// its hash is a content identifier.
    pub fn check_new_space(&self, handle_opt: &Option<Vec<u8>>, cid_ok: bool) -> (r: Result<
        Vec<u8>,
        Error,
    >)
        ensures
            match self@.create_error(
                self.min_handle_len(),
                self.max_handle_len(),
                handle_view(*handle_opt),
                cid_ok,
            ) {
                Some(e) => r == Err::<Vec<u8>, Error>(e),
                None => r is Ok && r->Ok_0@ == Spaces::handle_key(handle_view(*handle_opt)),
            },
    {
        if !cid_ok {
            return Err(Error::InvalidIpfsCid);
        }
        match handle_opt {
            Some(given_handle) => self.lowercase_and_validate_a_handle(
                copy_bytes(given_handle),
            ),
            None => Ok(Vec::new()),
        }
    }

    /// Enters `space` under the next id as a space that `owner` created, and assigns the
    /// handle `handle_in_lowercase` to it unless that is empty.
    pub fn insert_space(
        &mut self,
        owner: AccountId,
        space: Space,
        handle_in_lowercase: Vec<u8>,
    ) -> (r: Event)
        requires
            old(self)@.next_space_id < u64::MAX,
        ensures
            r == Event::SpaceCreated(owner, old(self)@.next_space_id),
            final(self)@ == old(self)@.insert(owner, space@, handle_in_lowercase@),
            final(self).min_handle_len() == old(self).min_handle_len(),
            final(self).max_handle_len() == old(self).max_handle_len(),
    {
        let ghost pre = self@;
        let space_id = self.next_space_id;
        self.space_by_id.insert(space_id, space);
        let mut ids = match self.space_ids_by_owner.remove(&owner) {
            Some(ids) => ids,
            None => Vec::new(),
        };
        ids.push(space_id);
        self.space_ids_by_owner.insert(owner, ids);
        self.next_space_id = space_id + 1;
        if handle_in_lowercase.len() > 0 {
            insert_handle(&mut self.space_id_by_handle, handle_in_lowercase, space_id);
        }
        proof {
            let post = pre.insert(owner, space@, handle_in_lowercase@);
            assert(self@.space_by_id =~= post.space_by_id);
            assert(self@.space_ids_by_owner =~= post.space_ids_by_owner);
        }
        Event::SpaceCreated(owner, space_id)
    }

    /// Creates a space in the name of `created.account`, given whether its hash is a
    /// content identifier.
    pub fn create_space_with(
        &mut self,
        created: WhoAndWhen,
        handle_opt: Option<Vec<u8>>,
        ipfs_hash: Vec<u8>,
        cid_ok: bool,
    ) -> (r: Result<Event, Error>)
        requires
            old(self)@.next_space_id < u64::MAX,
        ensures
            final(self).min_handle_len() == old(self).min_handle_len(),
            final(self).max_handle_len() == old(self).max_handle_len(),
            match old(self)@.create_error(
                old(self).min_handle_len(),
                old(self).max_handle_len(),
                handle_view(handle_opt),
                cid_ok,
            ) {
                Some(e) => r == Err::<Event, Error>(e) && final(self)@ == old(self)@,
                None => r == Ok::<Event, Error>(
                    Event::SpaceCreated(created.account, old(self)@.next_space_id),
                ) && final(self)@ == old(self)@.create(
                    created,
                    handle_view(handle_opt),
                    ipfs_hash@,
                ),
            },
    {
        let handle_in_lowercase = match self.check_new_space(&handle_opt, cid_ok) {
            Ok(handle_in_lowercase) => handle_in_lowercase,
            Err(e) => {
                return Err(e);
            },
        };
        let new_space = Space::new(self.next_space_id, created, ipfs_hash, handle_opt);
        Ok(self.insert_space(created.account, new_space, handle_in_lowercase))
    }

    /// Creates a space in the name of `created.account`: it gets the next id, is visible,
    /// and is entered among the spaces of its creator; its handle, in small letters, is
    /// assigned to it. The call is refused if the hash is no content identifier or the
    /// handle is not valid or taken.
    pub fn create_space(
        &mut self,
        created: WhoAndWhen,
        handle_opt: Option<Vec<u8>>,
        ipfs_hash: Vec<u8>,
    ) -> (r: Result<Event, Error>)
        requires
            old(self)@.next_space_id < u64::MAX,
        ensures
            final(self).min_handle_len() == old(self).min_handle_len(),
            final(self).max_handle_len() == old(self).max_handle_len(),
            match old(self)@.create_error(
                old(self).min_handle_len(),
                old(self).max_handle_len(),
                handle_view(handle_opt),
                is_cid(ipfs_hash@),
            ) {
                Some(e) => r == Err::<Event, Error>(e) && final(self)@ == old(self)@,
                None => r == Ok::<Event, Error>(
                    Event::SpaceCreated(created.account, old(self)@.next_space_id),
                ) && final(self)@ == old(self)@.create(
                    created,
                    handle_view(handle_opt),
                    ipfs_hash@,
                ),
            },
    {
        let cid_ok = is_ipfs_hash_valid(&ipfs_hash);
        self.create_space_with(created, handle_opt, ipfs_hash, cid_ok)
    }
}

/// Whether `ipfs_hash` is a content identifier.
pub fn is_ipfs_hash_valid(ipfs_hash: &Vec<u8>) -> (r: bool)
    ensures
        r == is_cid(ipfs_hash@),
{
    let content = Content::IPFS(copy_bytes(ipfs_hash));
    proof {
        assert(cid_bytes(content) == ipfs_hash@);
    }
    crate::utils::Module::is_valid_content(content).is_ok()
}

/// The bytes of the hash that `update` brings, if it brings one.
pub open spec fn new_hash(update: SpaceUpdateView) -> Seq<u8> {
    match update.ipfs_hash {
        Some(bytes) => bytes,
        None => Seq::empty(),
    }
}

impl Module {
    /// Updates the space `space_id` in the name of `edited.account`, given whether the
    /// account may do so and whether the new hash is a content identifier.
    ///
    /// Each field that `update` names and that differs from the space is changed, and the
    /// edit is recorded with the former values; `None` is returned if no field differs.
    pub fn update_space_with(
        &mut self,
        edited: WhoAndWhen,
        space_id: SpaceId,
        update: SpaceUpdate,
        has_permission: bool,
        cid_ok: bool,
    ) -> (r: Result<Option<Event>, Error>)
        ensures
            final(self).min_handle_len() == old(self).min_handle_len(),
            final(self).max_handle_len() == old(self).max_handle_len(),
            match old(self)@.update_error(
                old(self).min_handle_len(),
                old(self).max_handle_len(),
                space_id,
                update@,
                has_permission,
                cid_ok,
            ) {
                Some(e) => r == Err::<Option<Event>, Error>(e) && final(self)@ == old(self)@,
                None => r == Ok::<Option<Event>, Error>(
                    if Edit::of(old(self)@.space_by_id[space_id], update@).changed {
                        Some(Event::SpaceUpdated(edited.account, space_id))
                    } else {
                        None
                    },
                ) && final(self)@ == old(self)@.update(edited, space_id, update@),
            },
    {
        let ghost pre = self@;
        let ghost change = update@;
        let has_updates = update.handle.is_some() || update.ipfs_hash.is_some()
            || update.hidden.is_some();
        if !has_updates {
            return Err(Error::NoUpdatesForSpace);
        }
        let space = match self.space_by_id.get(&space_id) {
            Some(space) => space,
            None => {
                return Err(Error::SpaceNotFound);
            },
        };
        if !has_permission {
            return Err(Error::NoPermissionToUpdateSpace);
        }
        let hash_changes = match &update.ipfs_hash {
            Some(ipfs_hash) => !same_bytes(ipfs_hash, &space.ipfs_hash),
            None => false,
        };
        if hash_changes && !cid_ok {
            return Err(Error::InvalidIpfsCid);
        }
        let hidden_changes = match update.hidden {
            Some(hidden) => hidden != space.hidden,
            None => false,
        };
        let handle_changes = match &update.handle {
            Some(handle_opt) => !same_handle(handle_opt, &space.handle),
            None => false,
        };
        let mut handle_in_lowercase: Option<Vec<u8>> = None;
        if handle_changes {
            match &update.handle {
                Some(Some(new_handle)) => {
                    match self.lowercase_and_validate_a_handle(copy_bytes(new_handle)) {
                        Ok(lowered) => {
                            handle_in_lowercase = Some(lowered);
                        },
                        Err(e) => {
                            return Err(e);
                        },
                    }
                },
                _ => {},
            }
        }
        if !hash_changes && !hidden_changes && !handle_changes {
            proof {
                assert(self@.space_by_id =~= pre.update(edited, space_id, change).space_by_id);
            }
            return Ok(None);
        }
        let space = self.space_by_id.remove(&space_id).unwrap();
        let ghost before = space@;
        let Space {
            id,
            created,
            updated: _,
            hidden: old_hidden,
            owner,
            handle: old_handle,
            ipfs_hash: old_ipfs_hash,
            edit_history,
            score,
        } = space;
        let SpaceUpdate { handle: new_handle, ipfs_hash: new_ipfs_hash, hidden: new_hidden } =
            update;
        let mut edit_history = edit_history;
        let mut old_data = SpaceUpdate { handle: None, ipfs_hash: None, hidden: None };
        let ipfs_hash = if hash_changes {
            old_data.ipfs_hash = Some(old_ipfs_hash);
            new_ipfs_hash.unwrap()
        } else {
            old_ipfs_hash
        };
        let hidden = if hidden_changes {
            old_data.hidden = Some(old_hidden);
            new_hidden.unwrap()
        } else {
            old_hidden
        };
        let handle = if handle_changes {
            match handle_in_lowercase {
                Some(lowered) => {
                    insert_handle(&mut self.space_id_by_handle, lowered, space_id);
                },
                None => {},
            }
            match &old_handle {
                Some(former) => {
                    remove_handle(&mut self.space_id_by_handle, former);
                },
                None => {},
            }
            old_data.handle = Some(old_handle);
            new_handle.unwrap()
        } else {
            old_handle
        };
        let record = SpaceHistoryRecord { edited, old_data };
        let ghost record_view = record@;
        let ghost history = edit_history@.map_values(|r: SpaceHistoryRecord| r@);
        edit_history.push(record);
        proof {
            assert(edit_history@.map_values(|r: SpaceHistoryRecord| r@) =~= history.push(
                record_view,
            ));
        }
        let space = Space {
            id,
            created,
            updated: Some(edited),
            hidden,
            owner,
            handle,
            ipfs_hash,
            edit_history,
            score,
        };
        proof {
            let edit = Edit::of(before, change);
            assert(edit.changed);
            assert(space@ == edit.finish(edited));
        }
        self.space_by_id.insert(space_id, space);
        proof {
            let post = pre.update(edited, space_id, change);
            assert(self@.space_by_id =~= post.space_by_id);
            assert(self@.space_ids_by_owner =~= post.space_ids_by_owner);
            assert(self@.space_id_by_handle =~= post.space_id_by_handle);
        }
        Ok(Some(Event::SpaceUpdated(edited.account, space_id)))
    }

    /// Updates the space `space_id` in the name of `edited.account`, given whether the
    /// account may do so. A new hash has to be a content identifier, a new handle has to be
    /// valid and free.
    pub fn update_space(
        &mut self,
        edited: WhoAndWhen,
        space_id: SpaceId,
        update: SpaceUpdate,
        has_permission: bool,
    ) -> (r: Result<Option<Event>, Error>)
        ensures
            final(self).min_handle_len() == old(self).min_handle_len(),
            final(self).max_handle_len() == old(self).max_handle_len(),
            match old(self)@.update_error(
                old(self).min_handle_len(),
                old(self).max_handle_len(),
                space_id,
                update@,
                has_permission,
                is_cid(new_hash(update@)),
            ) {
                Some(e) => r == Err::<Option<Event>, Error>(e) && final(self)@ == old(self)@,
                None => r == Ok::<Option<Event>, Error>(
                    if Edit::of(old(self)@.space_by_id[space_id], update@).changed {
                        Some(Event::SpaceUpdated(edited.account, space_id))
                    } else {
                        None
                    },
                ) && final(self)@ == old(self)@.update(edited, space_id, update@),
            },
    {
        let cid_ok = match &update.ipfs_hash {
            Some(ipfs_hash) => is_ipfs_hash_valid(ipfs_hash),
            None => false,
        };
        proof {
            if update.ipfs_hash is None {
                assert(self@.update_error(
                    self.min_handle_len(),
                    self.max_handle_len(),
                    space_id,
                    update@,
                    has_permission,
                    false,
                ) == self@.update_error(
                    self.min_handle_len(),
                    self.max_handle_len(),
                    space_id,
                    update@,
                    has_permission,
                    is_cid(new_hash(update@)),
                ));
            }
        }
        self.update_space_with(edited, space_id, update, has_permission, cid_ok)
    }
}

} // verus!
