//! A space and the record of its edits.

use crate::utils::{AccountId, SpaceId, WhoAndWhen};
use sp_std::vec::Vec;
use vstd::prelude::*;

verus! {

/// Why an operation on spaces was refused.
#[derive(Clone, Copy, Debug, PartialEq, Eq, Structural)]
pub enum Error {
    /// There is no space with this id.
    SpaceNotFound,
    /// The handle is shorter than allowed.
    HandleIsTooShort,
    /// The handle is longer than allowed.
    HandleIsTooLong,
    /// Another space has this handle.
    HandleIsNotUnique,
    /// The handle holds a character other than `0-9`, `a-z` and `_`.
    HandleContainsInvalidChars,
    /// The update names nothing to change.
    NoUpdatesForSpace,
    /// The account is not the owner of the space.
    NotASpaceOwner,
    /// The account may not update the space.
    NoPermissionToUpdateSpace,
    /// The bytes given as IPFS hash are no content identifier.
    InvalidIpfsCid,
}

/// What a change to spaces has done.
#[derive(Clone, Copy, Debug, PartialEq, Eq, Structural)]
pub enum Event {
    /// The account created the space.
    SpaceCreated(AccountId, SpaceId),
    /// The account updated the space.
    SpaceUpdated(AccountId, SpaceId),
    /// The account deleted the space.
    SpaceDeleted(AccountId, SpaceId),
}

/// The bytes of a handle, if there is one.
pub open spec fn handle_view(handle: Option<Vec<u8>>) -> Option<Seq<u8>> {
    match handle {
        Some(bytes) => Some(bytes@),
        None => None,
    }
}

/// The fields of a space that are to change; `handle: Some(None)` takes the handle away.
#[derive(Clone, Debug, PartialEq, Eq)]
pub struct SpaceUpdate {
    pub handle: Option<Option<Vec<u8>>>,
    pub ipfs_hash: Option<Vec<u8>>,
    pub hidden: Option<bool>,
}

/// What a `SpaceUpdate` holds.
pub struct SpaceUpdateView {
    pub handle: Option<Option<Seq<u8>>>,
    pub ipfs_hash: Option<Seq<u8>>,
    pub hidden: Option<bool>,
}

impl View for SpaceUpdate {
    type V = SpaceUpdateView;

    open spec fn view(&self) -> SpaceUpdateView {
        SpaceUpdateView {
            handle: match self.handle {
                Some(handle) => Some(handle_view(handle)),
                None => None,
            },
            ipfs_hash: handle_view(self.ipfs_hash),
            hidden: self.hidden,
        }
    }
}

impl SpaceUpdateView {
    /// Whether the update names a field.
    pub open spec fn has_updates(self) -> bool {
        self.handle is Some || self.ipfs_hash is Some || self.hidden is Some
    }
}

/// One edit of a space: who made it, and the former values of the fields it changed.
#[derive(Clone, Debug, PartialEq, Eq)]
pub struct SpaceHistoryRecord {
    pub edited: WhoAndWhen,
    pub old_data: SpaceUpdate,
}

/// What a `SpaceHistoryRecord` holds.
pub struct SpaceHistoryRecordView {
    pub edited: WhoAndWhen,
    pub old_data: SpaceUpdateView,
}

impl View for SpaceHistoryRecord {
    type V = SpaceHistoryRecordView;

    open spec fn view(&self) -> SpaceHistoryRecordView {
        SpaceHistoryRecordView { edited: self.edited, old_data: self.old_data@ }
    }
}

/// A space.
#[derive(Clone, Debug, PartialEq, Eq)]
pub struct Space {
    pub id: SpaceId,
    pub created: WhoAndWhen,
    pub updated: Option<WhoAndWhen>,
    pub hidden: bool,
    pub owner: AccountId,
    pub handle: Option<Vec<u8>>,
    pub ipfs_hash: Vec<u8>,
    pub edit_history: Vec<SpaceHistoryRecord>,
    pub score: i32,
}

/// What a `Space` holds.
pub struct SpaceView {
    pub id: SpaceId,
    pub created: WhoAndWhen,
    pub updated: Option<WhoAndWhen>,
    pub hidden: bool,
    pub owner: AccountId,
    pub handle: Option<Seq<u8>>,
    pub ipfs_hash: Seq<u8>,
    pub edit_history: Seq<SpaceHistoryRecordView>,
    pub score: i32,
}

impl View for Space {
    type V = SpaceView;

    open spec fn view(&self) -> SpaceView {
        SpaceView {
            id: self.id,
            created: self.created,
            updated: self.updated,
            hidden: self.hidden,
            owner: self.owner,
            handle: handle_view(self.handle),
            ipfs_hash: self.ipfs_hash@,
            edit_history: self.edit_history@.map_values(|r: SpaceHistoryRecord| r@),
            score: self.score,
        }
    }
}

impl SpaceView {
    /// The space `id` as `created.account` creates it: visible, never edited, with a score
    /// of zero.
    pub open spec fn new(
        id: SpaceId,
        created: WhoAndWhen,
        ipfs_hash: Seq<u8>,
        handle: Option<Seq<u8>>,
    ) -> SpaceView {
        SpaceView {
            id,
            created,
            updated: None,
            hidden: false,
            owner: created.account,
            handle,
            ipfs_hash,
            edit_history: Seq::empty(),
            score: 0,
        }
    }

    /// The score `score` moved by `diff`, but not beyond the least and the greatest score.
    pub open spec fn moved_score(score: i32, diff: i16) -> i32 {
        if score + diff > i32::MAX {
            i32::MAX
        } else if score + diff < i32::MIN {
            i32::MIN
        } else {
            (score + diff) as i32
        }
    }
}

impl Space {
    /// The space `id` as `created.account` creates it: visible, never edited, with a score
    /// of zero.
    pub fn new(
        id: SpaceId,
        created: WhoAndWhen,
        ipfs_hash: Vec<u8>,
        handle: Option<Vec<u8>>,
    ) -> (r: Space)
        ensures
            r@ == SpaceView::new(id, created, ipfs_hash@, handle_view(handle)),
    {
        let r = Space {
            id,
            created,
            updated: None,
            hidden: false,
            owner: created.account,
            handle,
            ipfs_hash,
            edit_history: Vec::new(),
            score: 0,
        };
        proof {
            assert(r@.edit_history =~= Seq::empty());
        }
        r
    }

    /// Whether `account` is the owner of the space.
    pub fn is_owner(&self, account: &AccountId) -> (r: bool)
        ensures
            r == (self.owner == *account),
    {
        self.owner == *account
    }

    /// Refuses every account but the owner of the space.
    pub fn ensure_space_owner(&self, account: AccountId) -> (r: Result<(), Error>)
        ensures
            r == (if self.owner == account {
                Ok::<(), Error>(())
            } else {
                Err::<(), Error>(Error::NotASpaceOwner)
            }),
    {
        if !self.is_owner(&account) {
            return Err(Error::NotASpaceOwner);
        }
        Ok(())
    }

    /// Moves the score by `diff`, but not beyond the least and the greatest score. Nothing
    /// else changes.
    pub fn change_score(&mut self, diff: i16)
        ensures
            final(self)@ == (SpaceView {
                score: SpaceView::moved_score(old(self).score, diff),
                ..old(self)@
            }),
    {
        let moved: i64 = self.score as i64 + diff as i64;
        if moved > i32::MAX as i64 {
            self.score = i32::MAX;
        } else if moved < i32::MIN as i64 {
            self.score = i32::MIN;
        } else {
            self.score = moved as i32;
        }
    }
}

} // verus!
