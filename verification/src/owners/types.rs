//! The records that the owners module keeps, and what its operations report.

pub use crate::utils::WhoAndWhen;
use crate::utils::{AccountId, BlockNumber, SpaceId};
use sp_std::vec::Vec;
use vstd::prelude::*;

verus! {

/// Identifier of a change proposal.
pub type TransactionId = u64;

/// Why an operation was refused.
#[derive(Clone, Copy, Debug, PartialEq, Eq, Structural)]
pub enum Error {
    /// The space has no owner set.
    SpaceOwnersNotFound,
    /// There is no proposal with this id.
    TxNotFound,
    /// The space has an owner set already.
    SpaceOwnersAlreadyExist,
    /// There are fewer owners than the configuration allows.
    NotEnoughOwners,
    /// There are more owners than the configuration allows.
    TooManyOwners,
    /// The account is not an owner of the space.
    NotASpaceOwner,
    /// The threshold is zero.
    ZeroThreshold,
    /// The threshold is greater than the number of owners.
    TooBigThreshold,
    /// The notes are longer than the configuration allows.
    TxNotesOversize,
    /// The proposal would leave the space without owners.
    NoSpaceOwnersLeft,
    /// The proposal names no owner to add or remove and no threshold.
    NoUpdatesProposed,
    /// The proposal would change neither the owners nor the threshold.
    NoFieldsUpdatedOnProposal,
    /// The account has confirmed this proposal already.
    TxAlreadyConfirmed,
    /// The proposal is not the pending one of this space.
    TxNotRelatedToSpace,
    /// The space has a pending proposal already.
    PendingTxAlreadyExists,
    /// The space has no pending proposal.
    PendingTxDoesNotExist,
    /// The account did not make this proposal.
    NotAProposalCreator,
}

/// What an operation that succeeded has done.
#[derive(Clone, Copy, Debug, PartialEq, Eq, Structural)]
pub enum Event {
    /// The account created the owner set of the space.
    SpaceOwnersCreated(AccountId, SpaceId),
    /// The account proposed a change to the owners of the space.
    ChangeProposed(AccountId, SpaceId, TransactionId),
    /// The account withdrew its proposal for the space.
    ProposalCanceled(AccountId, SpaceId),
    /// The account confirmed the proposal for the space.
    ChangeConfirmed(AccountId, SpaceId, TransactionId),
    /// The confirmation of the account put the proposal for the space into effect.
    SpaceOwnersUpdated(AccountId, SpaceId, TransactionId),
}

/// The limits that the host sets.
#[derive(Clone, Copy, Debug, PartialEq, Eq, Structural)]
pub struct Config {
    /// The least number of owners that a new owner set may have.
    pub min_space_owners: u16,
    /// The greatest number of owners that a new owner set may have.
    pub max_space_owners: u16,
    /// The greatest length of the notes of a proposal.
    pub max_tx_notes_length: u16,
    /// The number of blocks after which a proposal expires.
    pub blocks_to_live: BlockNumber,
    /// The number of blocks from one removal of expired proposals to the next.
    pub clean_expired_txs_period: BlockNumber,
}

impl Config {
    /// A configuration can be used if its cleaning period is not zero.
    pub open spec fn valid(self) -> bool {
        self.clean_expired_txs_period > 0
    }
}

/// The owners of a space.
#[derive(Clone, Debug, PartialEq, Eq)]
pub struct SpaceOwners {
    pub created: WhoAndWhen,
    pub space_id: SpaceId,
    pub owners: Vec<AccountId>,
    pub threshold: u16,
    pub changes_count: u64,
}

/// What a `SpaceOwners` record holds.
pub struct SpaceOwnersView {
    pub created: WhoAndWhen,
    pub space_id: SpaceId,
    pub owners: Seq<AccountId>,
    pub threshold: u16,
    pub changes_count: u64,
}

impl View for SpaceOwners {
    type V = SpaceOwnersView;

    open spec fn view(&self) -> SpaceOwnersView {
        SpaceOwnersView {
            created: self.created,
            space_id: self.space_id,
            owners: self.owners@,
            threshold: self.threshold,
            changes_count: self.changes_count,
        }
    }
}

impl SpaceOwnersView {
    /// An owner set has at least one owner, lists none twice, and asks for at least one
    /// confirmation.
    pub open spec fn wf(self) -> bool {
        &&& self.owners.len() >= 1
        &&& self.owners.no_duplicates()
        &&& self.threshold >= 1
    }

    /// Whether the owners can reach the threshold: it asks for no more confirmations than
    /// there are owners.
    pub open spec fn threshold_in_reach(self) -> bool {
        self.threshold <= self.owners.len()
    }
}

/// A proposal to change the owners of a space or its threshold.
#[derive(Clone, Debug, PartialEq, Eq)]
pub struct Transaction {
    pub created: WhoAndWhen,
    pub id: TransactionId,
    pub space_id: SpaceId,
    pub add_owners: Vec<AccountId>,
    pub remove_owners: Vec<AccountId>,
    pub new_threshold: Option<u16>,
    pub notes: Vec<u8>,
    pub confirmed_by: Vec<AccountId>,
    pub expires_at: BlockNumber,
}

/// What a `Transaction` record holds.
pub struct TransactionView {
    pub created: WhoAndWhen,
    pub id: TransactionId,
    pub space_id: SpaceId,
    pub add_owners: Seq<AccountId>,
    pub remove_owners: Seq<AccountId>,
    pub new_threshold: Option<u16>,
    pub notes: Seq<u8>,
    pub confirmed_by: Seq<AccountId>,
    pub expires_at: BlockNumber,
}

impl View for Transaction {
    type V = TransactionView;

    open spec fn view(&self) -> TransactionView {
        TransactionView {
            created: self.created,
            id: self.id,
            space_id: self.space_id,
            add_owners: self.add_owners@,
            remove_owners: self.remove_owners@,
            new_threshold: self.new_threshold,
            notes: self.notes@,
            confirmed_by: self.confirmed_by@,
            expires_at: self.expires_at,
        }
    }
}

} // verus!
