//! What a call brings with it, what it can be refused with, and the payments
//! it asks the chain to make.
use vstd::prelude::*;

verus! {

/// The facts of the chain that a call sees.
pub struct Context {
    /// The account that made the call.
    pub predecessor_account_id: String,
    /// The account of the contract itself.
    pub current_account_id: String,
    /// The amount attached to the call.
    pub attached_deposit: u128,
    pub block_timestamp: u64,
    pub block_index: u64,
}

pub struct ContextView {
    pub predecessor: Seq<char>,
    pub current: Seq<char>,
    pub deposit: u128,
    pub timestamp: u64,
    pub block_index: u64,
}

impl View for Context {
    type V = ContextView;

    open spec fn view(&self) -> ContextView {
        ContextView {
            predecessor: self.predecessor_account_id@,
            current: self.current_account_id@,
            deposit: self.attached_deposit,
            timestamp: self.block_timestamp,
            block_index: self.block_index,
        }
    }
}

/// The outcome of an earlier payment, as a callback sees it.
#[derive(Clone, Copy, PartialEq, Eq, Structural, Debug)]
pub enum PromiseStatus {
    NotReady,
    Successful,
    Failed,
}

/// A payment of `amount` to `receiver_id`.
pub struct Transfer {
    pub receiver_id: String,
    pub amount: u128,
}

pub struct TransferView {
    pub receiver_id: Seq<char>,
    pub amount: u128,
}

impl View for Transfer {
    type V = TransferView;

    open spec fn view(&self) -> TransferView {
        TransferView { receiver_id: self.receiver_id@, amount: self.amount }
    }
}

/// The call of `on_transferd` that follows the payment of an approved worker.
pub struct TransferCallback {
    pub task_id: String,
    pub beneficiary_id: String,
    pub amount_to_transfer: u128,
}

pub struct TransferCallbackView {
    pub task_id: Seq<char>,
    pub beneficiary_id: Seq<char>,
    pub amount_to_transfer: u128,
}

impl View for TransferCallback {
    type V = TransferCallbackView;

    open spec fn view(&self) -> TransferCallbackView {
        TransferCallbackView {
            task_id: self.task_id@,
            beneficiary_id: self.beneficiary_id@,
            amount_to_transfer: self.amount_to_transfer,
        }
    }
}

/// Why a call is refused. A refused call changes nothing.
#[derive(Clone, Copy, PartialEq, Eq, Structural, Debug)]
pub enum ContractError {
    /// An account identifier is not a valid NEAR account.
    InvalidAccountId,
    /// Registration needs exactly the register bond.
    RegisterBondMismatch,
    /// The caller is not a member.
    NotMember,
    /// The account has no user record.
    UserNotFound,
    /// The price times the number of participants does not fit.
    TotalAmountOverflow,
    /// The deposit is not the price times the number of participants.
    DepositMismatch,
    /// The escrow is outside the allowed range.
    TotalAmountOutOfRange,
    /// Only a requester can create a task.
    OnlyRequester,
    DescriptionTooLong,
    /// More participants than a task may ask for.
    TooManyParticipants,
    /// The caller already posted a task in this block.
    DuplicateTaskInBlock,
    CategoryNotFound,
    TaskNotFound,
    /// Only the owner of the task may do this.
    NotTaskOwner,
    ProposalNotFound,
    AlreadyRejected,
    AlreadyApproved,
    /// Some proposal is neither approved nor rejected.
    WorkUnchecked,
    /// The refund does not fit.
    RefundOverflow,
    /// The task has not expired and still lacks approved work.
    NotExpired,
    OwnerNotFound,
    WorkerNotFound,
    /// The requester has no open request to close.
    NoCurrentRequests,
    /// The worker has no open application to close.
    NoCurrentApplies,
    /// A submission needs exactly the submit bond.
    SubmitBondMismatch,
    /// The task has expired.
    TaskExpired,
    /// As many proposals as the task asks for are approved.
    ParticipantsFull,
    /// A callback was called by another account than the contract.
    NotSelfCallback,
    /// A callback was called without exactly one earlier result.
    NotACallback,
    /// The category name is too long.
    TitleTooLong,
    CategoryExists,
    /// A counter or an amount would leave its range.
    ArithmeticOverflow,
}

} // verus!
