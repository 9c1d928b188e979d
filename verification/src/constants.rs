//! The fixed amounts and limits of the marketplace.
use vstd::prelude::*;

verus! {

/// The bond a user attaches to register, returned when the user leaves.
pub const REGISTER_BOND: u128 = 500_000_000_000_000_000_000_000;

/// The bond a worker attaches to each submission, 0.1 NEAR; it is returned
/// with the payment of an approved proposal, or when the task closes.
pub const SUBMIT_BOND: u128 = 100_000_000_000_000_000_000_000;

/// The least a task may hold in escrow.
pub const MINIMUM_PRICE_PER_TASK: u128 = 2_000_000_000_000_000_000;

/// The most a task may hold in escrow.
pub const MAXIMUM_PRICE_PER_TASK: u128 = 100_000_000_000_000_000_000_000_000;

/// The longest task description, in bytes.
pub const MAXIMUM_DESCRIPTION_LENGTH: usize = 10000;

/// The longest cover letter, in bytes.
pub const MAXIMUM_COVER_LETTER_LENGTH: usize = 10000;

/// The most participants a task may ask for.
pub const MAXIMUM_PROPOSAL_AT_ONE_TIME: u16 = 200;

/// The most requests a user may have open.
pub const MAXIMUM_REQUEST_ACTIVE_PER_USER: u16 = 10;

/// The gas attached to the callback that follows a payment.
pub const DEFAULT_GAS_TO_PAY: u64 = 20_000_000_000_000;

/// The longest category name, in bytes.
pub const MAX_TITLE_LENGTH: usize = 100;

} // verus!
