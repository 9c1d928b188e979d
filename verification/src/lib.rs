//! The dWork job marketplace: requesters post paid tasks, workers submit
//! proofs of work, requesters approve or reject them and are refunded what
//! was not paid out.
pub mod constants;
pub mod behaviour;
pub mod context;
pub mod contract;
pub mod ext;
pub mod json_types;
pub mod invariants;
pub mod laws;
pub mod model;
pub mod table;
pub mod text;
pub mod types;
pub mod views;

pub use crate::constants::{
    MAXIMUM_PRICE_PER_TASK, MAXIMUM_PROPOSAL_AT_ONE_TIME, MINIMUM_PRICE_PER_TASK, REGISTER_BOND,
    SUBMIT_BOND,
};
pub use crate::context::{Context, ContractError, PromiseStatus, Transfer, TransferCallback};
pub use crate::contract::Dupwork;
pub use crate::ext::ExtDupwork;
pub use crate::json_types::{WrappedProposal, WrappedTask, WrappedUser, WrappedUserType};
pub use crate::types::{Category, Proposal, Task, User, UserType};
