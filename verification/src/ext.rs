//! The callbacks the contract schedules on itself after a payment.
use vstd::prelude::*;
use crate::context::{Context, ContextView, ContractError, PromiseStatus};
use crate::contract::{Dupwork, follows_with, approved_count, complete_job};
use crate::model::{on_transferd_outcome, on_refund_outcome};
use crate::text::check_account_id;
use crate::types::UserType;

verus! {

/// The callback that follows the payment of an approved worker.
pub trait ExtDupwork: Sized {
    /// The state the callback may be called in.
    spec fn ready(&self) -> bool;

    /// What the callback does: `post` and `r` are what a call on `pre`
    /// leaves and returns.
    spec fn records_transfer(
        pre: Self,
        post: Self,
        ctx: ContextView,
        promise_results: Seq<PromiseStatus>,
        task_id: Seq<char>,
        beneficiary_id: Seq<char>,
        amount_to_transfer: u128,
        r: Result<bool, ContractError>,
    ) -> bool;

    /// Records the approval of `beneficiary_id`'s proposal once the payment
    /// of `amount_to_transfer` succeeded.
    fn on_transferd(
        &mut self,
        ctx: &Context,
        promise_results: &Vec<PromiseStatus>,
        task_id: String,
        beneficiary_id: String,
        amount_to_transfer: u128,
    ) -> (r: Result<bool, ContractError>)
        requires
            old(self).ready(),
        ensures
            final(self).ready(),
            Self::records_transfer(
                *old(self),
                *final(self),
                ctx@,
                promise_results@,
                task_id@,
                beneficiary_id@,
                amount_to_transfer,
                r,
            ),
    ;
}

impl ExtDupwork for Dupwork {
    open spec fn ready(&self) -> bool {
        self.wf()
    }

    open spec fn records_transfer(
        pre: Dupwork,
        post: Dupwork,
        ctx: ContextView,
        promise_results: Seq<PromiseStatus>,
        task_id: Seq<char>,
        beneficiary_id: Seq<char>,
        amount_to_transfer: u128,
        r: Result<bool, ContractError>,
    ) -> bool {
        follows_with(
            on_transferd_outcome(
                pre@,
                ctx,
                promise_results,
                task_id,
                beneficiary_id,
                amount_to_transfer,
            ),
            r,
            pre@,
            post@,
        )
    }

    fn on_transferd(
        &mut self,
        ctx: &Context,
        promise_results: &Vec<PromiseStatus>,
        task_id: String,
        beneficiary_id: String,
        amount_to_transfer: u128,
    ) -> (r: Result<bool, ContractError>)
        ensures
            final(self).wf(),
            follows_with(
                on_transferd_outcome(
                    old(self)@,
                    ctx@,
                    promise_results@,
                    task_id@,
                    beneficiary_id@,
                    amount_to_transfer,
                ),
                r,
                old(self)@,
                final(self)@,
            ),
    {
        if !check_account_id(&beneficiary_id) {
            return Err(ContractError::InvalidAccountId);
        }
        if !(ctx.predecessor_account_id == ctx.current_account_id) {
            return Err(ContractError::NotSelfCallback);
        }
        if promise_results.len() != 1 {
            return Err(ContractError::NotACallback);
        }
        if promise_results[0] != PromiseStatus::Successful {
            return Ok(false);
        }
        let mut task = match self.tasks_get(&task_id) {
            None => return Err(ContractError::TaskNotFound),
            Some(t) => t,
        };
        let mut proposal = match task.proposals.get(&beneficiary_id) {
            None => return Err(ContractError::ProposalNotFound),
            Some(p) => p,
        };
        proposal.is_approved = true;
        task.proposals.insert(beneficiary_id.clone(), proposal);
        let mut worker = match self.users_get(&beneficiary_id) {
            None => return Err(ContractError::WorkerNotFound),
            Some(u) => u,
        };
        complete_job(&mut worker, &task_id);
        let owner_id = task.owner.clone();
        let full = (approved_count(&task.proposals) as u16) == task.max_participants;
        let owner_update = if full {
            match self.users_get(&owner_id) {
                None => return Err(ContractError::OwnerNotFound),
                Some(mut owner) => {
                    complete_job(&mut owner, &task_id);
                    Some(owner)
                },
            }
        } else {
            None
        };
        let worker_update = match worker.user_type {
            UserType::Worker { total_received, current_applies } => {
                if current_applies == 0 {
                    return Err(ContractError::NoCurrentApplies);
                }
                let received = match total_received.checked_add(amount_to_transfer) {
                    None => return Err(ContractError::ArithmeticOverflow),
                    Some(t) => t,
                };
                worker.user_type = UserType::Worker {
                    total_received: received,
                    current_applies: current_applies - 1,
                };
                Some(worker)
            },
            UserType::Requester { .. } => None,
        };
        self.tasks_put(task_id, task);
        match owner_update {
            Some(owner) => self.users_put(owner_id, owner),
            None => {},
        }
        match worker_update {
            Some(worker) => self.users_put(beneficiary_id, worker),
            None => {},
        }
        Ok(true)
    }
}

impl Dupwork {
    /// Records a refund to a requester once it succeeded.
    pub fn on_refund(
        &mut self,
        ctx: &Context,
        promise_results: &Vec<PromiseStatus>,
        task_id: String,
        owner_id: String,
        amount_to_transfer: u128,
    ) -> (r: Result<bool, ContractError>)
        requires
            old(self).wf(),
        ensures
            final(self).wf(),
            follows_with(
                on_refund_outcome(
                    old(self)@,
                    ctx@,
                    promise_results@,
                    task_id@,
                    owner_id@,
                    amount_to_transfer,
                ),
                r,
                old(self)@,
                final(self)@,
            ),
    {
        if !check_account_id(&owner_id) {
            return Err(ContractError::InvalidAccountId);
        }
        if !(ctx.predecessor_account_id == ctx.current_account_id) {
            return Err(ContractError::NotSelfCallback);
        }
        if promise_results.len() != 1 {
            return Err(ContractError::NotACallback);
        }
        if promise_results[0] != PromiseStatus::Successful {
            return Ok(false);
        }
        let mut owner = match self.users_get(&owner_id) {
            None => return Err(ContractError::OwnerNotFound),
            Some(u) => u,
        };
        complete_job(&mut owner, &task_id);
        match owner.user_type {
            UserType::Requester { total_transfered, current_requests } => {
                if current_requests == 0 {
                    return Err(ContractError::NoCurrentRequests);
                }
                let total = match total_transfered.checked_add(amount_to_transfer) {
                    None => return Err(ContractError::ArithmeticOverflow),
                    Some(t) => t,
                };
                owner.user_type = UserType::Requester {
                    total_transfered: total,
                    current_requests: current_requests - 1,
                };
                self.users_put(owner_id, owner);
            },
            UserType::Worker { .. } => {},
        }
        Ok(true)
    }
}

} // verus!
