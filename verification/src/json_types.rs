//! The shapes in which records are handed out to callers.
use vstd::prelude::*;
use crate::types::{Proposal, ProposalView, Task, TaskView, UserType};

verus! {

/// A proposal as handed out.
pub struct WrappedProposal {
    pub account_id: String,
    pub proof_of_work: String,
    pub is_approved: bool,
    pub is_reject: bool,
}

pub struct WrappedProposalView {
    pub account_id: Seq<char>,
    pub proof_of_work: Seq<char>,
    pub is_approved: bool,
    pub is_reject: bool,
}

impl View for WrappedProposal {
    type V = WrappedProposalView;

    open spec fn view(&self) -> WrappedProposalView {
        WrappedProposalView {
            account_id: self.account_id@,
            proof_of_work: self.proof_of_work@,
            is_approved: self.is_approved,
            is_reject: self.is_reject,
        }
    }
}

/// A proposal as handed out: the same fields, with the rejection flag named
/// `is_reject`.
pub open spec fn wrap_proposal(p: ProposalView) -> WrappedProposalView {
    WrappedProposalView {
        account_id: p.account_id,
        proof_of_work: p.proof_of_work,
        is_approved: p.is_approved,
        is_reject: p.is_rejected,
    }
}

impl WrappedProposal {
    pub fn from(proposal: Proposal) -> (r: WrappedProposal)
        ensures
            r@ == wrap_proposal(proposal@),
    {
        WrappedProposal {
            account_id: proposal.account_id,
            proof_of_work: proposal.proof_of_work,
            is_approved: proposal.is_approved,
            is_reject: proposal.is_rejected,
        }
    }
}

/// The role of a user as handed out.
#[derive(Clone, Copy, PartialEq, Eq, Structural, Debug)]
pub enum WrappedUserType {
    Requester { total_transfered: u128, current_requests: u16 },
    Worker { total_received: u128, current_applies: u16 },
}

/// The same role and amounts.
pub open spec fn wrap_user_type(t: UserType) -> WrappedUserType {
    match t {
        UserType::Requester { total_transfered, current_requests } => WrappedUserType::Requester {
            total_transfered,
            current_requests,
        },
        UserType::Worker { total_received, current_applies } => WrappedUserType::Worker {
            total_received,
            current_applies,
        },
    }
}

impl WrappedUserType {
    pub fn from(user_type: UserType) -> (r: WrappedUserType)
        ensures
            r == wrap_user_type(user_type),
    {
        match user_type {
            UserType::Requester { total_transfered, current_requests } => WrappedUserType::Requester {
                total_transfered,
                current_requests,
            },
            UserType::Worker { total_received, current_applies } => WrappedUserType::Worker {
                total_received,
                current_applies,
            },
        }
    }
}

/// A task as handed out: its proposals become a list, in their order.
pub struct WrappedTask {
    pub owner: String,
    pub title: String,
    pub description: String,
    pub max_participants: u16,
    pub price: u128,
    pub proposals: Vec<WrappedProposal>,
    pub created_at: u64,
    pub available_until: u64,
    pub category_id: String,
}

pub struct WrappedTaskView {
    pub owner: Seq<char>,
    pub title: Seq<char>,
    pub description: Seq<char>,
    pub max_participants: u16,
    pub price: u128,
    pub proposals: Seq<WrappedProposalView>,
    pub created_at: u64,
    pub available_until: u64,
    pub category_id: Seq<char>,
}

impl View for WrappedTask {
    type V = WrappedTaskView;

    open spec fn view(&self) -> WrappedTaskView {
        WrappedTaskView {
            owner: self.owner@,
            title: self.title@,
            description: self.description@,
            max_participants: self.max_participants,
            price: self.price,
            proposals: self.proposals@.map_values(|p: WrappedProposal| p@),
            created_at: self.created_at,
            available_until: self.available_until,
            category_id: self.category_id@,
        }
    }
}

/// The task with its proposals listed in the order of the task's proposals.
pub open spec fn wrap_task(t: TaskView) -> WrappedTaskView {
    WrappedTaskView {
        owner: t.owner,
        title: t.title,
        description: t.description,
        max_participants: t.max_participants,
        price: t.price,
        proposals: t.proposals.map_values(|e: (Seq<char>, ProposalView)| wrap_proposal(e.1)),
        created_at: t.created_at,
        available_until: t.available_until,
        category_id: t.category_id,
    }
}

impl WrappedTask {
    pub fn from(task: Task) -> (r: WrappedTask)
        ensures
            r@ == wrap_task(task@),
    {
        let mut proposals: Vec<WrappedProposal> = Vec::new();
        let n = task.proposals.len();
        for i in 0..n
            invariant
                n == task.proposals@.len(),
                proposals@.len() == i,
                forall|j: int|
                    0 <= j < i ==> (#[trigger] proposals@[j])@ == wrap_proposal(
                        task.proposals@[j].1,
                    ),
        {
            let p = task.proposals.value_at(i);
            proposals.push(
                WrappedProposal {
                    account_id: p.account_id.clone(),
                    proof_of_work: p.proof_of_work.clone(),
                    is_approved: p.is_approved,
                    is_reject: p.is_rejected,
                },
            );
        }
        let r = WrappedTask {
            owner: task.owner,
            title: task.title,
            description: task.description,
            max_participants: task.max_participants,
            price: task.price,
            proposals,
            created_at: task.created_at,
            available_until: task.available_until,
            category_id: task.category_id,
        };
        assert(r@.proposals =~= wrap_task(task@).proposals);
        r
    }
}

/// A user as handed out.
pub struct WrappedUser {
    pub account_id: String,
    pub bio: String,
    pub user_type: UserType,
    pub completed_jobs: Vec<String>,
}

pub struct WrappedUserView {
    pub account_id: Seq<char>,
    pub bio: Seq<char>,
    pub user_type: UserType,
    pub completed_jobs: Seq<Seq<char>>,
}

impl View for WrappedUser {
    type V = WrappedUserView;

    open spec fn view(&self) -> WrappedUserView {
        WrappedUserView {
            account_id: self.account_id@,
            bio: self.bio@,
            user_type: self.user_type,
            completed_jobs: self.completed_jobs@.map_values(|s: String| s@),
        }
    }
}

} // verus!
