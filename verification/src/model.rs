//! The contract as a state machine: its state, and what each call does to it.
//! A call either is refused with an error and changes nothing, or succeeds
//! with a new state and a result.
use vstd::prelude::*;
use crate::constants::{
    REGISTER_BOND, SUBMIT_BOND, MINIMUM_PRICE_PER_TASK, MAXIMUM_PRICE_PER_TASK,
    MAXIMUM_DESCRIPTION_LENGTH, MAXIMUM_PROPOSAL_AT_ONE_TIME, MAX_TITLE_LENGTH,
};
use crate::context::{ContextView, ContractError, PromiseStatus, TransferView, TransferCallbackView};
use crate::table::{keys_distinct, has_key, key_position, lookup, put, delete, set_add, set_drop};
use crate::text::{account_id_is_valid, byte_len, task_id_for, category_id_for};
use crate::types::{TaskView, UserView, ProposalView, CategoryView, UserType};

verus! {

/// The state of the contract.
pub struct DupworkView {
    /// The tasks, keyed by task identifier, oldest first.
    pub tasks: Seq<(Seq<char>, TaskView)>,
    /// The members, keyed by account.
    pub users: Seq<(Seq<char>, UserView)>,
    /// The categories, keyed by category identifier, oldest first.
    pub categories: Seq<(Seq<char>, CategoryView)>,
}

/// What the creator of a task put in escrow: the price for each participant.
pub open spec fn escrow(t: TaskView) -> int {
    t.max_participants * t.price
}

/// A stored task: no worker with two proposals, and its escrow within the
/// allowed range.
pub open spec fn task_ok(t: TaskView) -> bool {
    t.wf() && MINIMUM_PRICE_PER_TASK <= escrow(t) <= MAXIMUM_PRICE_PER_TASK
}

/// A stored user: no task twice in either list.
pub open spec fn user_ok(u: UserView) -> bool {
    u.wf()
}

/// Every value of the table satisfies `p`.
pub open spec fn all_values<A>(s: Seq<(Seq<char>, A)>, p: spec_fn(A) -> bool) -> bool {
    forall|i: int| 0 <= i < s.len() ==> p(#[trigger] s[i].1)
}

impl DupworkView {
    /// No key twice in any table or list, and every task's escrow within the
    /// allowed range.
    pub open spec fn wf(self) -> bool {
        &&& keys_distinct(self.tasks)
        &&& keys_distinct(self.users)
        &&& keys_distinct(self.categories)
        &&& all_values(self.tasks, |t: TaskView| task_ok(t))
        &&& all_values(self.users, |u: UserView| user_ok(u))
    }
}

/// Storing a value that satisfies `p` keeps every value satisfying `p`.
pub proof fn lemma_put_all<A>(s: Seq<(Seq<char>, A)>, k: Seq<char>, v: A, p: spec_fn(A) -> bool)
    requires
        all_values(s, p),
        p(v),
    ensures
        all_values(put(s, k, v), p),
{
    let t = put(s, k, v);
    assert forall|i: int| 0 <= i < t.len() implies p(#[trigger] t[i].1) by {
        if i < s.len() && t[i] == s[i] {
        } else {
            assert(t[i].1 == v);
        }
    }
}

/// Removing a key keeps every value satisfying `p`.
pub proof fn lemma_delete_all<A>(s: Seq<(Seq<char>, A)>, k: Seq<char>, p: spec_fn(A) -> bool)
    requires
        all_values(s, p),
    ensures
        all_values(delete(s, k), p),
{
    let t = delete(s, k);
    if has_key(s, k) {
        assert forall|i: int| 0 <= i < t.len() implies p(#[trigger] t[i].1) by {
            if i == key_position(s, k) {
                assert(t[i] == s[s.len() - 1]);
            } else {
                assert(t[i] == s[i]);
            }
        }
    }
}

/// A value found in the table satisfies what every value does.
pub proof fn lemma_lookup_all<A>(s: Seq<(Seq<char>, A)>, k: Seq<char>, p: spec_fn(A) -> bool)
    requires
        all_values(s, p),
        has_key(s, k),
    ensures
        p(lookup(s, k)->0),
{
    let i = key_position(s, k);
    assert(p(s[i].1));
}

/// A task within the escrow bounds pays its price and the submit bond
/// without overflow.
pub proof fn lemma_price_bounded(t: TaskView)
    requires
        task_ok(t),
    ensures
        t.price <= MAXIMUM_PRICE_PER_TASK,
        1 <= t.max_participants,
{
    let m = t.max_participants as int;
    let p = t.price as int;
    assert(m >= 1) by (nonlinear_arith)
        requires
            m * p >= 1,
            m >= 0,
            p >= 0,
    ;
    assert(p <= m * p) by (nonlinear_arith)
        requires
            m >= 1,
            p >= 0,
    ;
}

/// The bio a new member starts with.
pub open spec fn default_bio() -> Seq<char> {
    "A member of dWork"@
}

/// A new member with nothing done yet.
pub open spec fn new_user(account: Seq<char>, requester: bool) -> UserView {
    UserView {
        account_id: account,
        bio: default_bio(),
        user_type: if requester {
            UserType::Requester { total_transfered: 0, current_requests: 0 }
        } else {
            UserType::Worker { total_received: 0, current_applies: 0 }
        },
        current_jobs: Seq::empty(),
        completed_jobs: Seq::empty(),
    }
}

/// The number of approved proposals.
pub open spec fn count_approved(ps: Seq<(Seq<char>, ProposalView)>) -> nat
    decreases ps.len(),
{
    if ps.len() == 0 {
        0
    } else {
        count_approved(ps.drop_last()) + if ps.last().1.is_approved {
            1nat
        } else {
            0nat
        }
    }
}

/// Every proposal is approved or rejected.
pub open spec fn all_checked(ps: Seq<(Seq<char>, ProposalView)>) -> bool {
    forall|i: int| 0 <= i < ps.len() ==> (#[trigger] ps[i]).1.is_approved || ps[i].1.is_rejected
}

/// The user with the task moved from the open jobs to the completed ones.
pub open spec fn finish_job(u: UserView, task_id: Seq<char>) -> UserView {
    UserView {
        completed_jobs: set_add(u.completed_jobs, task_id),
        current_jobs: set_drop(u.current_jobs, task_id),
        ..u
    }
}

/// `register`: the caller becomes a requester or a worker, replacing any
/// earlier record of the same account.
pub open spec fn register_outcome(s: DupworkView, ctx: ContextView, requester: bool) -> Result<
    DupworkView,
    ContractError,
> {
    if ctx.deposit != REGISTER_BOND {
        Err(ContractError::RegisterBondMismatch)
    } else if !account_id_is_valid(ctx.predecessor) {
        Err(ContractError::InvalidAccountId)
    } else {
        Ok(
            DupworkView {
                users: put(s.users, ctx.predecessor, new_user(ctx.predecessor, requester)),
                ..s
            },
        )
    }
}

/// `leave`: the caller's record goes and the register bond is paid back.
pub open spec fn leave_outcome(s: DupworkView, ctx: ContextView) -> Result<
    (DupworkView, TransferView),
    ContractError,
> {
    if !account_id_is_valid(ctx.predecessor) {
        Err(ContractError::InvalidAccountId)
    } else if !has_key(s.users, ctx.predecessor) {
        Err(ContractError::NotMember)
    } else {
        Ok(
            (
                DupworkView { users: delete(s.users, ctx.predecessor), ..s },
                TransferView { receiver_id: ctx.predecessor, amount: REGISTER_BOND },
            ),
        )
    }
}

/// The arguments of `new_task`.
pub struct NewTaskArgs {
    pub title: Seq<char>,
    pub description: Seq<char>,
    pub price: u128,
    pub max_participants: u16,
    pub duration: u64,
    pub category_id: Seq<char>,
}

/// The task that `new_task` creates.
pub open spec fn created_task(ctx: ContextView, a: NewTaskArgs) -> TaskView {
    TaskView {
        owner: ctx.predecessor,
        title: a.title,
        description: a.description,
        max_participants: a.max_participants,
        price: a.price,
        proposals: Seq::empty(),
        created_at: ctx.timestamp,
        available_until: (ctx.timestamp + a.duration) as u64,
        category_id: a.category_id,
    }
}

/// `new_task`: a requester puts the price of every participant in escrow and
/// files a task under an existing category. The task's identifier is the
/// caller's account, `_` and the block index.
pub open spec fn new_task_outcome(s: DupworkView, ctx: ContextView, a: NewTaskArgs) -> Result<
    DupworkView,
    ContractError,
> {
    let total = a.max_participants * a.price;
    let id = task_id_for(ctx.predecessor, ctx.block_index);
    if !account_id_is_valid(ctx.predecessor) {
        Err(ContractError::InvalidAccountId)
    } else if lookup(s.users, ctx.predecessor) is None {
        Err(ContractError::NotMember)
    } else if total > u128::MAX {
        Err(ContractError::TotalAmountOverflow)
    } else if ctx.deposit != total {
        Err(ContractError::DepositMismatch)
    } else if !(MINIMUM_PRICE_PER_TASK <= ctx.deposit <= MAXIMUM_PRICE_PER_TASK) {
        Err(ContractError::TotalAmountOutOfRange)
    } else {
        let user = lookup(s.users, ctx.predecessor)->0;
        match user.user_type {
            UserType::Worker { .. } => Err(ContractError::OnlyRequester),
            UserType::Requester { total_transfered, current_requests } => {
                if byte_len(a.description) > MAXIMUM_DESCRIPTION_LENGTH {
                    Err(ContractError::DescriptionTooLong)
                } else if a.max_participants > MAXIMUM_PROPOSAL_AT_ONE_TIME {
                    Err(ContractError::TooManyParticipants)
                } else if has_key(s.tasks, id) {
                    Err(ContractError::DuplicateTaskInBlock)
                } else if ctx.timestamp + a.duration > u64::MAX {
                    Err(ContractError::ArithmeticOverflow)
                } else if !has_key(s.categories, a.category_id) {
                    Err(ContractError::CategoryNotFound)
                } else {
                    let cat = lookup(s.categories, a.category_id)->0;
                    if cat.num_posts == u64::MAX || current_requests == u16::MAX {
                        Err(ContractError::ArithmeticOverflow)
                    } else {
                        Ok(
                            DupworkView {
                                tasks: put(s.tasks, id, created_task(ctx, a)),
                                users: put(
                                    s.users,
                                    ctx.predecessor,
                                    UserView {
                                        user_type: UserType::Requester {
                                            total_transfered,
                                            current_requests: (current_requests + 1) as u16,
                                        },
                                        current_jobs: set_add(user.current_jobs, id),
                                        ..user
                                    },
                                ),
                                categories: put(
                                    s.categories,
                                    a.category_id,
                                    CategoryView { num_posts: (cat.num_posts + 1) as u64, ..cat },
                                ),
                            },
                        )
                    }
                }
            },
        }
    }
}

/// `approve_work`: the owner of a task pays a proposal that is not
/// rejected: its price and the submit bond go to the worker, and
/// `on_transferd` follows with the price. Nothing changes yet.
pub open spec fn approve_work_outcome(
    s: DupworkView,
    ctx: ContextView,
    task_id: Seq<char>,
    worker_id: Seq<char>,
) -> Result<(TransferView, TransferCallbackView), ContractError> {
    if !account_id_is_valid(worker_id) {
        Err(ContractError::InvalidAccountId)
    } else if lookup(s.tasks, task_id) is None {
        Err(ContractError::TaskNotFound)
    } else if !account_id_is_valid(ctx.predecessor) {
        Err(ContractError::InvalidAccountId)
    } else {
        let task = lookup(s.tasks, task_id)->0;
        if task.owner != ctx.predecessor {
            Err(ContractError::NotTaskOwner)
        } else if lookup(task.proposals, worker_id) is None {
            Err(ContractError::ProposalNotFound)
        } else {
            let p = lookup(task.proposals, worker_id)->0;
            if p.is_rejected {
                Err(ContractError::AlreadyRejected)
            } else {
                Ok(
                    (
                        TransferView {
                            receiver_id: p.account_id,
                            amount: (task.price + SUBMIT_BOND) as u128,
                        },
                        TransferCallbackView {
                            task_id,
                            beneficiary_id: p.account_id,
                            amount_to_transfer: task.price,
                        },
                    ),
                )
            }
        }
    }
}

/// `reject_work`: the owner of a task rejects a proposal not yet approved.
pub open spec fn reject_work_outcome(
    s: DupworkView,
    ctx: ContextView,
    task_id: Seq<char>,
    worker_id: Seq<char>,
) -> Result<DupworkView, ContractError> {
    if !account_id_is_valid(worker_id) {
        Err(ContractError::InvalidAccountId)
    } else if lookup(s.tasks, task_id) is None {
        Err(ContractError::TaskNotFound)
    } else if !account_id_is_valid(ctx.predecessor) {
        Err(ContractError::InvalidAccountId)
    } else {
        let task = lookup(s.tasks, task_id)->0;
        if task.owner != ctx.predecessor {
            Err(ContractError::NotTaskOwner)
        } else if lookup(task.proposals, worker_id) is None {
            Err(ContractError::ProposalNotFound)
        } else {
            let p = lookup(task.proposals, worker_id)->0;
            if p.is_approved {
                Err(ContractError::AlreadyApproved)
            } else {
                Ok(
                    DupworkView {
                        tasks: put(
                            s.tasks,
                            task_id,
                            TaskView {
                                proposals: put(
                                    task.proposals,
                                    worker_id,
                                    ProposalView { is_rejected: true, ..p },
                                ),
                                ..task
                            },
                        ),
                        ..s
                    },
                )
            }
        }
    }
}

/// What `mark_task_as_completed` pays back: the price of each participant
/// place that no proposal took.
pub open spec fn refund_amount(task: TaskView) -> int {
    task.price * (task.max_participants - task.proposals.len())
}

/// The submission bonds returned when a task closes: one for each proposal
/// rejected and not approved, in the order of the proposals. An approved
/// proposal had its bond returned with its payment, also where it was
/// rejected while that payment was under way.
pub open spec fn bond_refunds(ps: Seq<(Seq<char>, ProposalView)>) -> Seq<TransferView>
    decreases ps.len(),
{
    if ps.len() == 0 {
        Seq::empty()
    } else {
        bond_refunds(ps.drop_last()) + if ps.last().1.is_rejected && !ps.last().1.is_approved {
            seq![TransferView { receiver_id: ps.last().1.account_id, amount: SUBMIT_BOND }]
        } else {
            Seq::empty()
        }
    }
}

/// `mark_task_as_completed`: once every proposal is checked, the owner
/// closes the task. Where fewer proposals are approved than participants were
/// asked for, the task must have expired and the unused places are refunded
/// to the owner first; then every rejected worker gets the submission bond
/// back.
pub open spec fn mark_task_as_completed_outcome(
    s: DupworkView,
    ctx: ContextView,
    task_id: Seq<char>,
) -> Result<(DupworkView, Seq<TransferView>), ContractError> {
    if lookup(s.tasks, task_id) is None {
        Err(ContractError::TaskNotFound)
    } else if !account_id_is_valid(ctx.predecessor) {
        Err(ContractError::InvalidAccountId)
    } else {
        let task = lookup(s.tasks, task_id)->0;
        if task.owner != ctx.predecessor {
            Err(ContractError::NotTaskOwner)
        } else if !all_checked(task.proposals) {
            Err(ContractError::WorkUnchecked)
        } else if task.max_participants < task.proposals.len() {
            Err(ContractError::ArithmeticOverflow)
        } else if refund_amount(task) > u128::MAX {
            Err(ContractError::RefundOverflow)
        } else {
            let amount = refund_amount(task) as u128;
            if count_approved(task.proposals) < task.max_participants && !(task.available_until
                < ctx.timestamp) {
                Err(ContractError::NotExpired)
            } else {
                let transfer = if count_approved(task.proposals) < task.max_participants {
                    seq![TransferView { receiver_id: ctx.predecessor, amount }]
                } else {
                    Seq::empty()
                } + bond_refunds(task.proposals);
                if lookup(s.users, ctx.predecessor) is None {
                    Err(ContractError::OwnerNotFound)
                } else {
                    let owner = lookup(s.users, ctx.predecessor)->0;
                    match owner.user_type {
                        UserType::Requester { total_transfered, current_requests } => {
                            if current_requests == 0 {
                                Err(ContractError::NoCurrentRequests)
                            } else if total_transfered + amount > u128::MAX {
                                Err(ContractError::ArithmeticOverflow)
                            } else {
                                Ok(
                                    (
                                        DupworkView {
                                            users: put(
                                                s.users,
                                                ctx.predecessor,
                                                UserView {
                                                    user_type: UserType::Requester {
                                                        total_transfered: (total_transfered
                                                            + amount) as u128,
                                                        current_requests: (current_requests
                                                            - 1) as u16,
                                                    },
                                                    ..finish_job(owner, task_id)
                                                },
                                            ),
                                            ..s
                                        },
                                        transfer,
                                    ),
                                )
                            }
                        },
                        UserType::Worker { .. } => Ok((s, transfer)),
                    }
                }
            }
        }
    }
}

/// `submit_work`: a member with the submit bond files a proposal on a task
/// that has not expired and still lacks approved work, replacing any earlier
/// proposal of the same member. A worker also counts one more application
/// and takes the task up.
pub open spec fn submit_work_outcome(
    s: DupworkView,
    ctx: ContextView,
    task_id: Seq<char>,
    proof: Seq<char>,
) -> Result<DupworkView, ContractError> {
    if ctx.deposit != SUBMIT_BOND {
        Err(ContractError::SubmitBondMismatch)
    } else if lookup(s.tasks, task_id) is None {
        Err(ContractError::TaskNotFound)
    } else {
        let task = lookup(s.tasks, task_id)->0;
        if !(task.available_until > ctx.timestamp) {
            Err(ContractError::TaskExpired)
        } else if !(count_approved(task.proposals) < task.max_participants) {
            Err(ContractError::ParticipantsFull)
        } else if !account_id_is_valid(ctx.predecessor) {
            Err(ContractError::InvalidAccountId)
        } else if lookup(s.users, ctx.predecessor) is None {
            Err(ContractError::UserNotFound)
        } else {
            let worker = lookup(s.users, ctx.predecessor)->0;
            let tasks = put(
                s.tasks,
                task_id,
                TaskView {
                    proposals: put(
                        task.proposals,
                        ctx.predecessor,
                        ProposalView {
                            account_id: ctx.predecessor,
                            proof_of_work: proof,
                            is_approved: false,
                            is_rejected: false,
                        },
                    ),
                    ..task
                },
            );
            match worker.user_type {
                UserType::Worker { total_received, current_applies } => {
                    if current_applies == u16::MAX {
                        Err(ContractError::ArithmeticOverflow)
                    } else {
                        Ok(
                            DupworkView {
                                tasks,
                                users: put(
                                    s.users,
                                    ctx.predecessor,
                                    UserView {
                                        user_type: UserType::Worker {
                                            total_received,
                                            current_applies: (current_applies + 1) as u16,
                                        },
                                        current_jobs: set_add(worker.current_jobs, task_id),
                                        ..worker
                                    },
                                ),
                                ..s
                            },
                        )
                    }
                },
                UserType::Requester { .. } => Ok(DupworkView { tasks, ..s }),
            }
        }
    }
}

/// `update_bio`: a member replaces the bio.
pub open spec fn update_bio_outcome(s: DupworkView, ctx: ContextView, bio: Seq<char>) -> Result<
    DupworkView,
    ContractError,
> {
    if !account_id_is_valid(ctx.predecessor) {
        Err(ContractError::InvalidAccountId)
    } else if lookup(s.users, ctx.predecessor) is None {
        Err(ContractError::UserNotFound)
    } else {
        let user = lookup(s.users, ctx.predecessor)->0;
        Ok(
            DupworkView {
                users: put(s.users, ctx.predecessor, UserView { bio, ..user }),
                ..s
            },
        )
    }
}

/// `new_category`: anyone adds a category whose name is at most the title
/// length; its identifier is the lower-cased name with spaces as `_`.
pub open spec fn new_category_outcome(s: DupworkView, ctx: ContextView, name: Seq<char>) -> Result<
    DupworkView,
    ContractError,
> {
    let id = category_id_for(name);
    if byte_len(name) > MAX_TITLE_LENGTH {
        Err(ContractError::TitleTooLong)
    } else if has_key(s.categories, id) {
        Err(ContractError::CategoryExists)
    } else {
        Ok(
            DupworkView {
                categories: put(
                    s.categories,
                    id,
                    CategoryView { id, name, created: ctx.timestamp, num_posts: 0 },
                ),
                ..s
            },
        )
    }
}

/// The checks every callback makes: the contract called itself, with exactly
/// one earlier result.
pub open spec fn callback_check(ctx: ContextView, results: Seq<PromiseStatus>) -> Option<
    ContractError,
> {
    if ctx.predecessor != ctx.current {
        Some(ContractError::NotSelfCallback)
    } else if results.len() != 1 {
        Some(ContractError::NotACallback)
    } else {
        None
    }
}

/// `on_transferd`: after a worker was paid, the proposal becomes approved,
/// the worker's job is completed and the payment counted; when as many
/// proposals are approved as participants were asked for, the owner's job is
/// completed too. If the payment failed, nothing changes and the result is
/// false.
pub open spec fn on_transferd_outcome(
    s: DupworkView,
    ctx: ContextView,
    results: Seq<PromiseStatus>,
    task_id: Seq<char>,
    beneficiary_id: Seq<char>,
    amount: u128,
) -> Result<(DupworkView, bool), ContractError> {
    if !account_id_is_valid(beneficiary_id) {
        Err(ContractError::InvalidAccountId)
    } else if callback_check(ctx, results) is Some {
        Err(callback_check(ctx, results)->0)
    } else if results[0] != PromiseStatus::Successful {
        Ok((s, false))
    } else if lookup(s.tasks, task_id) is None {
        Err(ContractError::TaskNotFound)
    } else {
        let task = lookup(s.tasks, task_id)->0;
        if lookup(task.proposals, beneficiary_id) is None {
            Err(ContractError::ProposalNotFound)
        } else {
            let p = lookup(task.proposals, beneficiary_id)->0;
            let task1 = TaskView {
                proposals: put(
                    task.proposals,
                    beneficiary_id,
                    ProposalView { is_approved: true, ..p },
                ),
                ..task
            };
            let tasks1 = put(s.tasks, task_id, task1);
            if lookup(s.users, beneficiary_id) is None {
                Err(ContractError::WorkerNotFound)
            } else {
                let worker = finish_job(lookup(s.users, beneficiary_id)->0, task_id);
                let full = (count_approved(task1.proposals) as u16) == task1.max_participants;
                if full && lookup(s.users, task1.owner) is None {
                    Err(ContractError::OwnerNotFound)
                } else {
                    let users1 = if full {
                        put(s.users, task1.owner, finish_job(lookup(s.users, task1.owner)->0, task_id))
                    } else {
                        s.users
                    };
                    match worker.user_type {
                        UserType::Worker { total_received, current_applies } => {
                            if current_applies == 0 {
                                Err(ContractError::NoCurrentApplies)
                            } else if total_received + amount > u128::MAX {
                                Err(ContractError::ArithmeticOverflow)
                            } else {
                                Ok(
                                    (
                                        DupworkView {
                                            tasks: tasks1,
                                            users: put(
                                                users1,
                                                beneficiary_id,
                                                UserView {
                                                    user_type: UserType::Worker {
                                                        total_received: (total_received
                                                            + amount) as u128,
                                                        current_applies: (current_applies
                                                            - 1) as u16,
                                                    },
                                                    ..worker
                                                },
                                            ),
                                            ..s
                                        },
                                        true,
                                    ),
                                )
                            }
                        },
                        UserType::Requester { .. } => Ok(
                            (DupworkView { tasks: tasks1, users: users1, ..s }, true),
                        ),
                    }
                }
            }
        }
    }
}

/// `on_refund`: after a requester was refunded, the requester's job is
/// completed, the refund counted and one open request closed. If the refund
/// failed, nothing changes and the result is false.
pub open spec fn on_refund_outcome(
    s: DupworkView,
    ctx: ContextView,
    results: Seq<PromiseStatus>,
    task_id: Seq<char>,
    owner_id: Seq<char>,
    amount: u128,
) -> Result<(DupworkView, bool), ContractError> {
    if !account_id_is_valid(owner_id) {
        Err(ContractError::InvalidAccountId)
    } else if callback_check(ctx, results) is Some {
        Err(callback_check(ctx, results)->0)
    } else if results[0] != PromiseStatus::Successful {
        Ok((s, false))
    } else if lookup(s.users, owner_id) is None {
        Err(ContractError::OwnerNotFound)
    } else {
        let owner = finish_job(lookup(s.users, owner_id)->0, task_id);
        match owner.user_type {
            UserType::Requester { total_transfered, current_requests } => {
                if current_requests == 0 {
                    Err(ContractError::NoCurrentRequests)
                } else if total_transfered + amount > u128::MAX {
                    Err(ContractError::ArithmeticOverflow)
                } else {
                    Ok(
                        (
                            DupworkView {
                                users: put(
                                    s.users,
                                    owner_id,
                                    UserView {
                                        user_type: UserType::Requester {
                                            total_transfered: (total_transfered + amount) as u128,
                                            current_requests: (current_requests - 1) as u16,
                                        },
                                        ..owner
                                    },
                                ),
                                ..s
                            },
                            true,
                        ),
                    )
                }
            },
            UserType::Worker { .. } => Ok((s, true)),
        }
    }
}

} // verus!
