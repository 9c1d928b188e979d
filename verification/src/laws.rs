//! Properties that relate several calls.
use vstd::prelude::*;
use crate::constants::{REGISTER_BOND, SUBMIT_BOND};
use crate::context::{ContextView, ContractError};
use crate::json_types::{WrappedUserView, wrap_task};
use crate::model::{
    DupworkView, NewTaskArgs, created_task, default_bio, new_user, register_outcome, leave_outcome,
    new_task_outcome, reject_work_outcome, approve_work_outcome, update_bio_outcome,
    new_category_outcome, on_transferd_outcome, submit_work_outcome, task_ok,
    mark_task_as_completed_outcome,
    lemma_lookup_all, lemma_price_bounded,
};
use crate::context::{PromiseStatus, TransferView};
use crate::table::{has_key, lookup, put, lemma_put_distinct, lemma_delete_distinct};
use crate::text::{account_id_is_valid, task_id_for, category_id_for};
use crate::types::{TaskView, ProposalView, UserType};
use crate::invariants::{consistent, user_consistent, jobs_stored, lemma_finish_job_stored};
use crate::views::{
    current_tasks_outcome, completed_tasks_outcome, page_positions, user_info_outcome, task_by_id_outcome, available_tasks_outcome, page_positions_ascending,
};

verus! {

/// Every stored task can pay an approved worker its price and the submit
/// bond: the sum fits, and the task asks for at least one participant.
pub proof fn stored_task_payment_fits(s: DupworkView, task_id: Seq<char>)
    requires
        s.wf(),
        has_key(s.tasks, task_id),
    ensures
        lookup(s.tasks, task_id)->0.price + SUBMIT_BOND <= u128::MAX,
        lookup(s.tasks, task_id)->0.max_participants >= 1,
{
    lemma_lookup_all(s.tasks, task_id, |t: TaskView| task_ok(t));
    lemma_price_bounded(lookup(s.tasks, task_id)->0);
}

/// After a successful registration, the caller's record shows the account,
/// the default bio, the chosen role with nothing moved yet, and no
/// completed task.
pub proof fn register_then_user_info(s: DupworkView, ctx: ContextView, requester: bool)
    requires
        s.wf(),
        register_outcome(s, ctx, requester) is Ok,
    ensures
        user_info_outcome(register_outcome(s, ctx, requester)->Ok_0, ctx.predecessor) == Ok::<
            WrappedUserView,
            ContractError,
        >(
            WrappedUserView {
                account_id: ctx.predecessor,
                bio: default_bio(),
                user_type: new_user(ctx.predecessor, requester).user_type,
                completed_jobs: Seq::empty(),
            },
        ),
{
    lemma_put_distinct(s.users, ctx.predecessor, new_user(ctx.predecessor, requester));
}

/// A member who leaves gets the register bond back and has no record
/// afterwards.
pub proof fn leave_then_user_info(s: DupworkView, ctx: ContextView)
    requires
        s.wf(),
        leave_outcome(s, ctx) is Ok,
    ensures
        leave_outcome(s, ctx)->Ok_0.1 == (TransferView {
            receiver_id: ctx.predecessor,
            amount: REGISTER_BOND,
        }),
        user_info_outcome(leave_outcome(s, ctx)->Ok_0.0, ctx.predecessor) == Err::<
            WrappedUserView,
            ContractError,
        >(ContractError::UserNotFound),
{
    lemma_delete_distinct(s.users, ctx.predecessor);
}

/// A created task is found under the caller's account, `_` and the block
/// index, as it was created.
pub proof fn new_task_then_task_by_id(s: DupworkView, ctx: ContextView, a: NewTaskArgs)
    requires
        s.wf(),
        new_task_outcome(s, ctx, a) is Ok,
    ensures
        task_by_id_outcome(
            new_task_outcome(s, ctx, a)->Ok_0,
            task_id_for(ctx.predecessor, ctx.block_index),
        ) == Ok::<_, ContractError>(wrap_task(created_task(ctx, a))),
{
    lemma_put_distinct(s.tasks, task_id_for(ctx.predecessor, ctx.block_index), created_task(ctx, a));
}

/// An account creates at most one task in a block: once it has created one,
/// every other `new_task` it makes in the same block is refused.
pub proof fn one_task_per_block(
    s: DupworkView,
    ctx: ContextView,
    a: NewTaskArgs,
    ctx2: ContextView,
    a2: NewTaskArgs,
)
    requires
        s.wf(),
        new_task_outcome(s, ctx, a) is Ok,
        ctx2.predecessor == ctx.predecessor,
        ctx2.block_index == ctx.block_index,
    ensures
        new_task_outcome(new_task_outcome(s, ctx, a)->Ok_0, ctx2, a2) is Err,
{
    lemma_put_distinct(s.tasks, task_id_for(ctx.predecessor, ctx.block_index), created_task(ctx, a));
}

/// Once the owner has rejected a proposal, paying it is refused.
pub proof fn reject_then_approve(
    s: DupworkView,
    ctx: ContextView,
    task_id: Seq<char>,
    worker_id: Seq<char>,
)
    requires
        s.wf(),
        reject_work_outcome(s, ctx, task_id, worker_id) is Ok,
    ensures
        approve_work_outcome(
            reject_work_outcome(s, ctx, task_id, worker_id)->Ok_0,
            ctx,
            task_id,
            worker_id,
        ) == Err::<(TransferView, crate::context::TransferCallbackView), ContractError>(
            ContractError::AlreadyRejected,
        ),
{
    let task = lookup(s.tasks, task_id)->0;
    let p = lookup(task.proposals, worker_id)->0;
    lemma_lookup_all(s.tasks, task_id, |t: TaskView| task_ok(t));
    lemma_put_distinct(task.proposals, worker_id, ProposalView { is_rejected: true, ..p });
    let task2 = TaskView {
        proposals: put(task.proposals, worker_id, ProposalView { is_rejected: true, ..p }),
        ..task
    };
    lemma_put_distinct(s.tasks, task_id, task2);
}

/// Once a payment to a worker has been recorded, the owner can no longer
/// reject that worker's proposal.
pub proof fn approved_cannot_be_rejected(
    s: DupworkView,
    ctx: ContextView,
    results: Seq<PromiseStatus>,
    task_id: Seq<char>,
    beneficiary_id: Seq<char>,
    amount: u128,
    owner_ctx: ContextView,
)
    requires
        s.wf(),
        on_transferd_outcome(s, ctx, results, task_id, beneficiary_id, amount) == Ok::<
            (DupworkView, bool),
            ContractError,
        >((on_transferd_outcome(s, ctx, results, task_id, beneficiary_id, amount)->Ok_0.0, true)),
        account_id_is_valid(owner_ctx.predecessor),
        owner_ctx.predecessor == lookup(s.tasks, task_id)->0.owner,
    ensures
        reject_work_outcome(
            on_transferd_outcome(s, ctx, results, task_id, beneficiary_id, amount)->Ok_0.0,
            owner_ctx,
            task_id,
            beneficiary_id,
        ) == Err::<DupworkView, ContractError>(ContractError::AlreadyApproved),
{
    let task = lookup(s.tasks, task_id)->0;
    let p = lookup(task.proposals, beneficiary_id)->0;
    lemma_lookup_all(s.tasks, task_id, |t: TaskView| task_ok(t));
    lemma_put_distinct(task.proposals, beneficiary_id, ProposalView { is_approved: true, ..p });
    let task1 = TaskView {
        proposals: put(task.proposals, beneficiary_id, ProposalView { is_approved: true, ..p }),
        ..task
    };
    lemma_put_distinct(s.tasks, task_id, task1);
}

/// A submission is recorded as the caller's proposal, neither approved nor
/// rejected, replacing any earlier one; a worker also has the task among the
/// open jobs.
pub proof fn submit_then_proposal(
    s: DupworkView,
    ctx: ContextView,
    task_id: Seq<char>,
    proof: Seq<char>,
)
    requires
        s.wf(),
        submit_work_outcome(s, ctx, task_id, proof) is Ok,
    ensures
        ({
            let s2 = submit_work_outcome(s, ctx, task_id, proof)->Ok_0;
            &&& lookup(lookup(s2.tasks, task_id)->0.proposals, ctx.predecessor) == Some(
                ProposalView {
                    account_id: ctx.predecessor,
                    proof_of_work: proof,
                    is_approved: false,
                    is_rejected: false,
                },
            )
            &&& lookup(s.users, ctx.predecessor)->0.user_type is Worker ==> lookup(
                s2.users,
                ctx.predecessor,
            )->0.current_jobs.contains(task_id)
        }),
{
    let task = lookup(s.tasks, task_id)->0;
    let np = ProposalView {
        account_id: ctx.predecessor,
        proof_of_work: proof,
        is_approved: false,
        is_rejected: false,
    };
    lemma_lookup_all(s.tasks, task_id, |t: TaskView| task_ok(t));
    lemma_put_distinct(task.proposals, ctx.predecessor, np);
    let task2 = TaskView { proposals: put(task.proposals, ctx.predecessor, np), ..task };
    lemma_put_distinct(s.tasks, task_id, task2);
    let worker = lookup(s.users, ctx.predecessor)->0;
    match worker.user_type {
        UserType::Worker { total_received, current_applies } => {
            let w2 = crate::types::UserView {
                user_type: UserType::Worker {
                    total_received,
                    current_applies: (current_applies + 1) as u16,
                },
                current_jobs: crate::table::set_add(worker.current_jobs, task_id),
                ..worker
            };
            crate::table::lemma_set_add_distinct(worker.current_jobs, task_id);
            lemma_put_distinct(s.users, ctx.predecessor, w2);
        },
        UserType::Requester { .. } => {},
    }
}

/// A new bio is what the member's record shows afterwards.
pub proof fn update_bio_then_user_info(s: DupworkView, ctx: ContextView, bio: Seq<char>)
    requires
        s.wf(),
        update_bio_outcome(s, ctx, bio) is Ok,
    ensures
        user_info_outcome(update_bio_outcome(s, ctx, bio)->Ok_0, ctx.predecessor)->Ok_0.bio == bio,
        user_info_outcome(update_bio_outcome(s, ctx, bio)->Ok_0, ctx.predecessor) is Ok,
{
    let user = lookup(s.users, ctx.predecessor)->0;
    lemma_put_distinct(s.users, ctx.predecessor, crate::types::UserView { bio, ..user });
}

/// A category name can be added once: adding it again, or any name with the
/// same identifier, is refused.
pub proof fn category_added_once(
    s: DupworkView,
    ctx: ContextView,
    name: Seq<char>,
    ctx2: ContextView,
    name2: Seq<char>,
)
    requires
        s.wf(),
        new_category_outcome(s, ctx, name) is Ok,
        category_id_for(name2) == category_id_for(name),
    ensures
        new_category_outcome(new_category_outcome(s, ctx, name)->Ok_0, ctx2, name2) is Err,
{
    let id = category_id_for(name);
    lemma_put_distinct(
        s.categories,
        id,
        crate::types::CategoryView { id, name, created: ctx.timestamp, num_posts: 0 },
    );
}

/// Consecutive pages of `available_tasks` neither overlap nor skip a task:
/// the page after the first `a` newest, followed by the page of those `a`,
/// is the page of all `a + b`.
pub proof fn consecutive_pages(s: DupworkView, from_index: u64, a: u64, b: u64)
    requires
        from_index + a + b <= u64::MAX,
    ensures
        available_tasks_outcome(s, (from_index + a) as u64, b) is Ok,
        available_tasks_outcome(s, from_index, a) is Ok,
        available_tasks_outcome(s, (from_index + a) as u64, b)->Ok_0 + available_tasks_outcome(
            s,
            from_index,
            a,
        )->Ok_0 == available_tasks_outcome(s, from_index, (a + b) as u64)->Ok_0,
{
    let n = s.tasks.len() as int;
    let older = page_positions_ascending(n, (from_index + a) as u64, b);
    let newer = page_positions_ascending(n, from_index, a);
    let all = page_positions_ascending(n, from_index, (a + b) as u64);
    assert(older + newer =~= all);
    let f = |i: int| (s.tasks[i].0, wrap_task(s.tasks[i].1));
    assert(older.map_values(f) + newer.map_values(f) =~= all.map_values(f));
}

/// A task just created heads its owner's open jobs: the first page of one
/// entry of `current_tasks` is that task. It fails only where the owner's open
/// jobs already list the new identifier, which no reachable state does (see
/// `new_task_heads_open_jobs_when_consistent`).
pub proof fn new_task_heads_open_jobs(s: DupworkView, ctx: ContextView, a: NewTaskArgs)
    requires
        s.wf(),
        new_task_outcome(s, ctx, a) is Ok,
        !lookup(s.users, ctx.predecessor)->0.current_jobs.contains(
            task_id_for(ctx.predecessor, ctx.block_index),
        ),
    ensures
        current_tasks_outcome(new_task_outcome(s, ctx, a)->Ok_0, ctx.predecessor, 0, 1) == Ok::<
            _,
            ContractError,
        >(seq![(task_id_for(ctx.predecessor, ctx.block_index), wrap_task(created_task(ctx, a)))]),
{
    let s2 = new_task_outcome(s, ctx, a)->Ok_0;
    let id = task_id_for(ctx.predecessor, ctx.block_index);
    let user = lookup(s.users, ctx.predecessor)->0;
    lemma_put_distinct(s.tasks, id, created_task(ctx, a));
    let u2 = lookup(s2.users, ctx.predecessor)->0;
    match user.user_type {
        UserType::Requester { total_transfered, current_requests } => {
            let nu = crate::types::UserView {
                user_type: UserType::Requester {
                    total_transfered,
                    current_requests: (current_requests + 1) as u16,
                },
                current_jobs: crate::table::set_add(user.current_jobs, id),
                ..user
            };
            lemma_put_distinct(s.users, ctx.predecessor, nu);
            assert(u2 == nu);
            let ids = u2.current_jobs;
            assert(ids == user.current_jobs.push(id));
            assert(ids[ids.len() - 1] == id);
            let pos = page_positions(ids.len() as int, 0, 1);
            assert(pos =~= seq![ids.len() - 1]);
            assert(has_key(s2.tasks, ids[pos[0]]));
            assert(current_tasks_outcome(s2, ctx.predecessor, 0, 1)->Ok_0 =~= seq![(id, wrap_task(created_task(ctx, a)))]);
        },
        UserType::Worker { .. } => {},
    }
}

/// In a consistent state, a task just created heads its owner's open jobs.
pub proof fn new_task_heads_open_jobs_when_consistent(s: DupworkView, ctx: ContextView, a: NewTaskArgs)
    requires
        s.wf(),
        consistent(s),
        new_task_outcome(s, ctx, a) is Ok,
    ensures
        current_tasks_outcome(new_task_outcome(s, ctx, a)->Ok_0, ctx.predecessor, 0, 1) == Ok::<
            _,
            ContractError,
        >(seq![(task_id_for(ctx.predecessor, ctx.block_index), wrap_task(created_task(ctx, a)))]),
{
    let user = lookup(s.users, ctx.predecessor)->0;
    assert(user_consistent(s.tasks, ctx.predecessor, user));
    new_task_heads_open_jobs(s, ctx, a);
}

/// A task its owner (a requester) has just closed is listed among the
/// owner's completed tasks and not among the open ones, where the owner's
/// jobs name stored tasks (as in every reachable state); otherwise a listing
/// may be refused for another job.
pub proof fn closed_task_is_completed(
    s: DupworkView,
    ctx: ContextView,
    task_id: Seq<char>,
    limit: u64,
    limit2: u64,
)
    requires
        s.wf(),
        jobs_stored(s.tasks, lookup(s.users, ctx.predecessor)->0),
        mark_task_as_completed_outcome(s, ctx, task_id) is Ok,
        lookup(s.users, ctx.predecessor)->0.user_type is Requester,
        limit >= lookup(
            mark_task_as_completed_outcome(s, ctx, task_id)->Ok_0.0.users,
            ctx.predecessor,
        )->0.completed_jobs.len(),
    ensures
        ({
            let s2 = mark_task_as_completed_outcome(s, ctx, task_id)->Ok_0.0;
            let done = completed_tasks_outcome(s2, ctx.predecessor, 0, limit);
            let open = current_tasks_outcome(s2, ctx.predecessor, 0, limit2);
            &&& done is Ok
            &&& exists|k: int| 0 <= k < done->Ok_0.len() && (#[trigger] done->Ok_0[k]).0 == task_id
            &&& open is Ok
            &&& forall|k: int| 0 <= k < open->Ok_0.len() ==> (#[trigger] open->Ok_0[k]).0 != task_id
        }),
{
    let s2 = mark_task_as_completed_outcome(s, ctx, task_id)->Ok_0.0;
    let o = ctx.predecessor;
    let owner = lookup(s.users, o)->0;
    lemma_finish_job_stored(s.tasks, owner, task_id);
    lemma_lookup_all(s.users, o, |u: crate::types::UserView| crate::model::user_ok(u));
    match owner.user_type {
        UserType::Requester { total_transfered, current_requests } => {
            let amount = crate::model::refund_amount(lookup(s.tasks, task_id)->0) as u128;
            let o2 = crate::types::UserView {
                user_type: UserType::Requester {
                    total_transfered: (total_transfered + amount) as u128,
                    current_requests: (current_requests - 1) as u16,
                },
                ..crate::model::finish_job(owner, task_id)
            };
            lemma_put_distinct(s.users, o, o2);
            assert(lookup(s2.users, o) == Some(o2));
            assert(jobs_stored(s2.tasks, o2));
            crate::table::lemma_set_add_distinct(owner.completed_jobs, task_id);
            crate::table::lemma_set_drop_distinct(owner.current_jobs, task_id);
            // completed jobs: every one is a task, and the closed one is among them
            let ids = o2.completed_jobs;
            let n = ids.len() as int;
            let pos = page_positions(n, 0, limit);
            assert forall|k: int| 0 <= k < pos.len() implies has_key(s2.tasks, ids[#[trigger] pos[k]]) by {
                assert(ids.contains(ids[pos[k]]));
            }
            let i = choose|i: int| 0 <= i < ids.len() && ids[i] == task_id;
            let done = completed_tasks_outcome(s2, o, 0, limit)->Ok_0;
            assert(done[n - 1 - i].0 == task_id);
            // open jobs: every one is a task, and the closed one is not among them
            let ids2 = o2.current_jobs;
            let pos2 = page_positions(ids2.len() as int, 0, limit2);
            assert forall|k: int| 0 <= k < pos2.len() implies has_key(s2.tasks, ids2[#[trigger] pos2[k]]) by {
                assert(ids2.contains(ids2[pos2[k]]));
            }
            let open = current_tasks_outcome(s2, o, 0, limit2)->Ok_0;
            assert forall|k: int| 0 <= k < open.len() implies (#[trigger] open[k]).0 != task_id by {
                assert(ids2.contains(ids2[pos2[k]]));
            }
        },
        UserType::Worker { .. } => {},
    }
}

/// In a consistent state, the record `user_info` gives for a member names
/// that member.
pub proof fn user_info_names_member(s: DupworkView, a: Seq<char>)
    requires
        consistent(s),
        user_info_outcome(s, a) is Ok,
    ensures
        user_info_outcome(s, a)->Ok_0.account_id == a,
{
}

} // verus!
