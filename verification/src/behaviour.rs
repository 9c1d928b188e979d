//! What the calls are for, stated over their inputs and results rather than
//! through the outcome functions that define them: who may do what and with
//! which deposit, what is paid to whom, what a record holds afterwards, what
//! identifiers look like, and which entries a page selects.
use vstd::prelude::*;
use crate::constants::{
    MAX_TITLE_LENGTH, MAXIMUM_DESCRIPTION_LENGTH, MAXIMUM_PRICE_PER_TASK,
    MAXIMUM_PROPOSAL_AT_ONE_TIME, MINIMUM_PRICE_PER_TASK, REGISTER_BOND, SUBMIT_BOND,
};
use crate::context::{ContextView, ContractError, PromiseStatus, TransferView};
use crate::laws::stored_task_payment_fits;
use crate::model::{
    DupworkView, NewTaskArgs, approve_work_outcome, bond_refunds, count_approved,
    mark_task_as_completed_outcome, new_category_outcome, new_task_outcome, on_refund_outcome,
    on_transferd_outcome, register_outcome, reject_work_outcome, submit_work_outcome,
};
use crate::table::{has_key, lemma_put_distinct, lookup};
use crate::text::{
    account_id_is_valid, byte_len, category_id_for, decimal, lowercase, spaces_to_underscores,
    task_id_for,
};
use crate::types::{CategoryView, ProposalView, TaskView, UserType, UserView};
use crate::views::{
    available_tasks_outcome, categories_outcome, completed_tasks_outcome, current_tasks_outcome,
    job_page, tasks_by_ids_outcome, user_info_outcome,
};
use crate::json_types::wrap_task;

verus! {

/// The approved proposals, in order.
pub open spec fn approved_proposals(ps: Seq<(Seq<char>, ProposalView)>) -> Seq<
    (Seq<char>, ProposalView),
> {
    ps.filter(|e: (Seq<char>, ProposalView)| e.1.is_approved)
}

/// Counting approved proposals counts the approved ones among them.
pub proof fn lemma_count_is_filter(ps: Seq<(Seq<char>, ProposalView)>)
    ensures
        count_approved(ps) == approved_proposals(ps).len(),
    decreases ps.len(),
{
    reveal(Seq::filter);
    if ps.len() > 0 {
        lemma_count_is_filter(ps.drop_last());
    }
}

/// A task can be closed only when every one of its proposals is approved or
/// rejected; while some proposal is neither, its owner's request is refused
/// with `WorkUnchecked`.
pub proof fn closing_needs_every_proposal_checked(
    s: DupworkView,
    ctx: ContextView,
    task_id: Seq<char>,
)
    ensures
        mark_task_as_completed_outcome(s, ctx, task_id) is Ok ==> forall|i: int|
            0 <= i < lookup(s.tasks, task_id)->0.proposals.len() ==> (#[trigger] lookup(
                s.tasks,
                task_id,
            )->0.proposals[i]).1.is_approved || lookup(s.tasks, task_id)->0.proposals[i].1.is_rejected,
        ({
            let task = lookup(s.tasks, task_id)->0;
            (has_key(s.tasks, task_id) && account_id_is_valid(ctx.predecessor) && task.owner
                == ctx.predecessor && exists|i: int|
                0 <= i < task.proposals.len() && !(#[trigger] task.proposals[i]).1.is_approved
                    && !task.proposals[i].1.is_rejected) ==> mark_task_as_completed_outcome(
                s,
                ctx,
                task_id,
            ) == Err::<(DupworkView, Seq<crate::context::TransferView>), ContractError>(
                ContractError::WorkUnchecked,
            )
        }),
{
}

/// A submission is refused as full only when at least as many proposals are
/// approved as the task has places; rejected or unchecked proposals take no
/// place. With the bond attached, a task that exists, has not expired and has
/// fewer approved proposals than places accepts a submission from a
/// registered member whose application counter is not at its limit.
pub proof fn full_only_by_approved_proposals(
    s: DupworkView,
    ctx: ContextView,
    task_id: Seq<char>,
    proof: Seq<char>,
)
    ensures
        submit_work_outcome(s, ctx, task_id, proof) == Err::<DupworkView, ContractError>(
            ContractError::ParticipantsFull,
        ) ==> approved_proposals(lookup(s.tasks, task_id)->0.proposals).len() >= lookup(
            s.tasks,
            task_id,
        )->0.max_participants,
        ({
            let task = lookup(s.tasks, task_id)->0;
            let user = lookup(s.users, ctx.predecessor)->0;
            (ctx.deposit == SUBMIT_BOND && has_key(s.tasks, task_id) && task.available_until
                > ctx.timestamp && approved_proposals(task.proposals).len() < task.max_participants
                && account_id_is_valid(ctx.predecessor) && has_key(s.users, ctx.predecessor) && !(
            user.user_type matches UserType::Worker { current_applies, .. }
                && current_applies == u16::MAX)) ==> submit_work_outcome(
                s,
                ctx,
                task_id,
                proof,
            ) is Ok
        }),
{
    lemma_count_is_filter(lookup(s.tasks, task_id)->0.proposals);
}

/// Turning spaces into `_` keeps the length, leaves every other character
/// where it is, and leaves no space.
pub proof fn underscored_text_has_no_space(t: Seq<char>)
    ensures
        spaces_to_underscores(t).len() == t.len(),
        forall|i: int| 0 <= i < t.len() ==> #[trigger] spaces_to_underscores(t)[i] != ' ',
        forall|i: int|
            0 <= i < t.len() && t[i] != ' ' ==> #[trigger] spaces_to_underscores(t)[i] == t[i],
        forall|i: int|
            0 <= i < t.len() && t[i] == ' ' ==> #[trigger] spaces_to_underscores(t)[i] == '_',
        !spaces_to_underscores(t).contains(' '),
{
}

/// A category identifier holds no space: it is the lower-cased name with
/// every space, not only the first, turned into `_`.
pub proof fn category_id_has_no_space(name: Seq<char>)
    ensures
        category_id_for(name).len() == lowercase(name).len(),
        !category_id_for(name).contains(' '),
        forall|i: int|
            0 <= i < lowercase(name).len() ==> #[trigger] category_id_for(name)[i] == if lowercase(
                name,
            )[i] == ' ' {
                '_'
            } else {
                lowercase(name)[i]
            },
{
    underscored_text_has_no_space(lowercase(name));
}

/// The size of a page of `n` entries that skips `from_index` and holds at
/// most `limit`.
pub open spec fn page_len(n: int, from_index: int, limit: int) -> int {
    if from_index >= n {
        0
    } else if limit < n - from_index {
        limit
    } else {
        n - from_index
    }
}

/// `categories(from_index, limit)` gives the categories at positions
/// `from_index`, `from_index + 1`, ..., at most `limit` of them and none past
/// the last.
pub proof fn categories_page_positions(s: DupworkView, from_index: u64, limit: u64)
    requires
        from_index + limit <= u64::MAX,
    ensures
        categories_outcome(s, from_index, limit) is Ok,
        categories_outcome(s, from_index, limit)->Ok_0.len() == page_len(
            s.categories.len() as int,
            from_index as int,
            limit as int,
        ),
        forall|k: int|
            0 <= k < categories_outcome(s, from_index, limit)->Ok_0.len() ==> #[trigger] categories_outcome(
                s,
                from_index,
                limit,
            )->Ok_0[k] == s.categories[from_index + k].1,
{
}

/// Consecutive pages of `categories` chain: the page of `a` from
/// `from_index`, then the page of `b` after it, is the page of `a + b`.
pub proof fn categories_consecutive_pages(s: DupworkView, from_index: u64, a: u64, b: u64)
    requires
        from_index + a + b <= u64::MAX,
    ensures
        categories_outcome(s, from_index, a)->Ok_0 + categories_outcome(
            s,
            (from_index + a) as u64,
            b,
        )->Ok_0 == categories_outcome(s, from_index, (a + b) as u64)->Ok_0,
{
    categories_page_positions(s, from_index, a);
    categories_page_positions(s, (from_index + a) as u64, b);
    categories_page_positions(s, from_index, (a + b) as u64);
    assert(categories_outcome(s, from_index, a)->Ok_0 + categories_outcome(
        s,
        (from_index + a) as u64,
        b,
    )->Ok_0 =~= categories_outcome(s, from_index, (a + b) as u64)->Ok_0);
}

/// A page of the jobs `ids`, newest first, gives the jobs at positions
/// `n - 1 - from_index`, `n - 2 - from_index`, ..., at most `limit` of them,
/// each with its task.
pub proof fn job_page_positions(s: DupworkView, ids: Seq<Seq<char>>, from_index: u64, limit: u64)
    requires
        job_page(s, ids, from_index, limit) is Ok,
    ensures
        job_page(s, ids, from_index, limit)->Ok_0.len() == page_len(
            ids.len() as int,
            from_index as int,
            limit as int,
        ),
        forall|k: int|
            0 <= k < job_page(s, ids, from_index, limit)->Ok_0.len() ==> {
                let i = ids.len() - 1 - from_index - k;
                &&& has_key(s.tasks, ids[i])
                &&& #[trigger] job_page(s, ids, from_index, limit)->Ok_0[k] == (
                    ids[i],
                    wrap_task(lookup(s.tasks, ids[i])->0),
                )
            },
{
    let pos = crate::views::page_positions(ids.len() as int, from_index, limit);
    assert forall|k: int| 0 <= k < pos.len() implies #[trigger] has_key(
        s.tasks,
        ids[ids.len() - 1 - from_index - k],
    ) by {
        assert(pos[k] == ids.len() - 1 - from_index - k);
        if !has_key(s.tasks, ids[pos[k]]) {
            assert(exists|j: int| 0 <= j < pos.len() && !has_key(s.tasks, ids[#[trigger] pos[j]]));
        }
    }
}

/// Consecutive pages of jobs chain: the page of `x` after the `from_index`
/// newest, then the page of `b` after those, is the page of `x + b`.
pub proof fn job_pages_chain(s: DupworkView, ids: Seq<Seq<char>>, from_index: u64, x: u64, b: u64)
    requires
        from_index + x + b <= u64::MAX,
        job_page(s, ids, from_index, (x + b) as u64) is Ok,
    ensures
        job_page(s, ids, from_index, x) is Ok,
        job_page(s, ids, (from_index + x) as u64, b) is Ok,
        job_page(s, ids, from_index, x)->Ok_0 + job_page(s, ids, (from_index + x) as u64, b)->Ok_0
            == job_page(s, ids, from_index, (x + b) as u64)->Ok_0,
{
    let n = ids.len() as int;
    let all = crate::views::page_positions(n, from_index, (x + b) as u64);
    let p1 = crate::views::page_positions(n, from_index, x);
    let p2 = crate::views::page_positions(n, (from_index + x) as u64, b);
    assert(p1 + p2 =~= all);
    assert forall|k: int| 0 <= k < p1.len() implies has_key(s.tasks, ids[#[trigger] p1[k]]) by {
        assert(p1[k] == all[k]);
        assert(has_key(s.tasks, ids[all[k]]));
    }
    assert forall|k: int| 0 <= k < p2.len() implies has_key(s.tasks, ids[#[trigger] p2[k]]) by {
        assert(p2[k] == all[p1.len() + k]);
        assert(has_key(s.tasks, ids[all[p1.len() + k]]));
    }
    let f = |i: int| (ids[i], wrap_task(lookup(s.tasks, ids[i])->0));
    assert(p1.map_values(f) + p2.map_values(f) =~= all.map_values(f));
}

/// `current_tasks(a, from_index, limit)` skips the `from_index` newest open
/// jobs of `a` and gives the next ones, newest first, each with its task.
pub proof fn current_tasks_page_positions(s: DupworkView, a: Seq<char>, from_index: u64, limit: u64)
    requires
        current_tasks_outcome(s, a, from_index, limit) is Ok,
    ensures
        ({
            let jobs = lookup(s.users, a)->0.current_jobs;
            let v = current_tasks_outcome(s, a, from_index, limit)->Ok_0;
            &&& v.len() == page_len(jobs.len() as int, from_index as int, limit as int)
            &&& forall|k: int|
                0 <= k < v.len() ==> #[trigger] v[k] == (
                    jobs[jobs.len() - 1 - from_index - k],
                    wrap_task(lookup(s.tasks, jobs[jobs.len() - 1 - from_index - k])->0),
                )
        }),
{
    job_page_positions(s, lookup(s.users, a)->0.current_jobs, from_index, limit);
}

/// Consecutive pages of `current_tasks` chain, newest first.
pub proof fn current_tasks_pages_chain(s: DupworkView, a: Seq<char>, from_index: u64, x: u64, b: u64)
    requires
        from_index + x + b <= u64::MAX,
        current_tasks_outcome(s, a, from_index, (x + b) as u64) is Ok,
    ensures
        current_tasks_outcome(s, a, from_index, x)->Ok_0 + current_tasks_outcome(
            s,
            a,
            (from_index + x) as u64,
            b,
        )->Ok_0 == current_tasks_outcome(s, a, from_index, (x + b) as u64)->Ok_0,
{
    job_pages_chain(s, lookup(s.users, a)->0.current_jobs, from_index, x, b);
}

/// `completed_tasks(a, from_index, limit)` skips the `from_index` most
/// recently completed jobs of `a` and gives the next ones, newest first.
pub proof fn completed_tasks_page_positions(
    s: DupworkView,
    a: Seq<char>,
    from_index: u64,
    limit: u64,
)
    requires
        completed_tasks_outcome(s, a, from_index, limit) is Ok,
    ensures
        ({
            let jobs = lookup(s.users, a)->0.completed_jobs;
            let v = completed_tasks_outcome(s, a, from_index, limit)->Ok_0;
            &&& v.len() == page_len(jobs.len() as int, from_index as int, limit as int)
            &&& forall|k: int|
                0 <= k < v.len() ==> #[trigger] v[k] == (
                    jobs[jobs.len() - 1 - from_index - k],
                    wrap_task(lookup(s.tasks, jobs[jobs.len() - 1 - from_index - k])->0),
                )
        }),
{
    job_page_positions(s, lookup(s.users, a)->0.completed_jobs, from_index, limit);
}

/// Consecutive pages of `completed_tasks` chain, newest first.
pub proof fn completed_tasks_pages_chain(
    s: DupworkView,
    a: Seq<char>,
    from_index: u64,
    x: u64,
    b: u64,
)
    requires
        from_index + x + b <= u64::MAX,
        completed_tasks_outcome(s, a, from_index, (x + b) as u64) is Ok,
    ensures
        completed_tasks_outcome(s, a, from_index, x)->Ok_0 + completed_tasks_outcome(
            s,
            a,
            (from_index + x) as u64,
            b,
        )->Ok_0 == completed_tasks_outcome(s, a, from_index, (x + b) as u64)->Ok_0,
{
    job_pages_chain(s, lookup(s.users, a)->0.completed_jobs, from_index, x, b);
}

/// `available_tasks(from_index, limit)` gives the page of tasks that skips
/// the `from_index` newest and holds at most `limit`, oldest first.
pub proof fn available_tasks_page_positions(s: DupworkView, from_index: u64, limit: u64)
    requires
        from_index + limit <= u64::MAX,
    ensures
        ({
            let n = s.tasks.len() as int;
            let m = page_len(n, from_index as int, limit as int);
            let v = available_tasks_outcome(s, from_index, limit)->Ok_0;
            &&& available_tasks_outcome(s, from_index, limit) is Ok
            &&& v.len() == m
            &&& forall|k: int|
                0 <= k < m ==> #[trigger] v[k] == (
                    s.tasks[n - from_index - m + k].0,
                    wrap_task(s.tasks[n - from_index - m + k].1),
                )
        }),
{
}

/// Paying a proposal sends its worker the task's price and the submit bond
/// back, and records the price for the payment that follows. Only the task's
/// owner pays, and only a proposal that exists and is not rejected.
pub proof fn approval_pays_price_and_bond(
    s: DupworkView,
    ctx: ContextView,
    task_id: Seq<char>,
    worker_id: Seq<char>,
)
    requires
        s.wf(),
        approve_work_outcome(s, ctx, task_id, worker_id) is Ok,
    ensures
        ({
            let task = lookup(s.tasks, task_id)->0;
            let p = lookup(task.proposals, worker_id)->0;
            let r = approve_work_outcome(s, ctx, task_id, worker_id)->Ok_0;
            &&& has_key(s.tasks, task_id)
            &&& task.owner == ctx.predecessor
            &&& has_key(task.proposals, worker_id)
            &&& !p.is_rejected
            &&& r.0.receiver_id == p.account_id
            &&& r.0.amount == task.price + SUBMIT_BOND
            &&& r.1.task_id == task_id
            &&& r.1.beneficiary_id == p.account_id
            &&& r.1.amount_to_transfer == task.price
        }),
{
    stored_task_payment_fits(s, task_id);
}

/// Rejecting marks that one proposal rejected, keeping its worker and proof,
/// and changes nothing else: the task's other proposals and fields, the
/// members and the categories stay as they were. Only the owner rejects,
/// and only a proposal not yet approved.
#[verifier::spinoff_prover]
pub proof fn rejection_marks_only_that_proposal(
    s: DupworkView,
    ctx: ContextView,
    task_id: Seq<char>,
    worker_id: Seq<char>,
)
    requires
        s.wf(),
        reject_work_outcome(s, ctx, task_id, worker_id) is Ok,
    ensures
        ({
            let task = lookup(s.tasks, task_id)->0;
            let p = lookup(task.proposals, worker_id)->0;
            let s2 = reject_work_outcome(s, ctx, task_id, worker_id)->Ok_0;
            let task2 = lookup(s2.tasks, task_id)->0;
            &&& task.owner == ctx.predecessor
            &&& has_key(task.proposals, worker_id)
            &&& !p.is_approved
            &&& has_key(s2.tasks, task_id)
            &&& lookup(task2.proposals, worker_id) == Some(
                ProposalView {
                    account_id: p.account_id,
                    proof_of_work: p.proof_of_work,
                    is_approved: false,
                    is_rejected: true,
                },
            )
            &&& forall|w: Seq<char>|
                w != worker_id ==> #[trigger] lookup(task2.proposals, w) == lookup(
                    task.proposals,
                    w,
                )
            &&& task2.owner == task.owner && task2.price == task.price
            &&& task2.max_participants == task.max_participants
            &&& task2.available_until == task.available_until
            &&& forall|t: Seq<char>| t != task_id ==> #[trigger] lookup(s2.tasks, t) == lookup(
                s.tasks,
                t,
            )
            &&& s2.users == s.users
            &&& s2.categories == s.categories
        }),
{
    let task = lookup(s.tasks, task_id)->0;
    let p = lookup(task.proposals, worker_id)->0;
    crate::model::lemma_lookup_all(s.tasks, task_id, |t: TaskView| crate::model::task_ok(t));
    let np = ProposalView { is_rejected: true, ..p };
    lemma_put_distinct(task.proposals, worker_id, np);
    lemma_put_distinct(
        s.tasks,
        task_id,
        TaskView { proposals: crate::table::put(task.proposals, worker_id, np), ..task },
    );
}

/// A submission is accepted only with exactly the submit bond, on a task that
/// exists and has not reached its deadline, that has fewer approved
/// proposals than places, from a member. Without the exact bond it is
/// refused with `SubmitBondMismatch`; at or after the deadline, with
/// `TaskExpired`.
pub proof fn submission_requirements(
    s: DupworkView,
    ctx: ContextView,
    task_id: Seq<char>,
    proof: Seq<char>,
)
    ensures
        ({
            let task = lookup(s.tasks, task_id)->0;
            submit_work_outcome(s, ctx, task_id, proof) is Ok ==> {
                &&& ctx.deposit == SUBMIT_BOND
                &&& has_key(s.tasks, task_id)
                &&& ctx.timestamp < task.available_until
                &&& approved_proposals(task.proposals).len() < task.max_participants
                &&& account_id_is_valid(ctx.predecessor)
                &&& has_key(s.users, ctx.predecessor)
            }
        }),
        ctx.deposit != SUBMIT_BOND ==> submit_work_outcome(s, ctx, task_id, proof) == Err::<
            DupworkView,
            ContractError,
        >(ContractError::SubmitBondMismatch),
        (ctx.deposit == SUBMIT_BOND && has_key(s.tasks, task_id) && ctx.timestamp >= lookup(
            s.tasks,
            task_id,
        )->0.available_until) ==> submit_work_outcome(s, ctx, task_id, proof) == Err::<
            DupworkView,
            ContractError,
        >(ContractError::TaskExpired),
{
    lemma_count_is_filter(lookup(s.tasks, task_id)->0.proposals);
}

/// Registering takes exactly the register bond from a valid account, and
/// the caller then has a fresh record: its account, the default bio, the
/// chosen role with nothing moved yet, and no jobs.
pub proof fn registration_starts_fresh(s: DupworkView, ctx: ContextView, requester: bool)
    requires
        s.wf(),
    ensures
        register_outcome(s, ctx, requester) is Ok <==> (ctx.deposit == REGISTER_BOND
            && account_id_is_valid(ctx.predecessor)),
        register_outcome(s, ctx, requester) is Ok ==> lookup(
            register_outcome(s, ctx, requester)->Ok_0.users,
            ctx.predecessor,
        ) == Some(
            UserView {
                account_id: ctx.predecessor,
                bio: "A member of dWork"@,
                user_type: if requester {
                    UserType::Requester { total_transfered: 0, current_requests: 0 }
                } else {
                    UserType::Worker { total_received: 0, current_applies: 0 }
                },
                current_jobs: Seq::empty(),
                completed_jobs: Seq::empty(),
            },
        ),
{
    lemma_put_distinct(s.users, ctx.predecessor, crate::model::new_user(ctx.predecessor, requester));
}

/// A new category is stored under its identifier with its name, the time of
/// creation and no posts; a name longer than the title limit is refused.
pub proof fn new_category_stored(s: DupworkView, ctx: ContextView, name: Seq<char>)
    requires
        s.wf(),
    ensures
        byte_len(name) > MAX_TITLE_LENGTH ==> new_category_outcome(s, ctx, name) == Err::<
            DupworkView,
            ContractError,
        >(ContractError::TitleTooLong),
        new_category_outcome(s, ctx, name) is Ok ==> {
            &&& !has_key(s.categories, category_id_for(name))
            &&& byte_len(name) <= MAX_TITLE_LENGTH
            &&& lookup(new_category_outcome(s, ctx, name)->Ok_0.categories, category_id_for(name))
                == Some(
                CategoryView {
                    id: category_id_for(name),
                    name,
                    created: ctx.timestamp,
                    num_posts: 0,
                },
            )
        },
{
    let id = category_id_for(name);
    lemma_put_distinct(
        s.categories,
        id,
        CategoryView { id, name, created: ctx.timestamp, num_posts: 0 },
    );
}

/// The proposals rejected and never paid, in order.
pub open spec fn rejected_unpaid(ps: Seq<(Seq<char>, ProposalView)>) -> Seq<
    (Seq<char>, ProposalView),
> {
    ps.filter(|e: (Seq<char>, ProposalView)| e.1.is_rejected && !e.1.is_approved)
}

/// The bonds returned at closing go, one each, to the workers of the
/// proposals rejected and never paid, in order.
pub proof fn lemma_bond_refunds_are_rejected(ps: Seq<(Seq<char>, ProposalView)>)
    ensures
        bond_refunds(ps).len() == rejected_unpaid(ps).len(),
        forall|k: int|
            0 <= k < rejected_unpaid(ps).len() ==> bond_refunds(ps)[k] == (TransferView {
                receiver_id: (#[trigger] rejected_unpaid(ps)[k]).1.account_id,
                amount: SUBMIT_BOND,
            }),
    decreases ps.len(),
{
    reveal(Seq::filter);
    if ps.len() > 0 {
        lemma_bond_refunds_are_rejected(ps.drop_last());
        let r0 = rejected_unpaid(ps.drop_last());
        let r = rejected_unpaid(ps);
        let b0 = bond_refunds(ps.drop_last());
        let b = bond_refunds(ps);
        assert forall|k: int| 0 <= k < r.len() implies b[k] == (TransferView {
            receiver_id: (#[trigger] r[k]).1.account_id,
            amount: SUBMIT_BOND,
        }) by {
            if k < r0.len() {
                assert(r[k] == r0[k]);
                assert(b[k] == b0[k]);
            }
        }
    }
}

/// Closing a task: only its owner closes it. Where fewer proposals are
/// approved than places, the task must be past its deadline and the first
/// transfer pays the owner the price of every place no proposal took; then
/// each proposal rejected and never paid gets its submit bond back, in
/// order, and nothing else is paid. A requester's record shows the task
/// completed and no longer open, one request fewer, and the refund counted.
#[verifier::spinoff_prover]
pub proof fn closing_refunds_places_then_bonds(s: DupworkView, ctx: ContextView, task_id: Seq<char>)
    requires
        s.wf(),
        mark_task_as_completed_outcome(s, ctx, task_id) is Ok,
    ensures
        ({
            let task = lookup(s.tasks, task_id)->0;
            let ps = task.proposals;
            let r = mark_task_as_completed_outcome(s, ctx, task_id)->Ok_0;
            let t = r.1;
            let rej = rejected_unpaid(ps);
            let refunded = approved_proposals(ps).len() < task.max_participants;
            let h: int = if refunded {
                1
            } else {
                0
            };
            &&& has_key(s.tasks, task_id)
            &&& task.owner == ctx.predecessor
            &&& refunded ==> task.available_until < ctx.timestamp
            &&& t.len() == h + rej.len()
            &&& refunded ==> t[0].receiver_id == ctx.predecessor && t[0].amount == task.price * (
            task.max_participants - ps.len())
            &&& forall|k: int|
                0 <= k < rej.len() ==> t[h + k] == (TransferView {
                    receiver_id: (#[trigger] rej[k]).1.account_id,
                    amount: SUBMIT_BOND,
                })
            &&& (lookup(s.users, ctx.predecessor)->0.user_type matches UserType::Requester {
                total_transfered,
                current_requests,
            } ==> {
                let o2 = lookup(r.0.users, ctx.predecessor)->0;
                &&& has_key(r.0.users, ctx.predecessor)
                &&& o2.completed_jobs.contains(task_id)
                &&& !o2.current_jobs.contains(task_id)
                &&& o2.user_type == UserType::Requester {
                    total_transfered: (total_transfered + task.price * (task.max_participants
                        - ps.len())) as u128,
                    current_requests: (current_requests - 1) as u16,
                }
            })
        }),
{
    let task = lookup(s.tasks, task_id)->0;
    let ps = task.proposals;
    lemma_count_is_filter(ps);
    lemma_bond_refunds_are_rejected(ps);
    let o = ctx.predecessor;
    let owner = lookup(s.users, o)->0;
    match owner.user_type {
        UserType::Requester { total_transfered, current_requests } => {
            crate::model::lemma_lookup_all(s.users, o, |u: UserView| crate::model::user_ok(u));
            let amount = crate::model::refund_amount(task) as u128;
            let o2 = UserView {
                user_type: UserType::Requester {
                    total_transfered: (total_transfered + amount) as u128,
                    current_requests: (current_requests - 1) as u16,
                },
                ..crate::model::finish_job(owner, task_id)
            };
            lemma_put_distinct(s.users, o, o2);
            crate::invariants::lemma_set_add_contains(owner.completed_jobs, task_id);
            crate::table::lemma_set_drop_distinct(owner.current_jobs, task_id);
        },
        UserType::Worker { .. } => {},
    }
}

/// Creating a task: the caller must be a requester who deposits exactly the
/// price of every place, within the allowed range, under an existing
/// category, with a description within its limit and no more places than
/// allowed. The task is stored as the newest one, under the caller's
/// account, `_` and the block index, with the given fields, no proposals and
/// a deadline `duration` after now; the category counts one more post, and
/// the caller one more open request with the task among the open jobs.
#[verifier::spinoff_prover]
pub proof fn new_task_requirements_and_record(s: DupworkView, ctx: ContextView, a: NewTaskArgs)
    requires
        s.wf(),
        new_task_outcome(s, ctx, a) is Ok,
    ensures
        ({
            let s2 = new_task_outcome(s, ctx, a)->Ok_0;
            let id = task_id_for(ctx.predecessor, ctx.block_index);
            let t = s2.tasks.last().1;
            let user = lookup(s.users, ctx.predecessor)->0;
            let user2 = lookup(s2.users, ctx.predecessor)->0;
            &&& ctx.deposit == a.price * a.max_participants
            &&& MINIMUM_PRICE_PER_TASK <= ctx.deposit <= MAXIMUM_PRICE_PER_TASK
            &&& has_key(s.users, ctx.predecessor)
            &&& user.user_type is Requester
            &&& has_key(s.categories, a.category_id)
            &&& a.max_participants <= MAXIMUM_PROPOSAL_AT_ONE_TIME
            &&& byte_len(a.description) <= MAXIMUM_DESCRIPTION_LENGTH
            &&& !has_key(s.tasks, id)
            &&& s2.tasks.drop_last() == s.tasks
            &&& s2.tasks.last().0 == id
            &&& t.owner == ctx.predecessor && t.title == a.title && t.description == a.description
            &&& t.price == a.price && t.max_participants == a.max_participants
            &&& t.proposals.len() == 0
            &&& t.created_at == ctx.timestamp
            &&& t.available_until == ctx.timestamp + a.duration
            &&& t.category_id == a.category_id
            &&& lookup(s2.categories, a.category_id)->0.num_posts == lookup(
                s.categories,
                a.category_id,
            )->0.num_posts + 1
            &&& user2.current_jobs.contains(id)
            &&& (user.user_type matches UserType::Requester { total_transfered, current_requests }
                ==> user2.user_type == UserType::Requester {
                total_transfered,
                current_requests: (current_requests + 1) as u16,
            })
        }),
{
    let s2 = new_task_outcome(s, ctx, a)->Ok_0;
    let id = task_id_for(ctx.predecessor, ctx.block_index);
    let user = lookup(s.users, ctx.predecessor)->0;
    let cat = lookup(s.categories, a.category_id)->0;
    let nc = CategoryView { num_posts: (cat.num_posts + 1) as u64, ..cat };
    lemma_put_distinct(s.categories, a.category_id, nc);
    let t = crate::model::created_task(ctx, a);
    assert(!has_key(s.tasks, id));
    assert(crate::table::put(s.tasks, id, t) == s.tasks.push((id, t)));
    match user.user_type {
        UserType::Requester { total_transfered, current_requests } => {
            let nu = UserView {
                user_type: UserType::Requester {
                    total_transfered,
                    current_requests: (current_requests + 1) as u16,
                },
                current_jobs: crate::table::set_add(user.current_jobs, id),
                ..user
            };
            assert(s2 == DupworkView {
                tasks: crate::table::put(s.tasks, id, t),
                users: crate::table::put(s.users, ctx.predecessor, nu),
                categories: crate::table::put(s.categories, a.category_id, nc),
            });
            assert(s2.tasks.drop_last() =~= s.tasks);
            assert(s2.tasks.last() == (id, t));
            lemma_put_distinct(s.users, ctx.predecessor, nu);
            crate::invariants::lemma_set_add_contains(user.current_jobs, id);
            assert(lookup(s2.categories, a.category_id)->0 == nc);
        },
        UserType::Worker { .. } => {},
    }
}

/// After a worker was paid, the proposal is marked approved (keeping its
/// worker, proof and rejection mark), and a worker's record shows the job
/// completed and no longer open, the payment counted and one application
/// fewer. If the payment failed, nothing changes and the result is false.
#[verifier::spinoff_prover]
pub proof fn payment_recorded(
    s: DupworkView,
    ctx: ContextView,
    results: Seq<PromiseStatus>,
    task_id: Seq<char>,
    beneficiary_id: Seq<char>,
    amount: u128,
)
    requires
        s.wf(),
    ensures
        (account_id_is_valid(beneficiary_id) && ctx.predecessor == ctx.current && results.len()
            == 1 && results[0] != PromiseStatus::Successful) ==> on_transferd_outcome(
            s,
            ctx,
            results,
            task_id,
            beneficiary_id,
            amount,
        ) == Ok::<(DupworkView, bool), ContractError>((s, false)),
        on_transferd_outcome(s, ctx, results, task_id, beneficiary_id, amount) is Ok
            && on_transferd_outcome(s, ctx, results, task_id, beneficiary_id, amount)->Ok_0.1 ==> {
            let task = lookup(s.tasks, task_id)->0;
            let p = lookup(task.proposals, beneficiary_id)->0;
            let s2 = on_transferd_outcome(s, ctx, results, task_id, beneficiary_id, amount)->Ok_0.0;
            let w = lookup(s.users, beneficiary_id)->0;
            let w2 = lookup(s2.users, beneficiary_id)->0;
            &&& ctx.predecessor == ctx.current
            &&& results.len() == 1 && results[0] == PromiseStatus::Successful
            &&& lookup(lookup(s2.tasks, task_id)->0.proposals, beneficiary_id) == Some(
                ProposalView {
                    account_id: p.account_id,
                    proof_of_work: p.proof_of_work,
                    is_approved: true,
                    is_rejected: p.is_rejected,
                },
            )
            &&& (w.user_type matches UserType::Worker { total_received, current_applies } ==> {
                &&& w2.completed_jobs.contains(task_id)
                &&& !w2.current_jobs.contains(task_id)
                &&& w2.user_type == UserType::Worker {
                    total_received: (total_received + amount) as u128,
                    current_applies: (current_applies - 1) as u16,
                }
            })
        },
{
    if on_transferd_outcome(s, ctx, results, task_id, beneficiary_id, amount) is Ok
        && on_transferd_outcome(s, ctx, results, task_id, beneficiary_id, amount)->Ok_0.1 {
        let task = lookup(s.tasks, task_id)->0;
        let p = lookup(task.proposals, beneficiary_id)->0;
        crate::model::lemma_lookup_all(s.tasks, task_id, |t: TaskView| crate::model::task_ok(t));
        let np = ProposalView { is_approved: true, ..p };
        lemma_put_distinct(task.proposals, beneficiary_id, np);
        let task1 = TaskView {
            proposals: crate::table::put(task.proposals, beneficiary_id, np),
            ..task
        };
        lemma_put_distinct(s.tasks, task_id, task1);
        let w = lookup(s.users, beneficiary_id)->0;
        crate::model::lemma_lookup_all(s.users, beneficiary_id, |u: UserView| crate::model::user_ok(u));
        let fw = crate::model::finish_job(w, task_id);
        crate::invariants::lemma_set_add_contains(w.completed_jobs, task_id);
        crate::table::lemma_set_drop_distinct(w.current_jobs, task_id);
        let full = (count_approved(task1.proposals) as u16) == task1.max_participants;
        let users1 = if full {
            crate::table::put(
                s.users,
                task1.owner,
                crate::model::finish_job(lookup(s.users, task1.owner)->0, task_id),
            )
        } else {
            s.users
        };
        if full {
            lemma_put_distinct(
                s.users,
                task1.owner,
                crate::model::finish_job(lookup(s.users, task1.owner)->0, task_id),
            );
        }
        match fw.user_type {
            UserType::Worker { total_received, current_applies } => {
                lemma_put_distinct(
                    users1,
                    beneficiary_id,
                    UserView {
                        user_type: UserType::Worker {
                            total_received: (total_received + amount) as u128,
                            current_applies: (current_applies - 1) as u16,
                        },
                        ..fw
                    },
                );
            },
            UserType::Requester { .. } => {},
        }
    }
}

/// After a requester was refunded, its record shows the job completed, the
/// refund counted and one open request fewer. If the refund failed, nothing
/// changes and the result is false.
#[verifier::spinoff_prover]
pub proof fn refund_recorded(
    s: DupworkView,
    ctx: ContextView,
    results: Seq<PromiseStatus>,
    task_id: Seq<char>,
    owner_id: Seq<char>,
    amount: u128,
)
    requires
        s.wf(),
    ensures
        (account_id_is_valid(owner_id) && ctx.predecessor == ctx.current && results.len() == 1
            && results[0] != PromiseStatus::Successful) ==> on_refund_outcome(
            s,
            ctx,
            results,
            task_id,
            owner_id,
            amount,
        ) == Ok::<(DupworkView, bool), ContractError>((s, false)),
        on_refund_outcome(s, ctx, results, task_id, owner_id, amount) is Ok && on_refund_outcome(
            s,
            ctx,
            results,
            task_id,
            owner_id,
            amount,
        )->Ok_0.1 ==> {
            let o = lookup(s.users, owner_id)->0;
            let o2 = lookup(
                on_refund_outcome(s, ctx, results, task_id, owner_id, amount)->Ok_0.0.users,
                owner_id,
            )->0;
            &&& ctx.predecessor == ctx.current
            &&& results.len() == 1 && results[0] == PromiseStatus::Successful
            &&& (o.user_type matches UserType::Requester { total_transfered, current_requests }
                ==> {
                &&& o2.completed_jobs.contains(task_id)
                &&& o2.user_type == UserType::Requester {
                    total_transfered: (total_transfered + amount) as u128,
                    current_requests: (current_requests - 1) as u16,
                }
            })
        },
{
    if on_refund_outcome(s, ctx, results, task_id, owner_id, amount) is Ok && on_refund_outcome(
        s,
        ctx,
        results,
        task_id,
        owner_id,
        amount,
    )->Ok_0.1 {
        let o = lookup(s.users, owner_id)->0;
        let fo = crate::model::finish_job(o, task_id);
        crate::invariants::lemma_set_add_contains(o.completed_jobs, task_id);
        match fo.user_type {
            UserType::Requester { total_transfered, current_requests } => {
                lemma_put_distinct(
                    s.users,
                    owner_id,
                    UserView {
                        user_type: UserType::Requester {
                            total_transfered: (total_transfered + amount) as u128,
                            current_requests: (current_requests - 1) as u16,
                        },
                        ..fo
                    },
                );
            },
            UserType::Worker { .. } => {},
        }
    }
}

/// The number that a string of decimal digits spells.
pub open spec fn digits_value(d: Seq<char>) -> int
    decreases d.len(),
{
    if d.len() == 0 {
        0
    } else {
        digits_value(d.drop_last()) * 10 + (d.last() as int - 48)
    }
}

/// The decimal form of `n` is made of the digits `0` to `9`, spells `n`,
/// and starts with `0` only when it is `0` itself.
pub proof fn decimal_spells_number(n: nat)
    ensures
        decimal(n).len() >= 1,
        forall|i: int| 0 <= i < decimal(n).len() ==> '0' <= #[trigger] decimal(n)[i] <= '9',
        digits_value(decimal(n)) == n,
        decimal(n)[0] == '0' ==> n == 0,
    decreases n,
{
    let d = decimal(n);
    if n >= 10 {
        decimal_spells_number(n / 10);
        assert(d.drop_last() == decimal(n / 10));
        assert(d[0] == decimal(n / 10)[0]);
        assert(d.last() == crate::text::digit_char(n % 10));
        assert(crate::text::digit_char(n % 10) as int == 48 + n % 10);
        assert(digits_value(d) == digits_value(decimal(n / 10)) * 10 + (n % 10));
        assert(n == (n / 10) * 10 + n % 10);
    } else {
        assert(d.last() == crate::text::digit_char(n));
        assert(crate::text::digit_char(n) as int == 48 + n);
        assert(d.drop_last() =~= Seq::<char>::empty());
        assert(digits_value(d.drop_last()) == 0);
    }
}

/// A task's identifier is its owner's account, then `_`, then the block
/// index in decimal.
pub proof fn task_id_shape(owner: Seq<char>, block_index: u64)
    ensures
        task_id_for(owner, block_index).len() == owner.len() + 1 + decimal(
            block_index as nat,
        ).len(),
        task_id_for(owner, block_index).take(owner.len() as int) == owner,
        task_id_for(owner, block_index)[owner.len() as int] == '_',
        task_id_for(owner, block_index).skip(owner.len() as int + 1) == decimal(block_index as nat),
{
    let id = task_id_for(owner, block_index);
    assert(id.take(owner.len() as int) =~= owner);
    assert(id.skip(owner.len() as int + 1) =~= decimal(block_index as nat));
}

/// A listed task shows the task's fields as stored, and its proposals in
/// order with their worker, proof and marks.
pub proof fn wrapped_task_shows_task(t: TaskView)
    ensures
        ({
            let w = wrap_task(t);
            &&& w.owner == t.owner && w.title == t.title && w.description == t.description
            &&& w.max_participants == t.max_participants && w.price == t.price
            &&& w.created_at == t.created_at && w.available_until == t.available_until
            &&& w.category_id == t.category_id
            &&& w.proposals.len() == t.proposals.len()
            &&& forall|i: int|
                0 <= i < t.proposals.len() ==> {
                    let q = #[trigger] w.proposals[i];
                    &&& q.account_id == t.proposals[i].1.account_id
                    &&& q.proof_of_work == t.proposals[i].1.proof_of_work
                    &&& q.is_approved == t.proposals[i].1.is_approved
                    &&& q.is_reject == t.proposals[i].1.is_rejected
                }
        }),
{
}

/// `tasks_by_ids` gives, for each name in order, that name and its task; it
/// is refused with `TaskNotFound` exactly when some name is not a task.
pub proof fn tasks_by_ids_in_order(s: DupworkView, ids: Seq<Seq<char>>)
    ensures
        tasks_by_ids_outcome(s, ids) is Err <==> exists|i: int|
            0 <= i < ids.len() && !has_key(s.tasks, #[trigger] ids[i]),
        tasks_by_ids_outcome(s, ids) is Err ==> tasks_by_ids_outcome(s, ids) == Err::<
            Seq<(Seq<char>, crate::json_types::WrappedTaskView)>,
            ContractError,
        >(ContractError::TaskNotFound),
        tasks_by_ids_outcome(s, ids) is Ok ==> {
            let r = tasks_by_ids_outcome(s, ids)->Ok_0;
            &&& r.len() == ids.len()
            &&& forall|i: int|
                0 <= i < ids.len() ==> #[trigger] r[i] == (
                    ids[i],
                    wrap_task(lookup(s.tasks, ids[i])->0),
                ) && has_key(s.tasks, ids[i])
        },
{
}

/// `user_info` shows a member's stored account, bio, role and completed
/// tasks; it succeeds for every member with a valid account.
pub proof fn user_info_shows_record(s: DupworkView, a: Seq<char>)
    ensures
        (account_id_is_valid(a) && has_key(s.users, a)) <==> user_info_outcome(s, a) is Ok,
        user_info_outcome(s, a) is Ok ==> {
            let u = lookup(s.users, a)->0;
            let w = user_info_outcome(s, a)->Ok_0;
            &&& w.account_id == u.account_id
            &&& w.bio == u.bio
            &&& w.user_type == u.user_type
            &&& w.completed_jobs == u.completed_jobs
        },
{
}

} // verus!
