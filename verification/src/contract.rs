//! The contract: its state and the calls that change it.
use vstd::prelude::*;
use crate::constants::{
    REGISTER_BOND, SUBMIT_BOND, MINIMUM_PRICE_PER_TASK, MAXIMUM_PRICE_PER_TASK,
    MAXIMUM_DESCRIPTION_LENGTH, MAXIMUM_PROPOSAL_AT_ONE_TIME, MAX_TITLE_LENGTH,
};
use crate::context::{
    Context, ContractError, Transfer, TransferView, TransferCallback, TransferCallbackView,
};
use crate::model::{
    DupworkView, NewTaskArgs, new_user, created_task, register_outcome, leave_outcome,
    update_bio_outcome, new_category_outcome, new_task_outcome, approve_work_outcome,
    reject_work_outcome, mark_task_as_completed_outcome, submit_work_outcome, count_approved,
    all_checked, all_values, task_ok, user_ok, lemma_put_all, lemma_delete_all, lemma_lookup_all,
    lemma_price_bounded, bond_refunds, finish_job,
};
use crate::table::{
    Table, KeySet, lookup, put, entries_view, lemma_set_add_distinct, lemma_set_drop_distinct,
};
use crate::text::{check_account_id, text_byte_len, make_category_id, make_task_id};
use crate::types::{Task, TaskView, User, UserView, UserType, Category, Proposal};

verus! {

/// The marketplace.
pub struct Dupwork {
    tasks_recores: Table<Task>,
    users: Table<User>,
    categories: Table<Category>,
}

impl View for Dupwork {
    type V = DupworkView;

    closed spec fn view(&self) -> DupworkView {
        DupworkView {
            tasks: self.tasks_recores@,
            users: self.users@,
            categories: self.categories@,
        }
    }
}

/// The result of a call that returns nothing, seen against its outcome:
/// either the new state, or the error with the state unchanged.
pub open spec fn follows(
    outcome: Result<DupworkView, ContractError>,
    r: Result<(), ContractError>,
    pre: DupworkView,
    post: DupworkView,
) -> bool {
    match outcome {
        Ok(s) => r is Ok && post == s,
        Err(e) => r == Err::<(), ContractError>(e) && post == pre,
    }
}

/// The result of a call that returns a value, seen against its outcome.
pub open spec fn follows_with<T>(
    outcome: Result<(DupworkView, T), ContractError>,
    r: Result<T, ContractError>,
    pre: DupworkView,
    post: DupworkView,
) -> bool {
    match outcome {
        Ok((s, v)) => r == Ok::<T, ContractError>(v) && post == s,
        Err(e) => r == Err::<T, ContractError>(e) && post == pre,
    }
}

/// A transfer result seen as its model.
pub open spec fn transfer_result(r: Result<Transfer, ContractError>) -> Result<
    TransferView,
    ContractError,
> {
    match r {
        Ok(t) => Ok(t@),
        Err(e) => Err(e),
    }
}

/// Payments as their model.
pub open spec fn transfers_view(v: Seq<Transfer>) -> Seq<TransferView> {
    v.map_values(|t: Transfer| t@)
}

/// A result with payments seen as its model.
pub open spec fn transfers_result(r: Result<Vec<Transfer>, ContractError>) -> Result<
    Seq<TransferView>,
    ContractError,
> {
    match r {
        Ok(v) => Ok(transfers_view(v@)),
        Err(e) => Err(e),
    }
}

/// The submission bonds to return when a task closes.
pub fn bond_refund_transfers(ps: &Table<Proposal>) -> (v: Vec<Transfer>)
    ensures
        transfers_view(v@) == bond_refunds(ps@),
{
    let len = ps.len();
    let mut v: Vec<Transfer> = Vec::new();
    let mut i: usize = 0;
    while i < len
        invariant
            len == ps@.len(),
            i <= len,
            transfers_view(v@) == bond_refunds(ps@.take(i as int)),
        decreases len - i,
    {
        assert(ps@.take(i + 1).drop_last() =~= ps@.take(i as int));
        let p = ps.value_at(i);
        let ghost before = transfers_view(v@);
        if p.is_rejected && !p.is_approved {
            v.push(Transfer { receiver_id: p.account_id.clone(), amount: SUBMIT_BOND });
            assert(transfers_view(v@) =~= bond_refunds(ps@.take(i + 1)));
        } else {
            assert(transfers_view(v@) =~= bond_refunds(ps@.take(i + 1)));
        }
        i = i + 1;
    }
    assert(ps@.take(len as int) =~= ps@);
    v
}

/// Moves the task from the user's open jobs to the completed ones.
pub(crate) fn complete_job(user: &mut User, task_id: &String)
    requires
        user_ok(old(user)@),
    ensures
        final(user)@ == finish_job(old(user)@, task_id@),
        user_ok(final(user)@),
{
    proof {
        lemma_set_add_distinct(user.completed_jobs@, task_id@);
        lemma_set_drop_distinct(user.current_jobs@, task_id@);
    }
    user.completed_jobs.insert(task_id.clone());
    user.current_jobs.remove(task_id);
}

/// A payment with its callback seen as its model.
pub open spec fn payment_result(r: Result<(Transfer, TransferCallback), ContractError>) -> Result<
    (TransferView, TransferCallbackView),
    ContractError,
> {
    match r {
        Ok((t, c)) => Ok((t@, c@)),
        Err(e) => Err(e),
    }
}

/// Counts the approved proposals.
pub fn approved_count(ps: &Table<Proposal>) -> (n: usize)
    ensures
        n == count_approved(ps@),
{
    let len = ps.len();
    let mut n: usize = 0;
    let mut i: usize = 0;
    while i < len
        invariant
            len == ps@.len(),
            i <= len,
            n <= i,
            n == count_approved(ps@.take(i as int)),
        decreases len - i,
    {
        assert(ps@.take(i + 1).drop_last() =~= ps@.take(i as int));
        if ps.value_at(i).is_approved {
            n = n + 1;
        }
        i = i + 1;
    }
    assert(ps@.take(len as int) =~= ps@);
    n
}

/// Whether every proposal is approved or rejected.
pub fn every_proposal_checked(ps: &Table<Proposal>) -> (b: bool)
    ensures
        b == all_checked(ps@),
{
    let len = ps.len();
    let mut i: usize = 0;
    while i < len
        invariant
            len == ps@.len(),
            i <= len,
            forall|j: int| 0 <= j < i ==> (#[trigger] ps@[j]).1.is_approved || ps@[j].1.is_rejected,
        decreases len - i,
    {
        let p = ps.value_at(i);
        if !p.is_approved && !p.is_rejected {
            return false;
        }
        i = i + 1;
    }
    true
}

/// Whether a task may be stored: no worker with two proposals, and its
/// escrow within the allowed range.
pub fn task_is_storable(t: &Task) -> (b: bool)
    ensures
        b == task_ok(t@),
{
    if !t.proposals.has_distinct_keys() {
        return false;
    }
    match (t.max_participants as u128).checked_mul(t.price) {
        None => false,
        Some(e) => MINIMUM_PRICE_PER_TASK <= e && e <= MAXIMUM_PRICE_PER_TASK,
    }
}

/// Whether a user may be stored: no task twice in either list.
pub fn user_is_storable(u: &User) -> (b: bool)
    ensures
        b == user_ok(u@),
{
    u.current_jobs.has_distinct_items() && u.completed_jobs.has_distinct_items()
}

fn all_tasks_storable(t: &Table<Task>) -> (b: bool)
    ensures
        b == all_values(t@, |x: TaskView| task_ok(x)),
{
    let n = t.len();
    for i in 0..n
        invariant
            n == t@.len(),
            forall|j: int| 0 <= j < i ==> task_ok(#[trigger] t@[j].1),
    {
        if !task_is_storable(t.value_at(i)) {
            return false;
        }
    }
    true
}

fn all_users_storable(t: &Table<User>) -> (b: bool)
    ensures
        b == all_values(t@, |x: UserView| user_ok(x)),
{
    let n = t.len();
    for i in 0..n
        invariant
            n == t@.len(),
            forall|j: int| 0 <= j < i ==> user_ok(#[trigger] t@[j].1),
    {
        if !user_is_storable(t.value_at(i)) {
            return false;
        }
    }
    true
}

impl Dupwork {
    /// The contents of the state, table by table, in order.
    pub fn export(&self) -> (r: (Vec<(String, Task)>, Vec<(String, User)>, Vec<(String, Category)>))
        ensures
            entries_view(r.0@) == self@.tasks,
            entries_view(r.1@) == self@.users,
            entries_view(r.2@) == self@.categories,
    {
        (self.tasks_recores.to_entries(), self.users.to_entries(), self.categories.to_entries())
    }

    /// The state holding the given contents; none where they break the
    /// well-formedness of the state.
    pub fn import(
        tasks: Vec<(String, Task)>,
        users: Vec<(String, User)>,
        categories: Vec<(String, Category)>,
    ) -> (r: Option<Dupwork>)
        ensures
            ({
                let v = DupworkView {
                    tasks: entries_view(tasks@),
                    users: entries_view(users@),
                    categories: entries_view(categories@),
                };
                match r {
                    Some(d) => d.wf() && d@ == v,
                    None => !v.wf(),
                }
            }),
    {
        let tasks_recores = match Table::from_entries(tasks) {
            None => return None,
            Some(t) => t,
        };
        let users = match Table::from_entries(users) {
            None => return None,
            Some(t) => t,
        };
        let categories = match Table::from_entries(categories) {
            None => return None,
            Some(t) => t,
        };
        if !all_tasks_storable(&tasks_recores) || !all_users_storable(&users) {
            return None;
        }
        Some(Dupwork { tasks_recores, users, categories })
    }

    /// No key twice in any table or list, and every task's escrow within the
    /// allowed range.
    pub open spec fn wf(&self) -> bool {
        self@.wf()
    }

    /// The number of tasks.
    pub(crate) fn tasks_len(&self) -> (n: usize)
        ensures
            n == self@.tasks.len(),
    {
        self.tasks_recores.len()
    }

    /// The identifier of the task at position `i`.
    pub(crate) fn task_key_at(&self, i: usize) -> (k: &String)
        requires
            i < self@.tasks.len(),
        ensures
            k@ == self@.tasks[i as int].0,
    {
        self.tasks_recores.key_at(i)
    }

    /// The task at position `i`.
    pub(crate) fn task_at(&self, i: usize) -> (t: &Task)
        requires
            i < self@.tasks.len(),
        ensures
            t@ == self@.tasks[i as int].1,
    {
        self.tasks_recores.value_at(i)
    }

    /// The number of categories.
    pub(crate) fn categories_len(&self) -> (n: usize)
        ensures
            n == self@.categories.len(),
    {
        self.categories.len()
    }

    /// The category at position `i`.
    pub(crate) fn category_at(&self, i: usize) -> (c: &Category)
        requires
            i < self@.categories.len(),
        ensures
            c@ == self@.categories[i as int].1,
    {
        self.categories.value_at(i)
    }

    /// A copy of the task stored under `id`.
    pub(crate) fn tasks_get(&self, id: &String) -> (r: Option<Task>)
        requires
            self.wf(),
        ensures
            match r {
                Some(t) => lookup(self@.tasks, id@) == Some(t@) && task_ok(t@),
                None => lookup(self@.tasks, id@) is None,
            },
    {
        let r = self.tasks_recores.get(id);
        proof {
            if r is Some {
                lemma_lookup_all(self.tasks_recores@, id@, |t: TaskView| task_ok(t));
            }
        }
        r
    }

    /// A copy of the user stored under `id`.
    pub(crate) fn users_get(&self, id: &String) -> (r: Option<User>)
        requires
            self.wf(),
        ensures
            match r {
                Some(u) => lookup(self@.users, id@) == Some(u@) && user_ok(u@),
                None => lookup(self@.users, id@) is None,
            },
    {
        let r = self.users.get(id);
        proof {
            if r is Some {
                lemma_lookup_all(self.users@, id@, |u: UserView| user_ok(u));
            }
        }
        r
    }

    /// Stores a task under `id`.
    pub(crate) fn tasks_put(&mut self, id: String, task: Task)
        requires
            old(self).wf(),
            task_ok(task@),
        ensures
            final(self).wf(),
            final(self)@ == (DupworkView { tasks: put(old(self)@.tasks, id@, task@), ..old(self)@ }),
    {
        proof {
            lemma_put_all(self.tasks_recores@, id@, task@, |t: TaskView| task_ok(t));
        }
        self.tasks_recores.insert(id, task);
    }

    /// Stores a user under `id`.
    pub(crate) fn users_put(&mut self, id: String, user: User)
        requires
            old(self).wf(),
            user_ok(user@),
        ensures
            final(self).wf(),
            final(self)@ == (DupworkView { users: put(old(self)@.users, id@, user@), ..old(self)@ }),
    {
        proof {
            lemma_put_all(self.users@, id@, user@, |u: UserView| user_ok(u));
        }
        self.users.insert(id, user);
    }

    /// An empty marketplace.
    pub fn new() -> (c: Dupwork)
        ensures
            c.wf(),
            c@ == (DupworkView {
                tasks: Seq::empty(),
                users: Seq::empty(),
                categories: Seq::empty(),
            }),
    {
        Dupwork { tasks_recores: Table::new(), users: Table::new(), categories: Table::new() }
    }

    /// Registers the caller as a requester or as a worker; the caller attaches
    /// exactly the register bond.
    pub fn register(&mut self, ctx: &Context, requester: bool) -> (r: Result<(), ContractError>)
        requires
            old(self).wf(),
        ensures
            final(self).wf(),
            follows(register_outcome(old(self)@, ctx@, requester), r, old(self)@, final(self)@),
    {
        if ctx.attached_deposit != REGISTER_BOND {
            return Err(ContractError::RegisterBondMismatch);
        }
        if !check_account_id(&ctx.predecessor_account_id) {
            return Err(ContractError::InvalidAccountId);
        }
        let user_type = if requester {
            UserType::Requester { total_transfered: 0, current_requests: 0 }
        } else {
            UserType::Worker { total_received: 0, current_applies: 0 }
        };
        let user = User {
            account_id: ctx.predecessor_account_id.clone(),
            bio: "A member of dWork".to_owned(),
            user_type,
            current_jobs: KeySet::new(),
            completed_jobs: KeySet::new(),
        };
        assert(user@ == new_user(ctx@.predecessor, requester));
        proof {
            lemma_put_all(self.users@, ctx@.predecessor, user@, |u: UserView| user_ok(u));
        }
        self.users.insert(ctx.predecessor_account_id.clone(), user);
        Ok(())
    }

    /// The caller leaves; the register bond is paid back.
    pub fn leave(&mut self, ctx: &Context) -> (r: Result<Transfer, ContractError>)
        requires
            old(self).wf(),
        ensures
            final(self).wf(),
            follows_with(leave_outcome(old(self)@, ctx@), transfer_result(r), old(self)@, final(self)@),
    {
        if !check_account_id(&ctx.predecessor_account_id) {
            return Err(ContractError::InvalidAccountId);
        }
        if !self.users.contains_key(&ctx.predecessor_account_id) {
            return Err(ContractError::NotMember);
        }
        proof {
            lemma_delete_all(self.users@, ctx@.predecessor, |u: UserView| user_ok(u));
        }
        self.users.remove(&ctx.predecessor_account_id);
        Ok(Transfer { receiver_id: ctx.predecessor_account_id.clone(), amount: REGISTER_BOND })
    }

    /// The caller replaces the bio.
    pub fn update_bio(&mut self, ctx: &Context, bio: String) -> (r: Result<(), ContractError>)
        requires
            old(self).wf(),
        ensures
            final(self).wf(),
            follows(update_bio_outcome(old(self)@, ctx@, bio@), r, old(self)@, final(self)@),
    {
        if !check_account_id(&ctx.predecessor_account_id) {
            return Err(ContractError::InvalidAccountId);
        }
        match self.users.get(&ctx.predecessor_account_id) {
            None => Err(ContractError::UserNotFound),
            Some(mut user) => {
                proof {
                    lemma_lookup_all(self.users@, ctx@.predecessor, |u: UserView| user_ok(u));
                }
                user.bio = bio;
                proof {
                    lemma_put_all(self.users@, ctx@.predecessor, user@, |u: UserView| user_ok(u));
                }
                self.users.insert(ctx.predecessor_account_id.clone(), user);
                Ok(())
            },
        }
    }

    /// A requester creates a task, attaching the price of every participant;
    /// the task is filed under an existing category.
    pub fn new_task(
        &mut self,
        ctx: &Context,
        title: String,
        description: String,
        price: u128,
        max_participants: u16,
        duration: u64,
        category_id: String,
    ) -> (r: Result<(), ContractError>)
        requires
            old(self).wf(),
        ensures
            final(self).wf(),
            follows(
                new_task_outcome(
                    old(self)@,
                    ctx@,
                    NewTaskArgs {
                        title: title@,
                        description: description@,
                        price,
                        max_participants,
                        duration,
                        category_id: category_id@,
                    },
                ),
                r,
                old(self)@,
                final(self)@,
            ),
    {
        let ghost args = NewTaskArgs {
            title: title@,
            description: description@,
            price,
            max_participants,
            duration,
            category_id: category_id@,
        };
        if !check_account_id(&ctx.predecessor_account_id) {
            return Err(ContractError::InvalidAccountId);
        }
        let mut user = match self.users.get(&ctx.predecessor_account_id) {
            None => return Err(ContractError::NotMember),
            Some(u) => u,
        };
        proof {
            lemma_lookup_all(self.users@, ctx@.predecessor, |u: UserView| user_ok(u));
        }
        let amount = match (max_participants as u128).checked_mul(price) {
            None => return Err(ContractError::TotalAmountOverflow),
            Some(a) => a,
        };
        if ctx.attached_deposit != amount {
            return Err(ContractError::DepositMismatch);
        }
        if !(ctx.attached_deposit >= MINIMUM_PRICE_PER_TASK && ctx.attached_deposit
            <= MAXIMUM_PRICE_PER_TASK) {
            return Err(ContractError::TotalAmountOutOfRange);
        }
        match user.user_type {
            UserType::Worker { .. } => Err(ContractError::OnlyRequester),
            UserType::Requester { total_transfered, current_requests } => {
                if text_byte_len(&description) > MAXIMUM_DESCRIPTION_LENGTH {
                    return Err(ContractError::DescriptionTooLong);
                }
                if max_participants > MAXIMUM_PROPOSAL_AT_ONE_TIME {
                    return Err(ContractError::TooManyParticipants);
                }
                let task_id = make_task_id(&ctx.predecessor_account_id, ctx.block_index);
                if self.tasks_recores.contains_key(&task_id) {
                    return Err(ContractError::DuplicateTaskInBlock);
                }
                let available_until = match ctx.block_timestamp.checked_add(duration) {
                    None => return Err(ContractError::ArithmeticOverflow),
                    Some(t) => t,
                };
                let mut category = match self.categories.get(&category_id) {
                    None => return Err(ContractError::CategoryNotFound),
                    Some(c) => c,
                };
                if category.num_posts() == u64::MAX || current_requests == u16::MAX {
                    return Err(ContractError::ArithmeticOverflow);
                }
                let task = Task {
                    owner: ctx.predecessor_account_id.clone(),
                    title,
                    description,
                    price,
                    max_participants,
                    proposals: Table::new(),
                    created_at: ctx.block_timestamp,
                    available_until,
                    category_id: category_id.clone(),
                };
                assert(task@ == created_task(ctx@, args));
                category.add_post();
                self.categories.insert(category_id, category);
                proof {
                    lemma_put_all(self.tasks_recores@, task_id@, task@, |t: TaskView| task_ok(t));
                }
                self.tasks_recores.insert(task_id.clone(), task);
                user.user_type = UserType::Requester {
                    total_transfered,
                    current_requests: current_requests + 1,
                };
                proof {
                    lemma_set_add_distinct(user.current_jobs@, task_id@);
                }
                user.current_jobs.insert(task_id);
                proof {
                    lemma_put_all(self.users@, ctx@.predecessor, user@, |u: UserView| user_ok(u));
                }
                self.users.insert(ctx.predecessor_account_id.clone(), user);
                Ok(())
            },
        }
    }

    /// The owner of a task pays a proposal that is not rejected: the price and
    /// the submit bond go to the worker, then `on_transferd` records the
    /// approval. Nothing changes here.
    pub fn approve_work(&mut self, ctx: &Context, task_id: String, worker_id: String) -> (r: Result<
        (Transfer, TransferCallback),
        ContractError,
    >)
        requires
            old(self).wf(),
        ensures
            final(self).wf(),
            final(self)@ == old(self)@,
            payment_result(r) == approve_work_outcome(old(self)@, ctx@, task_id@, worker_id@),
    {
        if !check_account_id(&worker_id) {
            return Err(ContractError::InvalidAccountId);
        }
        let task = match self.tasks_recores.get(&task_id) {
            None => return Err(ContractError::TaskNotFound),
            Some(t) => t,
        };
        proof {
            lemma_lookup_all(self.tasks_recores@, task_id@, |t: TaskView| task_ok(t));
            lemma_price_bounded(task@);
        }
        if !check_account_id(&ctx.predecessor_account_id) {
            return Err(ContractError::InvalidAccountId);
        }
        if !(task.owner == ctx.predecessor_account_id) {
            return Err(ContractError::NotTaskOwner);
        }
        let proposal = match task.proposals.get(&worker_id) {
            None => return Err(ContractError::ProposalNotFound),
            Some(p) => p,
        };
        if proposal.is_rejected {
            return Err(ContractError::AlreadyRejected);
        }
        let beneficiary_id = proposal.account_id;
        let transfer = Transfer {
            receiver_id: beneficiary_id.clone(),
            amount: task.price + SUBMIT_BOND,
        };
        let callback = TransferCallback {
            task_id,
            beneficiary_id,
            amount_to_transfer: task.price,
        };
        Ok((transfer, callback))
    }

    /// The owner of a task rejects a proposal that is not approved.
    pub fn reject_work(&mut self, ctx: &Context, task_id: String, worker_id: String) -> (r: Result<
        (),
        ContractError,
    >)
        requires
            old(self).wf(),
        ensures
            final(self).wf(),
            follows(
                reject_work_outcome(old(self)@, ctx@, task_id@, worker_id@),
                r,
                old(self)@,
                final(self)@,
            ),
    {
        if !check_account_id(&worker_id) {
            return Err(ContractError::InvalidAccountId);
        }
        let mut task = match self.tasks_recores.get(&task_id) {
            None => return Err(ContractError::TaskNotFound),
            Some(t) => t,
        };
        proof {
            lemma_lookup_all(self.tasks_recores@, task_id@, |t: TaskView| task_ok(t));
        }
        if !check_account_id(&ctx.predecessor_account_id) {
            return Err(ContractError::InvalidAccountId);
        }
        if !(task.owner == ctx.predecessor_account_id) {
            return Err(ContractError::NotTaskOwner);
        }
        let mut proposal = match task.proposals.get(&worker_id) {
            None => return Err(ContractError::ProposalNotFound),
            Some(p) => p,
        };
        if proposal.is_approved {
            return Err(ContractError::AlreadyApproved);
        }
        proposal.is_rejected = true;
        task.proposals.insert(worker_id, proposal);
        proof {
            lemma_put_all(self.tasks_recores@, task_id@, task@, |t: TaskView| task_ok(t));
        }
        self.tasks_recores.insert(task_id, task);
        Ok(())
    }

    /// The owner closes a task whose proposals are all checked. Where fewer
    /// are approved than participants were asked for, the task must have
    /// expired, and the unused places are refunded to the owner; every
    /// rejected worker gets the submission bond back.
    pub fn mark_task_as_completed(&mut self, ctx: &Context, task_id: String) -> (r: Result<
        Vec<Transfer>,
        ContractError,
    >)
        requires
            old(self).wf(),
        ensures
            final(self).wf(),
            follows_with(
                mark_task_as_completed_outcome(old(self)@, ctx@, task_id@),
                transfers_result(r),
                old(self)@,
                final(self)@,
            ),
    {
        let task = match self.tasks_recores.get(&task_id) {
            None => return Err(ContractError::TaskNotFound),
            Some(t) => t,
        };
        if !check_account_id(&ctx.predecessor_account_id) {
            return Err(ContractError::InvalidAccountId);
        }
        if !(task.owner == ctx.predecessor_account_id) {
            return Err(ContractError::NotTaskOwner);
        }
        if !every_proposal_checked(&task.proposals) {
            return Err(ContractError::WorkUnchecked);
        }
        let completed_proposals_count = approved_count(&task.proposals);
        let len = task.proposals.len();
        if (task.max_participants as usize) < len {
            return Err(ContractError::ArithmeticOverflow);
        }
        let refund: u128 = (task.max_participants as u128) - (len as u128);
        let amount_to_transfer = match task.price.checked_mul(refund) {
            None => return Err(ContractError::RefundOverflow),
            Some(a) => a,
        };
        let mut transfers: Vec<Transfer> = Vec::new();
        if completed_proposals_count < task.max_participants as usize {
            if !(task.available_until < ctx.block_timestamp) {
                return Err(ContractError::NotExpired);
            }
            transfers.push(
                Transfer { receiver_id: ctx.predecessor_account_id.clone(), amount: amount_to_transfer },
            );
        }
        let ghost owner_part: Seq<TransferView> = if count_approved(task@.proposals)
            < task.max_participants {
            seq![TransferView { receiver_id: ctx@.predecessor, amount: amount_to_transfer }]
        } else {
            Seq::empty()
        };
        assert(transfers_view(transfers@) =~= owner_part);
        let mut bonds = bond_refund_transfers(&task.proposals);
        let ghost first = transfers_view(transfers@);
        transfers.append(&mut bonds);
        assert(transfers_view(transfers@) =~= first + bond_refunds(task@.proposals));
        let mut owner = match self.users_get(&ctx.predecessor_account_id) {
            None => return Err(ContractError::OwnerNotFound),
            Some(u) => u,
        };
        match owner.user_type {
            UserType::Requester { total_transfered, current_requests } => {
                if current_requests == 0 {
                    return Err(ContractError::NoCurrentRequests);
                }
                let total = match total_transfered.checked_add(amount_to_transfer) {
                    None => return Err(ContractError::ArithmeticOverflow),
                    Some(t) => t,
                };
                complete_job(&mut owner, &task_id);
                owner.user_type = UserType::Requester {
                    total_transfered: total,
                    current_requests: current_requests - 1,
                };
                self.users_put(ctx.predecessor_account_id.clone(), owner);
            },
            UserType::Worker { .. } => {},
        }
        Ok(transfers)
    }

    /// A member attaches the submit bond and files a proof of work on a task
    /// that has not expired and still lacks approved work.
    pub fn submit_work(&mut self, ctx: &Context, task_id: String, proof: String) -> (r: Result<
        (),
        ContractError,
    >)
        requires
            old(self).wf(),
        ensures
            final(self).wf(),
            follows(
                submit_work_outcome(old(self)@, ctx@, task_id@, proof@),
                r,
                old(self)@,
                final(self)@,
            ),
    {
        if ctx.attached_deposit != SUBMIT_BOND {
            return Err(ContractError::SubmitBondMismatch);
        }
        let mut task = match self.tasks_recores.get(&task_id) {
            None => return Err(ContractError::TaskNotFound),
            Some(t) => t,
        };
        proof {
            lemma_lookup_all(self.tasks_recores@, task_id@, |t: TaskView| task_ok(t));
        }
        if !(task.available_until > ctx.block_timestamp) {
            return Err(ContractError::TaskExpired);
        }
        if !(approved_count(&task.proposals) < task.max_participants as usize) {
            return Err(ContractError::ParticipantsFull);
        }
        if !check_account_id(&ctx.predecessor_account_id) {
            return Err(ContractError::InvalidAccountId);
        }
        let mut worker = match self.users.get(&ctx.predecessor_account_id) {
            None => return Err(ContractError::UserNotFound),
            Some(u) => u,
        };
        proof {
            lemma_lookup_all(self.users@, ctx@.predecessor, |u: UserView| user_ok(u));
        }
        match worker.user_type {
            UserType::Worker { total_received, current_applies } => {
                if current_applies == u16::MAX {
                    return Err(ContractError::ArithmeticOverflow);
                }
                worker.user_type = UserType::Worker {
                    total_received,
                    current_applies: current_applies + 1,
                };
                proof {
                    lemma_set_add_distinct(worker.current_jobs@, task_id@);
                }
                worker.current_jobs.insert(task_id.clone());
                proof {
                    lemma_put_all(self.users@, ctx@.predecessor, worker@, |u: UserView| user_ok(u));
                }
                self.users.insert(ctx.predecessor_account_id.clone(), worker);
            },
            UserType::Requester { .. } => {},
        }
        let proposal = Proposal {
            account_id: ctx.predecessor_account_id.clone(),
            proof_of_work: proof,
            is_approved: false,
            is_rejected: false,
        };
        task.proposals.insert(ctx.predecessor_account_id.clone(), proposal);
        proof {
            lemma_put_all(self.tasks_recores@, task_id@, task@, |t: TaskView| task_ok(t));
        }
        self.tasks_recores.insert(task_id, task);
        Ok(())
    }

    /// Adds a category; its identifier is the name lower-cased with spaces
    /// turned into `_`.
    pub fn new_category(&mut self, ctx: &Context, topic_name: String) -> (r: Result<
        bool,
        ContractError,
    >)
        requires
            old(self).wf(),
        ensures
            final(self).wf(),
            match new_category_outcome(old(self)@, ctx@, topic_name@) {
                Ok(s) => r == Ok::<bool, ContractError>(true) && final(self)@ == s,
                Err(e) => r == Err::<bool, ContractError>(e) && final(self)@ == old(self)@,
            },
    {
        let topic_id = make_category_id(&topic_name);
        if text_byte_len(&topic_name) > MAX_TITLE_LENGTH {
            return Err(ContractError::TitleTooLong);
        }
        if self.categories.contains_key(&topic_id) {
            return Err(ContractError::CategoryExists);
        }
        let topic = Category::new(topic_id.clone(), topic_name, ctx.block_timestamp);
        self.categories.insert(topic_id, topic);
        Ok(true)
    }
}

} // verus!
