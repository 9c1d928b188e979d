//! The consistency of reachable states: what every call keeps beyond
//! well-formedness.
use vstd::prelude::*;
use crate::context::{ContextView, PromiseStatus};
use crate::model::{
    DupworkView, NewTaskArgs, created_task, new_task_outcome, reject_work_outcome,
    submit_work_outcome, mark_task_as_completed_outcome, on_transferd_outcome, on_refund_outcome,
    finish_job, refund_amount, count_approved, new_user, register_outcome, leave_outcome, update_bio_outcome, new_category_outcome,
};
use crate::types::{CategoryView, ProposalView, UserType};
use crate::text::{category_id_for, task_id_for};
use crate::table::{has_key, lookup, put, delete, set_add, set_drop, lemma_put_distinct, lemma_delete_distinct};
use crate::text::account_id_is_valid;
use crate::types::{TaskView, UserView};

verus! {

/// The number of tasks filed under category `c`.
pub open spec fn posts_in(tasks: Seq<(Seq<char>, TaskView)>, c: Seq<char>) -> nat
    decreases tasks.len(),
{
    if tasks.len() == 0 {
        0
    } else {
        posts_in(tasks.drop_last(), c) + if tasks.last().1.category_id == c {
            1nat
        } else {
            0nat
        }
    }
}

/// Every task is filed under an existing category, by a valid account.
pub open spec fn tasks_consistent(s: DupworkView) -> bool {
    categories_exist(s) && owners_valid(s)
}

/// Every task is filed under an existing category.
pub open spec fn categories_exist(s: DupworkView) -> bool {
    forall|k: Seq<char>|
        #[trigger] lookup(s.tasks, k) is Some ==> has_key(s.categories, lookup(s.tasks, k)->0.category_id)
}

/// Every task's owner is a valid account.
pub open spec fn owners_valid(s: DupworkView) -> bool {
    forall|k: Seq<char>|
        #[trigger] lookup(s.tasks, k) is Some ==> account_id_is_valid(lookup(s.tasks, k)->0.owner)
}

/// Every category counts exactly the tasks filed under it.
pub open spec fn counts_consistent(s: DupworkView) -> bool {
    forall|c: Seq<char>|
        #[trigger] lookup(s.categories, c) is Some ==> lookup(s.categories, c)->0.num_posts == posts_in(
            s.tasks,
            c,
        )
}

/// A user record is stored under its own account, and its open and
/// completed jobs name stored tasks.
pub open spec fn user_consistent(tasks: Seq<(Seq<char>, TaskView)>, a: Seq<char>, u: UserView) -> bool {
    &&& u.account_id == a
    &&& jobs_stored(tasks, u)
}

/// The user's open and completed jobs name stored tasks.
pub open spec fn jobs_stored(tasks: Seq<(Seq<char>, TaskView)>, u: UserView) -> bool {
    &&& forall|j: Seq<char>| #[trigger] u.current_jobs.contains(j) ==> has_key(tasks, j)
    &&& forall|j: Seq<char>| #[trigger] u.completed_jobs.contains(j) ==> has_key(tasks, j)
}

/// Every user record of the table is consistent with the tasks.
pub open spec fn all_users_consistent(
    users: Seq<(Seq<char>, UserView)>,
    tasks: Seq<(Seq<char>, TaskView)>,
) -> bool {
    forall|a: Seq<char>|
        #[trigger] lookup(users, a) is Some ==> user_consistent(tasks, a, lookup(users, a)->0)
}

/// Every user record is consistent.
pub open spec fn users_consistent(s: DupworkView) -> bool {
    all_users_consistent(s.users, s.tasks)
}

/// The state is one that the calls can reach: tasks name existing categories
/// and valid owners, categories count their tasks, and users are stored
/// under their accounts with jobs that name tasks.
pub open spec fn consistent(s: DupworkView) -> bool {
    &&& tasks_consistent(s)
    &&& counts_consistent(s)
    &&& users_consistent(s)
}

/// Adding a task counts it under its category only.
pub proof fn lemma_posts_push(t: Seq<(Seq<char>, TaskView)>, x: (Seq<char>, TaskView), c: Seq<char>)
    ensures
        posts_in(t.push(x), c) == posts_in(t, c) + if x.1.category_id == c {
            1nat
        } else {
            0nat
        },
{
    assert(t.push(x).drop_last() =~= t);
}

/// Replacing a task by one in the same category keeps every count.
pub proof fn lemma_posts_update(
    t: Seq<(Seq<char>, TaskView)>,
    i: int,
    x: (Seq<char>, TaskView),
    c: Seq<char>,
)
    requires
        0 <= i < t.len(),
        x.1.category_id == t[i].1.category_id,
    ensures
        posts_in(t.update(i, x), c) == posts_in(t, c),
    decreases t.len(),
{
    let u = t.update(i, x);
    if i == t.len() - 1 {
        assert(u.drop_last() =~= t.drop_last());
    } else {
        assert(u.drop_last() =~= t.drop_last().update(i, x));
        lemma_posts_update(t.drop_last(), i, x, c);
    }
}

/// No task filed under `c` means a count of zero.
pub proof fn lemma_posts_none(t: Seq<(Seq<char>, TaskView)>, c: Seq<char>)
    requires
        forall|i: int| 0 <= i < t.len() ==> (#[trigger] t[i]).1.category_id != c,
    ensures
        posts_in(t, c) == 0,
    decreases t.len(),
{
    if t.len() > 0 {
        assert(t.last() == t[t.len() - 1]);
        lemma_posts_none(t.drop_last(), c);
    }
}

/// Storing a task: a new key adds one to its category; replacing a task by
/// one in the same category changes no count.
pub proof fn lemma_posts_put(t: Seq<(Seq<char>, TaskView)>, k: Seq<char>, v: TaskView, c: Seq<char>)
    requires
        crate::table::keys_distinct(t),
        has_key(t, k) ==> lookup(t, k)->0.category_id == v.category_id,
    ensures
        posts_in(put(t, k, v), c) == posts_in(t, c) + if !has_key(t, k) && v.category_id == c {
            1nat
        } else {
            0nat
        },
{
    if has_key(t, k) {
        lemma_posts_update(t, crate::table::key_position(t, k), (k, v), c);
    } else {
        lemma_posts_push(t, (k, v), c);
    }
}

/// The keys after storing under `k`: the old ones and `k`.
pub proof fn lemma_put_keys<A>(s: Seq<(Seq<char>, A)>, k: Seq<char>, v: A)
    requires
        crate::table::keys_distinct(s),
    ensures
        forall|k2: Seq<char>| #[trigger] has_key(put(s, k, v), k2) <==> (has_key(s, k2) || k2 == k),
{
    lemma_put_distinct(s, k, v);
    assert forall|k2: Seq<char>| #[trigger] has_key(put(s, k, v), k2) <==> (has_key(s, k2) || k2 == k) by {
        if k2 != k {
            assert(lookup(put(s, k, v), k2) == lookup(s, k2));
        } else {
            assert(lookup(put(s, k, v), k) == Some(v));
        }
    }
}

/// Storing a consistent user keeps every user consistent.
pub proof fn lemma_users_put(
    users: Seq<(Seq<char>, UserView)>,
    tasks: Seq<(Seq<char>, TaskView)>,
    a: Seq<char>,
    u: UserView,
)
    requires
        crate::table::keys_distinct(users),
        all_users_consistent(users, tasks),
        user_consistent(tasks, a, u),
    ensures
        all_users_consistent(put(users, a, u), tasks),
{
    lemma_put_distinct(users, a, u);
    assert forall|b: Seq<char>| #[trigger] lookup(put(users, a, u), b) is Some implies user_consistent(
        tasks,
        b,
        lookup(put(users, a, u), b)->0,
    ) by {
        if b != a {
            assert(lookup(put(users, a, u), b) == lookup(users, b));
        }
    }
}

/// Removing a user keeps every other user consistent.
pub proof fn lemma_users_delete(
    users: Seq<(Seq<char>, UserView)>,
    tasks: Seq<(Seq<char>, TaskView)>,
    a: Seq<char>,
)
    requires
        crate::table::keys_distinct(users),
        all_users_consistent(users, tasks),
    ensures
        all_users_consistent(delete(users, a), tasks),
{
    lemma_delete_distinct(users, a);
    assert forall|b: Seq<char>| #[trigger] lookup(delete(users, a), b) is Some implies user_consistent(
        tasks,
        b,
        lookup(delete(users, a), b)->0,
    ) by {
        assert(lookup(delete(users, a), b) == lookup(users, b));
    }
}

/// Users stay consistent when tasks are only added or replaced.
pub proof fn lemma_users_tasks_grow(
    users: Seq<(Seq<char>, UserView)>,
    tasks: Seq<(Seq<char>, TaskView)>,
    tasks2: Seq<(Seq<char>, TaskView)>,
)
    requires
        all_users_consistent(users, tasks),
        forall|k: Seq<char>| has_key(tasks, k) ==> #[trigger] has_key(tasks2, k),
    ensures
        all_users_consistent(users, tasks2),
{
    assert forall|b: Seq<char>| #[trigger] lookup(users, b) is Some implies user_consistent(
        tasks2,
        b,
        lookup(users, b)->0,
    ) by {
        let u = lookup(users, b)->0;
        assert(user_consistent(tasks, b, u));
        assert forall|j: Seq<char>| #[trigger] u.current_jobs.contains(j) implies has_key(tasks2, j) by {
            assert(has_key(tasks, j));
        }
        assert forall|j: Seq<char>| #[trigger] u.completed_jobs.contains(j) implies has_key(tasks2, j) by {
            assert(has_key(tasks, j));
        }
    }
}

/// Adding an identifier: the identifiers are the old ones and it.
pub proof fn lemma_set_add_contains(s: Seq<Seq<char>>, x: Seq<char>)
    ensures
        forall|j: Seq<char>| #[trigger] set_add(s, x).contains(j) <==> (s.contains(j) || j == x),
{
    if !s.contains(x) {
        let t = s.push(x);
        assert forall|j: Seq<char>| #[trigger] t.contains(j) <==> (s.contains(j) || j == x) by {
            if t.contains(j) {
                let i = choose|i: int| 0 <= i < t.len() && t[i] == j;
                if i < s.len() {
                    assert(s[i] == j);
                }
            }
            if s.contains(j) {
                let i = choose|i: int| 0 <= i < s.len() && s[i] == j;
                assert(t[i] == j);
            }
            if j == x {
                assert(t[s.len() as int] == x);
            }
        }
    }
}

/// Removing an identifier leaves only old ones.
pub proof fn lemma_set_drop_contains(s: Seq<Seq<char>>, x: Seq<char>)
    ensures
        forall|j: Seq<char>| #[trigger] set_drop(s, x).contains(j) ==> s.contains(j),
{
    if s.contains(x) {
        let p = s.index_of(x);
        let t = set_drop(s, x);
        assert forall|j: Seq<char>| #[trigger] t.contains(j) implies s.contains(j) by {
            let i = choose|i: int| 0 <= i < t.len() && t[i] == j;
            if i == p {
                assert(t[i] == s[s.len() - 1]);
            } else {
                assert(t[i] == s[i]);
            }
        }
    }
}

/// The empty marketplace is consistent.
pub proof fn empty_is_consistent()
    ensures
        consistent(
            DupworkView { tasks: Seq::empty(), users: Seq::empty(), categories: Seq::empty() },
        ),
{
}

/// `register` keeps the state consistent.
pub proof fn register_keeps_consistent(s: DupworkView, ctx: ContextView, requester: bool)
    requires
        s.wf(),
        consistent(s),
        register_outcome(s, ctx, requester) is Ok,
    ensures
        consistent(register_outcome(s, ctx, requester)->Ok_0),
{
    lemma_users_put(s.users, s.tasks, ctx.predecessor, new_user(ctx.predecessor, requester));
}

/// `leave` keeps the state consistent.
pub proof fn leave_keeps_consistent(s: DupworkView, ctx: ContextView)
    requires
        s.wf(),
        consistent(s),
        leave_outcome(s, ctx) is Ok,
    ensures
        consistent(leave_outcome(s, ctx)->Ok_0.0),
{
    lemma_users_delete(s.users, s.tasks, ctx.predecessor);
}

/// `update_bio` keeps the state consistent.
pub proof fn update_bio_keeps_consistent(s: DupworkView, ctx: ContextView, bio: Seq<char>)
    requires
        s.wf(),
        consistent(s),
        update_bio_outcome(s, ctx, bio) is Ok,
    ensures
        consistent(update_bio_outcome(s, ctx, bio)->Ok_0),
{
    let u = lookup(s.users, ctx.predecessor)->0;
    assert(user_consistent(s.tasks, ctx.predecessor, u));
    lemma_users_put(s.users, s.tasks, ctx.predecessor, UserView { bio, ..u });
}

/// `new_category` keeps the state consistent: the new category counts no
/// task, since every task names an existing category.
pub proof fn new_category_keeps_consistent(s: DupworkView, ctx: ContextView, name: Seq<char>)
    requires
        s.wf(),
        consistent(s),
        new_category_outcome(s, ctx, name) is Ok,
    ensures
        consistent(new_category_outcome(s, ctx, name)->Ok_0),
{
    let id = category_id_for(name);
    let cat = CategoryView { id, name, created: ctx.timestamp, num_posts: 0 };
    let s2 = new_category_outcome(s, ctx, name)->Ok_0;
    lemma_put_keys(s.categories, id, cat);
    lemma_put_distinct(s.categories, id, cat);
    assert forall|i: int| 0 <= i < s.tasks.len() implies (#[trigger] s.tasks[i]).1.category_id != id by {
        crate::table::lemma_position(s.tasks, i);
        assert(lookup(s.tasks, s.tasks[i].0) is Some);
    }
    lemma_posts_none(s.tasks, id);
    assert forall|k: Seq<char>| #[trigger] lookup(s2.tasks, k) is Some implies has_key(
        s2.categories,
        lookup(s2.tasks, k)->0.category_id,
    ) && account_id_is_valid(lookup(s2.tasks, k)->0.owner) by {
        assert(lookup(s.tasks, k) is Some);
    }
    assert forall|c: Seq<char>| #[trigger] lookup(s2.categories, c) is Some implies lookup(
        s2.categories,
        c,
    )->0.num_posts == posts_in(s2.tasks, c) by {
        if c != id {
            assert(lookup(s2.categories, c) == lookup(s.categories, c));
        }
    }
}

/// `new_task` keeps every task filed under an existing category and every
/// category's counter equal to the number of its tasks; it only adds tasks
/// and leaves the set of categories as it is.
pub proof fn new_task_keeps_category_counts(s: DupworkView, ctx: ContextView, a: NewTaskArgs)
    requires
        s.wf(),
        categories_exist(s),
        counts_consistent(s),
        new_task_outcome(s, ctx, a) is Ok,
    ensures
        categories_exist(new_task_outcome(s, ctx, a)->Ok_0),
        counts_consistent(new_task_outcome(s, ctx, a)->Ok_0),
        forall|k: Seq<char>|
            has_key(s.tasks, k) ==> #[trigger] has_key(new_task_outcome(s, ctx, a)->Ok_0.tasks, k),
        forall|c: Seq<char>|
            #[trigger] has_key(new_task_outcome(s, ctx, a)->Ok_0.categories, c) <==> has_key(
                s.categories,
                c,
            ),
{
    let s2 = new_task_outcome(s, ctx, a)->Ok_0;
    let id = task_id_for(ctx.predecessor, ctx.block_index);
    let t = created_task(ctx, a);
    let cat = lookup(s.categories, a.category_id)->0;
    let cat2 = CategoryView { num_posts: (cat.num_posts + 1) as u64, ..cat };
    lemma_put_distinct(s.tasks, id, t);
    lemma_put_keys(s.tasks, id, t);
    lemma_put_distinct(s.categories, a.category_id, cat2);
    lemma_put_keys(s.categories, a.category_id, cat2);
    assert(s2.tasks == put(s.tasks, id, t));
    assert(s2.categories == put(s.categories, a.category_id, cat2));
    assert forall|k: Seq<char>| #[trigger] lookup(s2.tasks, k) is Some implies has_key(
        s2.categories,
        lookup(s2.tasks, k)->0.category_id,
    ) by {
        if k != id {
            assert(lookup(s2.tasks, k) == lookup(s.tasks, k));
            assert(has_key(s.categories, lookup(s.tasks, k)->0.category_id));
        }
    }
    assert forall|c: Seq<char>| #[trigger] lookup(s2.categories, c) is Some implies lookup(
        s2.categories,
        c,
    )->0.num_posts == posts_in(s2.tasks, c) by {
        lemma_posts_put(s.tasks, id, t, c);
        if c != a.category_id {
            assert(lookup(s2.categories, c) == lookup(s.categories, c));
        } else {
            assert(lookup(s.categories, c) is Some);
        }
    }
}

/// `new_task` keeps the state consistent: the task is counted under its
/// existing category and heads nothing it does not name.
pub proof fn new_task_keeps_consistent(s: DupworkView, ctx: ContextView, a: NewTaskArgs)
    requires
        s.wf(),
        consistent(s),
        new_task_outcome(s, ctx, a) is Ok,
    ensures
        consistent(new_task_outcome(s, ctx, a)->Ok_0),
        forall|k: Seq<char>|
            has_key(s.tasks, k) ==> #[trigger] has_key(new_task_outcome(s, ctx, a)->Ok_0.tasks, k),
        forall|c: Seq<char>|
            #[trigger] has_key(new_task_outcome(s, ctx, a)->Ok_0.categories, c) <==> has_key(
                s.categories,
                c,
            ),
{
    let s2 = new_task_outcome(s, ctx, a)->Ok_0;
    let id = task_id_for(ctx.predecessor, ctx.block_index);
    let t = created_task(ctx, a);
    let user = lookup(s.users, ctx.predecessor)->0;
    let cat = lookup(s.categories, a.category_id)->0;
    let cat2 = CategoryView { num_posts: (cat.num_posts + 1) as u64, ..cat };
    lemma_put_distinct(s.tasks, id, t);
    lemma_put_keys(s.tasks, id, t);
    lemma_put_distinct(s.categories, a.category_id, cat2);
    lemma_put_keys(s.categories, a.category_id, cat2);
    assert(s2.tasks == put(s.tasks, id, t));
    assert(s2.categories == put(s.categories, a.category_id, cat2));
    assert forall|k: Seq<char>| #[trigger] lookup(s2.tasks, k) is Some implies has_key(
        s2.categories,
        lookup(s2.tasks, k)->0.category_id,
    ) && account_id_is_valid(lookup(s2.tasks, k)->0.owner) by {
        if k != id {
            assert(lookup(s2.tasks, k) == lookup(s.tasks, k));
            assert(has_key(s.categories, lookup(s.tasks, k)->0.category_id));
        }
    }
    assert forall|c: Seq<char>| #[trigger] lookup(s2.categories, c) is Some implies lookup(
        s2.categories,
        c,
    )->0.num_posts == posts_in(s2.tasks, c) by {
        lemma_posts_put(s.tasks, id, t, c);
        if c != a.category_id {
            assert(lookup(s2.categories, c) == lookup(s.categories, c));
        } else {
            assert(lookup(s.categories, c) is Some);
        }
    }
    lemma_users_tasks_grow(s.users, s.tasks, s2.tasks);
    assert(user_consistent(s.tasks, ctx.predecessor, user));
    match user.user_type {
        UserType::Requester { total_transfered, current_requests } => {
            let u2 = UserView {
                user_type: UserType::Requester {
                    total_transfered,
                    current_requests: (current_requests + 1) as u16,
                },
                current_jobs: set_add(user.current_jobs, id),
                ..user
            };
            lemma_set_add_contains(user.current_jobs, id);
            assert forall|j: Seq<char>| #[trigger] u2.current_jobs.contains(j) implies has_key(
                s2.tasks,
                j,
            ) by {
                if j != id {
                    assert(user.current_jobs.contains(j));
                }
            }
            assert forall|j: Seq<char>| #[trigger] u2.completed_jobs.contains(j) implies has_key(
                s2.tasks,
                j,
            ) by {
                assert(user.completed_jobs.contains(j));
            }
            lemma_users_put(s.users, s2.tasks, ctx.predecessor, u2);
        },
        UserType::Worker { .. } => {},
    }
}

/// Replacing a task by one with the same owner and category keeps the state
/// consistent.
pub proof fn lemma_task_replaced(s: DupworkView, k: Seq<char>, t2: TaskView)
    requires
        s.wf(),
        consistent(s),
        has_key(s.tasks, k),
        t2.category_id == lookup(s.tasks, k)->0.category_id,
        t2.owner == lookup(s.tasks, k)->0.owner,
    ensures
        consistent(DupworkView { tasks: put(s.tasks, k, t2), ..s }),
        forall|j: Seq<char>| #[trigger] has_key(put(s.tasks, k, t2), j) <==> has_key(s.tasks, j),
{
    let s2 = DupworkView { tasks: put(s.tasks, k, t2), ..s };
    lemma_put_distinct(s.tasks, k, t2);
    lemma_put_keys(s.tasks, k, t2);
    assert forall|k2: Seq<char>| #[trigger] lookup(s2.tasks, k2) is Some implies has_key(
        s2.categories,
        lookup(s2.tasks, k2)->0.category_id,
    ) && account_id_is_valid(lookup(s2.tasks, k2)->0.owner) by {
        assert(lookup(s.tasks, k2) is Some);
    }
    assert forall|c: Seq<char>| #[trigger] lookup(s2.categories, c) is Some implies lookup(
        s2.categories,
        c,
    )->0.num_posts == posts_in(s2.tasks, c) by {
        lemma_posts_put(s.tasks, k, t2, c);
    }
    lemma_users_tasks_grow(s.users, s.tasks, s2.tasks);
}

/// A user whose jobs name stored tasks still does after finishing a stored
/// task.
pub proof fn lemma_finish_job_stored(tasks: Seq<(Seq<char>, TaskView)>, u: UserView, task_id: Seq<char>)
    requires
        jobs_stored(tasks, u),
        has_key(tasks, task_id),
    ensures
        jobs_stored(tasks, finish_job(u, task_id)),
{
    lemma_set_add_contains(u.completed_jobs, task_id);
    lemma_set_drop_contains(u.current_jobs, task_id);
    let f = finish_job(u, task_id);
    assert forall|j: Seq<char>| #[trigger] f.current_jobs.contains(j) implies has_key(tasks, j) by {
        assert(u.current_jobs.contains(j));
    }
    assert forall|j: Seq<char>| #[trigger] f.completed_jobs.contains(j) implies has_key(tasks, j) by {
        if j != task_id {
            assert(u.completed_jobs.contains(j));
        }
    }
}

/// A user who finishes a stored task stays consistent.
pub proof fn lemma_finish_job_consistent(
    tasks: Seq<(Seq<char>, TaskView)>,
    a: Seq<char>,
    u: UserView,
    task_id: Seq<char>,
)
    requires
        user_consistent(tasks, a, u),
        has_key(tasks, task_id),
    ensures
        user_consistent(tasks, a, finish_job(u, task_id)),
{
    lemma_finish_job_stored(tasks, u, task_id);
}

/// `reject_work` keeps the state consistent.
pub proof fn reject_work_keeps_consistent(
    s: DupworkView,
    ctx: ContextView,
    task_id: Seq<char>,
    worker_id: Seq<char>,
)
    requires
        s.wf(),
        consistent(s),
        reject_work_outcome(s, ctx, task_id, worker_id) is Ok,
    ensures
        consistent(reject_work_outcome(s, ctx, task_id, worker_id)->Ok_0),
{
    let task = lookup(s.tasks, task_id)->0;
    let p = lookup(task.proposals, worker_id)->0;
    lemma_task_replaced(
        s,
        task_id,
        TaskView {
            proposals: put(task.proposals, worker_id, ProposalView { is_rejected: true, ..p }),
            ..task
        },
    );
}

/// `submit_work` keeps the state consistent.
pub proof fn submit_work_keeps_consistent(
    s: DupworkView,
    ctx: ContextView,
    task_id: Seq<char>,
    proof: Seq<char>,
)
    requires
        s.wf(),
        consistent(s),
        submit_work_outcome(s, ctx, task_id, proof) is Ok,
    ensures
        consistent(submit_work_outcome(s, ctx, task_id, proof)->Ok_0),
{
    let task = lookup(s.tasks, task_id)->0;
    let np = ProposalView {
        account_id: ctx.predecessor,
        proof_of_work: proof,
        is_approved: false,
        is_rejected: false,
    };
    let t2 = TaskView { proposals: put(task.proposals, ctx.predecessor, np), ..task };
    lemma_task_replaced(s, task_id, t2);
    let s1 = DupworkView { tasks: put(s.tasks, task_id, t2), ..s };
    let worker = lookup(s.users, ctx.predecessor)->0;
    match worker.user_type {
        UserType::Worker { total_received, current_applies } => {
            let w2 = UserView {
                user_type: UserType::Worker {
                    total_received,
                    current_applies: (current_applies + 1) as u16,
                },
                current_jobs: set_add(worker.current_jobs, task_id),
                ..worker
            };
            assert(user_consistent(s.tasks, ctx.predecessor, worker));
            lemma_set_add_contains(worker.current_jobs, task_id);
            assert forall|j: Seq<char>| #[trigger] w2.current_jobs.contains(j) implies has_key(
                s1.tasks,
                j,
            ) by {
                if j != task_id {
                    assert(worker.current_jobs.contains(j));
                }
            }
            assert forall|j: Seq<char>| #[trigger] w2.completed_jobs.contains(j) implies has_key(
                s1.tasks,
                j,
            ) by {
                assert(worker.completed_jobs.contains(j));
            }
            lemma_users_put(s.users, s1.tasks, ctx.predecessor, w2);
        },
        UserType::Requester { .. } => {},
    }
}

/// `mark_task_as_completed` keeps the state consistent.
pub proof fn mark_task_as_completed_keeps_consistent(s: DupworkView, ctx: ContextView, task_id: Seq<char>)
    requires
        s.wf(),
        consistent(s),
        mark_task_as_completed_outcome(s, ctx, task_id) is Ok,
    ensures
        consistent(mark_task_as_completed_outcome(s, ctx, task_id)->Ok_0.0),
{
    let owner = lookup(s.users, ctx.predecessor)->0;
    assert(user_consistent(s.tasks, ctx.predecessor, owner));
    lemma_finish_job_consistent(s.tasks, ctx.predecessor, owner, task_id);
    match owner.user_type {
        UserType::Requester { total_transfered, current_requests } => {
            let amount = refund_amount(lookup(s.tasks, task_id)->0) as u128;
            let o2 = UserView {
                user_type: UserType::Requester {
                    total_transfered: (total_transfered + amount) as u128,
                    current_requests: (current_requests - 1) as u16,
                },
                ..finish_job(owner, task_id)
            };
            lemma_users_put(s.users, s.tasks, ctx.predecessor, o2);
        },
        UserType::Worker { .. } => {},
    }
}

/// `on_transferd` keeps the state consistent.
pub proof fn on_transferd_keeps_consistent(
    s: DupworkView,
    ctx: ContextView,
    results: Seq<PromiseStatus>,
    task_id: Seq<char>,
    beneficiary_id: Seq<char>,
    amount: u128,
)
    requires
        s.wf(),
        consistent(s),
        on_transferd_outcome(s, ctx, results, task_id, beneficiary_id, amount) is Ok,
    ensures
        consistent(on_transferd_outcome(s, ctx, results, task_id, beneficiary_id, amount)->Ok_0.0),
{
    if results[0] == PromiseStatus::Successful {
        let task = lookup(s.tasks, task_id)->0;
        let p = lookup(task.proposals, beneficiary_id)->0;
        let task1 = TaskView {
            proposals: put(task.proposals, beneficiary_id, ProposalView { is_approved: true, ..p }),
            ..task
        };
        lemma_task_replaced(s, task_id, task1);
        let tasks1 = put(s.tasks, task_id, task1);
        let worker0 = lookup(s.users, beneficiary_id)->0;
        assert(user_consistent(s.tasks, beneficiary_id, worker0));
        lemma_finish_job_consistent(s.tasks, beneficiary_id, worker0, task_id);
        let worker = finish_job(worker0, task_id);
        let full = (count_approved(task1.proposals) as u16) == task1.max_participants;
        let users1 = if full {
            let owner0 = lookup(s.users, task1.owner)->0;
            assert(user_consistent(s.tasks, task1.owner, owner0));
            lemma_finish_job_consistent(s.tasks, task1.owner, owner0, task_id);
            lemma_users_put(s.users, s.tasks, task1.owner, finish_job(owner0, task_id));
            put(s.users, task1.owner, finish_job(owner0, task_id))
        } else {
            s.users
        };
        lemma_users_tasks_grow(users1, s.tasks, tasks1);
        match worker.user_type {
            UserType::Worker { total_received, current_applies } => {
                let w2 = UserView {
                    user_type: UserType::Worker {
                        total_received: (total_received + amount) as u128,
                        current_applies: (current_applies - 1) as u16,
                    },
                    ..worker
                };
                assert(user_consistent(s.tasks, beneficiary_id, w2));
                assert(user_consistent(tasks1, beneficiary_id, w2)) by {
                    assert forall|j: Seq<char>| #[trigger] w2.current_jobs.contains(j) implies has_key(tasks1, j) by {
                        assert(has_key(s.tasks, j));
                    }
                    assert forall|j: Seq<char>| #[trigger] w2.completed_jobs.contains(j) implies has_key(tasks1, j) by {
                        assert(has_key(s.tasks, j));
                    }
                }
                lemma_users_put(users1, tasks1, beneficiary_id, w2);
            },
            UserType::Requester { .. } => {},
        }
    }
}

/// `on_refund` keeps the state consistent when the task it completes is
/// stored.
pub proof fn on_refund_keeps_consistent(
    s: DupworkView,
    ctx: ContextView,
    results: Seq<PromiseStatus>,
    task_id: Seq<char>,
    owner_id: Seq<char>,
    amount: u128,
)
    requires
        s.wf(),
        consistent(s),
        has_key(s.tasks, task_id),
        on_refund_outcome(s, ctx, results, task_id, owner_id, amount) is Ok,
    ensures
        consistent(on_refund_outcome(s, ctx, results, task_id, owner_id, amount)->Ok_0.0),
{
    if results[0] == PromiseStatus::Successful {
        let owner0 = lookup(s.users, owner_id)->0;
        assert(user_consistent(s.tasks, owner_id, owner0));
        lemma_finish_job_consistent(s.tasks, owner_id, owner0, task_id);
        let owner = finish_job(owner0, task_id);
        match owner.user_type {
            UserType::Requester { total_transfered, current_requests } => {
                let o2 = UserView {
                    user_type: UserType::Requester {
                        total_transfered: (total_transfered + amount) as u128,
                        current_requests: (current_requests - 1) as u16,
                    },
                    ..owner
                };
                lemma_users_put(s.users, s.tasks, owner_id, o2);
            },
            UserType::Worker { .. } => {},
        }
    }
}

} // verus!
