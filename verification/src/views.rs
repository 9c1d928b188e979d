//! Read-only calls: pages of tasks, a user's record, categories.
use vstd::prelude::*;
use crate::constants::MAXIMUM_PROPOSAL_AT_ONE_TIME;
use crate::context::ContractError;
use crate::contract::Dupwork;
use crate::json_types::{WrappedTask, WrappedTaskView, WrappedUser, WrappedUserView, wrap_task};
use crate::model::DupworkView;
use crate::table::{has_key, lookup, Snapshot};
use crate::text::{account_id_is_valid, check_account_id};
use crate::types::{Category, CategoryView};

verus! {

/// The positions `[from, to)` of a page of `n` entries counted from the
/// newest: it skips the `from_index` newest and holds at most `limit`.
pub open spec fn page_bounds(n: int, from_index: u64, limit: u64) -> (int, int) {
    let from = if n > limit + from_index {
        n - limit - from_index
    } else {
        0
    };
    let to = if n > from_index {
        n - from_index
    } else {
        0
    };
    (from, to)
}

/// The positions of a page, newest first.
pub open spec fn page_positions(n: int, from_index: u64, limit: u64) -> Seq<int> {
    let (from, to) = page_bounds(n, from_index, limit);
    Seq::new((to - from) as nat, |k: int| to - 1 - k)
}

/// The positions of a page, oldest first.
pub open spec fn page_positions_ascending(n: int, from_index: u64, limit: u64) -> Seq<int> {
    let (from, to) = page_bounds(n, from_index, limit);
    Seq::new((to - from) as nat, |k: int| from + k)
}

/// Listed tasks as their model.
pub open spec fn listing(r: Vec<(String, WrappedTask)>) -> Seq<(Seq<char>, WrappedTaskView)> {
    r@.map_values(|e: (String, WrappedTask)| (e.0@, e.1@))
}

/// A listing result seen as its model.
pub open spec fn listing_result(r: Result<Vec<(String, WrappedTask)>, ContractError>) -> Result<
    Seq<(Seq<char>, WrappedTaskView)>,
    ContractError,
> {
    match r {
        Ok(v) => Ok(listing(v)),
        Err(e) => Err(e),
    }
}

/// `available_tasks`: a page of all tasks, skipping the `from_index` newest
/// and holding at most `limit`, listed oldest first.
pub open spec fn available_tasks_outcome(s: DupworkView, from_index: u64, limit: u64) -> Result<
    Seq<(Seq<char>, WrappedTaskView)>,
    ContractError,
> {
    if from_index + limit > u64::MAX {
        Err(ContractError::ArithmeticOverflow)
    } else {
        let pos = page_positions_ascending(s.tasks.len() as int, from_index, limit);
        Ok(pos.map_values(|i: int| (s.tasks[i].0, wrap_task(s.tasks[i].1))))
    }
}

/// A page of the tasks named by `ids`, newest first; refused if one of them
/// is not a task.
pub open spec fn job_page(s: DupworkView, ids: Seq<Seq<char>>, from_index: u64, limit: u64) -> Result<
    Seq<(Seq<char>, WrappedTaskView)>,
    ContractError,
> {
    if from_index + limit > u64::MAX {
        Err(ContractError::ArithmeticOverflow)
    } else {
        let pos = page_positions(ids.len() as int, from_index, limit);
        if exists|k: int| 0 <= k < pos.len() && !has_key(s.tasks, ids[#[trigger] pos[k]]) {
            Err(ContractError::TaskNotFound)
        } else {
            Ok(pos.map_values(|i: int| (ids[i], wrap_task(lookup(s.tasks, ids[i])->0))))
        }
    }
}

/// `current_tasks`: a page of the tasks a user has open, newest first.
pub open spec fn current_tasks_outcome(
    s: DupworkView,
    account_id: Seq<char>,
    from_index: u64,
    limit: u64,
) -> Result<Seq<(Seq<char>, WrappedTaskView)>, ContractError> {
    if !account_id_is_valid(account_id) {
        Err(ContractError::InvalidAccountId)
    } else if lookup(s.users, account_id) is None {
        Err(ContractError::UserNotFound)
    } else {
        job_page(s, lookup(s.users, account_id)->0.current_jobs, from_index, limit)
    }
}

/// `completed_tasks`: a page of the tasks a user has completed, newest first.
pub open spec fn completed_tasks_outcome(
    s: DupworkView,
    account_id: Seq<char>,
    from_index: u64,
    limit: u64,
) -> Result<Seq<(Seq<char>, WrappedTaskView)>, ContractError> {
    if !account_id_is_valid(account_id) {
        Err(ContractError::InvalidAccountId)
    } else if lookup(s.users, account_id) is None {
        Err(ContractError::UserNotFound)
    } else {
        job_page(s, lookup(s.users, account_id)->0.completed_jobs, from_index, limit)
    }
}

/// `user_info`: a user's account, bio, role and completed tasks.
pub open spec fn user_info_outcome(s: DupworkView, account_id: Seq<char>) -> Result<
    WrappedUserView,
    ContractError,
> {
    if !account_id_is_valid(account_id) {
        Err(ContractError::InvalidAccountId)
    } else if lookup(s.users, account_id) is None {
        Err(ContractError::UserNotFound)
    } else {
        let u = lookup(s.users, account_id)->0;
        Ok(
            WrappedUserView {
                account_id: u.account_id,
                bio: u.bio,
                user_type: u.user_type,
                completed_jobs: u.completed_jobs,
            },
        )
    }
}

/// `task_by_id`: one task.
pub open spec fn task_by_id_outcome(s: DupworkView, task_id: Seq<char>) -> Result<
    WrappedTaskView,
    ContractError,
> {
    if lookup(s.tasks, task_id) is None {
        Err(ContractError::TaskNotFound)
    } else {
        Ok(wrap_task(lookup(s.tasks, task_id)->0))
    }
}

/// `tasks_by_ids`: the named tasks, in the order of the names.
pub open spec fn tasks_by_ids_outcome(s: DupworkView, ids: Seq<Seq<char>>) -> Result<
    Seq<(Seq<char>, WrappedTaskView)>,
    ContractError,
> {
    if exists|i: int| 0 <= i < ids.len() && !has_key(s.tasks, #[trigger] ids[i]) {
        Err(ContractError::TaskNotFound)
    } else {
        Ok(ids.map_values(|id: Seq<char>| (id, wrap_task(lookup(s.tasks, id)->0))))
    }
}

/// `categories`: the categories from position `from_index`, at most
/// `limit` of them, oldest first.
pub open spec fn categories_outcome(s: DupworkView, from_index: u64, limit: u64) -> Result<
    Seq<CategoryView>,
    ContractError,
> {
    if from_index + limit > u64::MAX {
        Err(ContractError::ArithmeticOverflow)
    } else {
        let end = if from_index + limit < s.categories.len() {
            from_index + limit
        } else {
            s.categories.len() as int
        };
        let count = if end > from_index {
            end - from_index
        } else {
            0
        };
        Ok(Seq::new(count as nat, |k: int| s.categories[from_index + k].1))
    }
}

/// The bounds of a page of `n` entries.
fn page(n: usize, from_index: u64, limit: u64) -> (r: (usize, usize))
    requires
        from_index + limit <= u64::MAX,
    ensures
        r.0 as int == page_bounds(n as int, from_index, limit).0,
        r.1 as int == page_bounds(n as int, from_index, limit).1,
        r.0 <= r.1 <= n,
{
    let len = n as u64;
    let from = if len > limit + from_index {
        len - limit - from_index
    } else {
        0
    };
    let to = if len > from_index {
        len - from_index
    } else {
        0
    };
    (from as usize, to as usize)
}

impl Dupwork {
    /// The tasks from the `from_index` newest on, at most `limit` of them,
    /// oldest first.
    pub fn available_tasks(&self, from_index: u64, limit: u64) -> (r: Result<
        Vec<(String, WrappedTask)>,
        ContractError,
    >)
        requires
            self.wf(),
        ensures
            listing_result(r) == available_tasks_outcome(self@, from_index, limit),
    {
        if from_index.checked_add(limit).is_none() {
            return Err(ContractError::ArithmeticOverflow);
        }
        let (from, to) = page(self.tasks_len(), from_index, limit);
        let ghost pos = page_positions_ascending(self@.tasks.len() as int, from_index, limit);
        let mut out: Vec<(String, WrappedTask)> = Vec::new();
        let mut index = from;
        while index < to
            invariant
                from <= index <= to <= self@.tasks.len(),
                pos.len() == to - from,
                forall|k: int| 0 <= k < pos.len() ==> #[trigger] pos[k] == from + k,
                out@.len() == index - from,
                forall|k: int|
                    0 <= k < out@.len() ==> (#[trigger] out@[k]).0@ == self@.tasks[pos[k]].0
                        && out@[k].1@ == wrap_task(self@.tasks[pos[k]].1),
            decreases to - index,
        {
            let id = self.task_key_at(index).clone();
            let task = WrappedTask::from(self.task_at(index).snapshot());
            out.push((id, task));
            index = index + 1;
        }
        assert(listing(out) =~= pos.map_values(
            |i: int| (self@.tasks[i].0, wrap_task(self@.tasks[i].1)),
        ));
        Ok(out)
    }

    /// A page of the tasks named by `ids`, newest first.
    fn job_page(&self, ids: &Vec<String>, from_index: u64, limit: u64) -> (r: Result<
        Vec<(String, WrappedTask)>,
        ContractError,
    >)
        requires
            self.wf(),
        ensures
            listing_result(r) == job_page(
                self@,
                ids@.map_values(|s: String| s@),
                from_index,
                limit,
            ),
    {
        let ghost names = ids@.map_values(|s: String| s@);
        if from_index.checked_add(limit).is_none() {
            return Err(ContractError::ArithmeticOverflow);
        }
        let (from, to) = page(ids.len(), from_index, limit);
        let ghost pos = page_positions(names.len() as int, from_index, limit);
        let mut out: Vec<(String, WrappedTask)> = Vec::new();
        let mut index = to;
        while index > from
            invariant
                from <= index <= to <= ids@.len(),
                from_index + limit <= u64::MAX,
                self.wf(),
                pos == page_positions(names.len() as int, from_index, limit),
                names == ids@.map_values(|s: String| s@),
                pos.len() == to - from,
                forall|k: int| 0 <= k < pos.len() ==> #[trigger] pos[k] == to - 1 - k,
                out@.len() == to - index,
                forall|k: int|
                    0 <= k < out@.len() ==> has_key(self@.tasks, names[#[trigger] pos[k]])
                        && out@[k].0@ == names[pos[k]] && out@[k].1@ == wrap_task(
                        lookup(self@.tasks, names[pos[k]])->0,
                    ),
            decreases index,
        {
            index = index - 1;
            let id = &ids[index];
            let k = to - 1 - index;
            assert(pos[k as int] == index);
            match self.tasks_get(id) {
                None => {
                    assert(names[index as int] == id@);
                    assert(!has_key(self@.tasks, names[pos[k as int]]));
                    assert(0 <= k < pos.len() && !has_key(self@.tasks, names[pos[k as int]]));
                    return Err(ContractError::TaskNotFound);
                },
                Some(task) => {
                    out.push((id.clone(), WrappedTask::from(task)));
                },
            }
        }
        assert(listing(out) =~= pos.map_values(
            |i: int| (names[i], wrap_task(lookup(self@.tasks, names[i])->0)),
        ));
        assert(!exists|k: int| 0 <= k < pos.len() && !has_key(self@.tasks, names[#[trigger] pos[k]]))
            by {
            assert forall|k: int| 0 <= k < pos.len() implies has_key(
                self@.tasks,
                names[#[trigger] pos[k]],
            ) by {
                assert(out@[k].0@ == names[pos[k]]);
            }
        }
        Ok(out)
    }

    /// A page of the tasks `account_id` has open, newest first.
    pub fn current_tasks(&self, account_id: String, from_index: u64, limit: u64) -> (r: Result<
        Vec<(String, WrappedTask)>,
        ContractError,
    >)
        requires
            self.wf(),
        ensures
            listing_result(r) == current_tasks_outcome(self@, account_id@, from_index, limit),
    {
        if !check_account_id(&account_id) {
            return Err(ContractError::InvalidAccountId);
        }
        let user = match self.users_get(&account_id) {
            None => return Err(ContractError::UserNotFound),
            Some(u) => u,
        };
        let ids = user.current_jobs.to_vec();
        self.job_page(&ids, from_index, limit)
    }

    /// A page of the tasks `account_id` has completed, newest first.
    pub fn completed_tasks(&self, account_id: String, from_index: u64, limit: u64) -> (r: Result<
        Vec<(String, WrappedTask)>,
        ContractError,
    >)
        requires
            self.wf(),
        ensures
            listing_result(r) == completed_tasks_outcome(self@, account_id@, from_index, limit),
    {
        if !check_account_id(&account_id) {
            return Err(ContractError::InvalidAccountId);
        }
        let user = match self.users_get(&account_id) {
            None => return Err(ContractError::UserNotFound),
            Some(u) => u,
        };
        let ids = user.completed_jobs.to_vec();
        self.job_page(&ids, from_index, limit)
    }

    /// The record of `account_id`.
    pub fn user_info(&self, account_id: String) -> (r: Result<WrappedUser, ContractError>)
        requires
            self.wf(),
        ensures
            match r {
                Ok(u) => user_info_outcome(self@, account_id@) == Ok::<
                    WrappedUserView,
                    ContractError,
                >(u@),
                Err(e) => user_info_outcome(self@, account_id@) == Err::<
                    WrappedUserView,
                    ContractError,
                >(e),
            },
    {
        if !check_account_id(&account_id) {
            return Err(ContractError::InvalidAccountId);
        }
        match self.users_get(&account_id) {
            None => Err(ContractError::UserNotFound),
            Some(u) => {
                let completed_jobs = u.completed_jobs.to_vec();
                Ok(
                    WrappedUser {
                        account_id: u.account_id,
                        bio: u.bio,
                        user_type: u.user_type,
                        completed_jobs,
                    },
                )
            },
        }
    }

    /// The task stored under `task_id`.
    pub fn task_by_id(&self, task_id: String) -> (r: Result<WrappedTask, ContractError>)
        requires
            self.wf(),
        ensures
            match r {
                Ok(t) => task_by_id_outcome(self@, task_id@) == Ok::<
                    WrappedTaskView,
                    ContractError,
                >(t@),
                Err(e) => task_by_id_outcome(self@, task_id@) == Err::<
                    WrappedTaskView,
                    ContractError,
                >(e),
            },
    {
        match self.tasks_get(&task_id) {
            None => Err(ContractError::TaskNotFound),
            Some(t) => Ok(WrappedTask::from(t)),
        }
    }

    /// The tasks stored under `ids`, in that order.
    pub fn tasks_by_ids(&self, ids: Vec<String>) -> (r: Result<
        Vec<(String, WrappedTask)>,
        ContractError,
    >)
        requires
            self.wf(),
        ensures
            listing_result(r) == tasks_by_ids_outcome(self@, ids@.map_values(|s: String| s@)),
    {
        let ghost names = ids@.map_values(|s: String| s@);
        let mut out: Vec<(String, WrappedTask)> = Vec::new();
        let n = ids.len();
        for i in 0..n
            invariant
                n == ids@.len(),
                names == ids@.map_values(|s: String| s@),
                self.wf(),
                out@.len() == i,
                forall|k: int|
                    0 <= k < i ==> has_key(self@.tasks, #[trigger] names[k]) && out@[k].0@
                        == names[k] && out@[k].1@ == wrap_task(lookup(self@.tasks, names[k])->0),
        {
            match self.task_by_id(ids[i].clone()) {
                Err(e) => {
                    assert(!has_key(self@.tasks, names[i as int]));
                    return Err(e);
                },
                Ok(t) => {
                    out.push((ids[i].clone(), t));
                },
            }
        }
        assert(listing(out) =~= names.map_values(
            |id: Seq<char>| (id, wrap_task(lookup(self@.tasks, id)->0)),
        ));
        Ok(out)
    }

    /// The categories from position `from_index`, at most `limit`, oldest
    /// first.
    pub fn categories(&self, from_index: u64, limit: u64) -> (r: Result<
        Vec<Category>,
        ContractError,
    >)
        requires
            self.wf(),
        ensures
            match r {
                Ok(v) => categories_outcome(self@, from_index, limit) == Ok::<
                    Seq<CategoryView>,
                    ContractError,
                >(v@.map_values(|c: Category| c@)),
                Err(e) => categories_outcome(self@, from_index, limit) == Err::<
                    Seq<CategoryView>,
                    ContractError,
                >(e),
            },
    {
        let bound = match from_index.checked_add(limit) {
            None => return Err(ContractError::ArithmeticOverflow),
            Some(b) => b,
        };
        let n = self.categories_len() as u64;
        let end = if bound < n {
            bound
        } else {
            n
        };
        let mut out: Vec<Category> = Vec::new();
        let mut index = from_index;
        while index < end
            invariant
                from_index <= end ==> from_index <= index <= end,
                end <= self@.categories.len(),
                self@.categories.len() <= usize::MAX,
                from_index > end ==> index == from_index,
                out@.len() == index - from_index,
                forall|k: int|
                    0 <= k < out@.len() ==> (#[trigger] out@[k])@ == self@.categories[from_index
                        + k].1,
            decreases end - index,
        {
            let i = index as usize;
            out.push(self.category_at(i).snapshot());
            index = index + 1;
        }
        assert(out@.map_values(|c: Category| c@) =~= categories_outcome(
            self@,
            from_index,
            limit,
        )->Ok_0);
        Ok(out)
    }

    /// The most participants a task may ask for.
    pub fn maximum_participants_per_task(&self) -> (r: u16)
        ensures
            r == MAXIMUM_PROPOSAL_AT_ONE_TIME,
    {
        MAXIMUM_PROPOSAL_AT_ONE_TIME
    }
}

} // verus!
