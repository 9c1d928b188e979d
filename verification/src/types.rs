//! The records the contract keeps: users, tasks, proposals and categories.
use vstd::prelude::*;
use crate::table::{Table, KeySet, Snapshot, keys_distinct};

verus! {

/// A worker's submission to a task.
pub struct Proposal {
    pub account_id: String,
    /// Preferably a link to the work, such as a repository or a design file.
    pub proof_of_work: String,
    pub is_approved: bool,
    pub is_rejected: bool,
}

pub struct ProposalView {
    pub account_id: Seq<char>,
    pub proof_of_work: Seq<char>,
    pub is_approved: bool,
    pub is_rejected: bool,
}

impl View for Proposal {
    type V = ProposalView;

    open spec fn view(&self) -> ProposalView {
        ProposalView {
            account_id: self.account_id@,
            proof_of_work: self.proof_of_work@,
            is_approved: self.is_approved,
            is_rejected: self.is_rejected,
        }
    }
}

impl Snapshot for Proposal {
    fn snapshot(&self) -> (r: Proposal) {
        Proposal {
            account_id: self.account_id.clone(),
            proof_of_work: self.proof_of_work.clone(),
            is_approved: self.is_approved,
            is_rejected: self.is_rejected,
        }
    }
}

/// The role of a user, with what the role has moved so far.
#[derive(Clone, Copy, PartialEq, Eq, Structural, Debug)]
pub enum UserType {
    Requester { total_transfered: u128, current_requests: u16 },
    Worker { total_received: u128, current_applies: u16 },
}

/// A task posted by a requester.
pub struct Task {
    pub owner: String,
    pub title: String,
    pub description: String,
    pub max_participants: u16,
    /// What each approved worker is paid.
    pub price: u128,
    /// The submissions, keyed by the worker's account.
    pub proposals: Table<Proposal>,
    pub created_at: u64,
    pub available_until: u64,
    pub category_id: String,
}

pub struct TaskView {
    pub owner: Seq<char>,
    pub title: Seq<char>,
    pub description: Seq<char>,
    pub max_participants: u16,
    pub price: u128,
    pub proposals: Seq<(Seq<char>, ProposalView)>,
    pub created_at: u64,
    pub available_until: u64,
    pub category_id: Seq<char>,
}

impl View for Task {
    type V = TaskView;

    open spec fn view(&self) -> TaskView {
        TaskView {
            owner: self.owner@,
            title: self.title@,
            description: self.description@,
            max_participants: self.max_participants,
            price: self.price,
            proposals: self.proposals@,
            created_at: self.created_at,
            available_until: self.available_until,
            category_id: self.category_id@,
        }
    }
}

impl TaskView {
    /// No worker has two proposals.
    pub open spec fn wf(self) -> bool {
        keys_distinct(self.proposals)
    }
}

impl Snapshot for Task {
    fn snapshot(&self) -> (r: Task) {
        Task {
            owner: self.owner.clone(),
            title: self.title.clone(),
            description: self.description.clone(),
            max_participants: self.max_participants,
            price: self.price,
            proposals: self.proposals.snapshot(),
            created_at: self.created_at,
            available_until: self.available_until,
            category_id: self.category_id.clone(),
        }
    }
}

/// A registered member.
pub struct User {
    pub account_id: String,
    pub bio: String,
    pub user_type: UserType,
    /// The tasks the user has open, in the order they were taken up.
    pub current_jobs: KeySet,
    /// The tasks the user has finished.
    pub completed_jobs: KeySet,
}

pub struct UserView {
    pub account_id: Seq<char>,
    pub bio: Seq<char>,
    pub user_type: UserType,
    pub current_jobs: Seq<Seq<char>>,
    pub completed_jobs: Seq<Seq<char>>,
}

impl View for User {
    type V = UserView;

    open spec fn view(&self) -> UserView {
        UserView {
            account_id: self.account_id@,
            bio: self.bio@,
            user_type: self.user_type,
            current_jobs: self.current_jobs@,
            completed_jobs: self.completed_jobs@,
        }
    }
}

impl UserView {
    /// No task is listed twice in either list.
    pub open spec fn wf(self) -> bool {
        self.current_jobs.no_duplicates() && self.completed_jobs.no_duplicates()
    }
}

impl Snapshot for User {
    fn snapshot(&self) -> (r: User) {
        User {
            account_id: self.account_id.clone(),
            bio: self.bio.clone(),
            user_type: self.user_type,
            current_jobs: self.current_jobs.snapshot(),
            completed_jobs: self.completed_jobs.snapshot(),
        }
    }
}

/// A topic that tasks are filed under.
pub struct Category {
    id: String,
    name: String,
    created: u64,
    pub num_posts: u64,
}

pub struct CategoryView {
    pub id: Seq<char>,
    pub name: Seq<char>,
    pub created: u64,
    pub num_posts: u64,
}

impl View for Category {
    type V = CategoryView;

    closed spec fn view(&self) -> CategoryView {
        CategoryView {
            id: self.id@,
            name: self.name@,
            created: self.created,
            num_posts: self.num_posts,
        }
    }
}

impl Category {
    /// A category with no tasks yet.
    pub fn new(id: String, name: String, created: u64) -> (c: Category)
        ensures
            c@ == (CategoryView { id: id@, name: name@, created, num_posts: 0 }),
    {
        Category { id, name, created, num_posts: 0 }
    }

    pub fn id(&self) -> (r: &String)
        ensures
            r@ == self@.id,
    {
        &self.id
    }

    pub fn name(&self) -> (r: &String)
        ensures
            r@ == self@.name,
    {
        &self.name
    }

    pub fn created(&self) -> (r: u64)
        ensures
            r == self@.created,
    {
        self.created
    }

    pub fn num_posts(&self) -> (r: u64)
        ensures
            r == self@.num_posts,
    {
        self.num_posts
    }

    /// Counts one more task filed under the category.
    pub fn add_post(&mut self)
        requires
            old(self)@.num_posts < u64::MAX,
        ensures
            final(self)@ == (CategoryView { num_posts: (old(self)@.num_posts + 1) as u64, ..old(self)@ }),
    {
        self.num_posts = self.num_posts + 1;
    }
}

impl Snapshot for Category {
    fn snapshot(&self) -> (r: Category) {
        Category {
            id: self.id.clone(),
            name: self.name.clone(),
            created: self.created,
            num_posts: self.num_posts,
        }
    }
}

} // verus!
